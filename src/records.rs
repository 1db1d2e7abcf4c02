use vstd::prelude::*;
use crate::matcher::Matcher;
use solana_sdk::signature::{Keypair, Signer};

verus! {

/// A freshly generated keypair, in its text forms.
#[derive(Clone, Debug)]
pub struct CandidateKeypair {
    pub public_key: String,
    pub private_key_encoded: String,
}

/// A keypair that satisfied the search target, as it is stored.
#[derive(Clone, Debug)]
pub struct MatchRecord {
    pub public_key: String,
    pub private_key_encoded: String,
    pub note: String,
}

/// The note column of every stored match.
pub open spec fn record_note() -> Seq<char> {
    "Generated by Vanity"@
}

pub open spec fn candidate_view(c: CandidateKeypair) -> (Seq<char>, Seq<char>) {
    (c.public_key@, c.private_key_encoded@)
}

pub open spec fn record_view(r: MatchRecord) -> (Seq<char>, Seq<char>, Seq<char>) {
    (r.public_key@, r.private_key_encoded@, r.note@)
}

/// The records for the candidates whose public key the matcher accepts, in
/// the candidates' order.
pub open spec fn matching_records(cands: Seq<CandidateKeypair>, m: Matcher) -> Seq<
    (Seq<char>, Seq<char>, Seq<char>),
>
    decreases cands.len(),
{
    if cands.len() == 0 {
        seq![]
    } else {
        let prev = matching_records(cands.drop_last(), m);
        let c = cands.last();
        if m.accepts(c.public_key@) {
            prev.push((c.public_key@, c.private_key_encoded@, record_note()))
        } else {
            prev
        }
    }
}

/// Relies on `Keypair::new` of solana-sdk for a fresh random keypair, on
/// `Pubkey`'s `Display` for its base58 public key, and on `bs58::encode` for
/// the base58 form of its 64 key bytes. Nothing is known of the values drawn.
#[verifier::external_body]
fn fresh_candidate() -> (c: CandidateKeypair) {
    let keypair = Keypair::new();
    CandidateKeypair {
        public_key: keypair.pubkey().to_string(),
        private_key_encoded: solana_sdk::bs58::encode(keypair.to_bytes()).into_string(),
    }
}

/// Generates `n` fresh candidate keypairs.
pub fn generate_batch(n: usize) -> (batch: Vec<CandidateKeypair>)
    ensures
        batch@.len() == n,
{
    let mut batch: Vec<CandidateKeypair> = Vec::new();
    let mut i: usize = 0;
    while i < n
        invariant
            i <= n,
            batch@.len() == i,
        decreases n - i,
    {
        batch.push(fresh_candidate());
        i = i + 1;
    }
    batch
}

/// Builds the stored record for a matching keypair.
pub fn make_record(candidate: &CandidateKeypair) -> (r: MatchRecord)
    ensures
        record_view(r) == (candidate.public_key@, candidate.private_key_encoded@, record_note()),
{
    MatchRecord {
        public_key: candidate.public_key.clone(),
        private_key_encoded: candidate.private_key_encoded.clone(),
        note: "Generated by Vanity".to_owned(),
    }
}

/// Keeps the candidates whose public key satisfies the matcher, as records,
/// in order.
pub fn select_matches(batch: &Vec<CandidateKeypair>, matcher: &Matcher) -> (out: Vec<MatchRecord>)
    requires
        matcher.wf(),
    ensures
        out@.map_values(|r: MatchRecord| record_view(r)) == matching_records(batch@, *matcher),
{
    let mut out: Vec<MatchRecord> = Vec::new();
    let mut i: usize = 0;
    while i < batch.len()
        invariant
            i <= batch@.len(),
            matcher.wf(),
            out@.map_values(|r: MatchRecord| record_view(r)) == matching_records(
                batch@.take(i as int),
                *matcher,
            ),
        decreases batch@.len() - i,
    {
        let c = &batch[i];
        let ghost prev = out@;
        assert(batch@.take(i + 1).drop_last() =~= batch@.take(i as int));
        assert(batch@.take(i + 1).last() == batch@[i as int]);
        if matcher.matches(c.public_key.as_str()) {
            let r = make_record(c);
            out.push(r);
            assert(out@.map_values(|r: MatchRecord| record_view(r)) =~= prev.map_values(
                |r: MatchRecord| record_view(r),
            ).push(record_view(r)));
        }
        i = i + 1;
    }
    assert(batch@.take(batch@.len() as int) =~= batch@);
    out
}

/// One round of a worker's search: generates `batch_size` keypairs and keeps
/// those that satisfy the matcher, in order. Which keypairs are drawn is left
/// open; the records are exactly the matching ones among them.
pub fn search_batch(matcher: &Matcher, batch_size: usize) -> (out: Vec<MatchRecord>)
    requires
        matcher.wf(),
    ensures
        exists|b: Seq<CandidateKeypair>|
            b.len() == batch_size && out@.map_values(|r: MatchRecord| record_view(r))
                == #[trigger] matching_records(b, *matcher),
        out@.len() <= batch_size,
        forall|i: int|
            0 <= i < out@.len() ==> #[trigger] matcher.accepts(out@[i].public_key@)
                && out@[i].note@ == record_note(),
{
    let batch = generate_batch(batch_size);
    let out = select_matches(&batch, matcher);
    proof {
        lemma_matching_records_sound(batch@, *matcher);
        assert(out@.map_values(|r: MatchRecord| record_view(r)) == matching_records(
            batch@,
            *matcher,
        ));
        assert forall|i: int| 0 <= i < out@.len() implies #[trigger] matcher.accepts(
            out@[i].public_key@,
        ) && out@[i].note@ == record_note() by {
            let views = out@.map_values(|r: MatchRecord| record_view(r));
            assert(views[i] == record_view(out@[i]));
            assert(views[i] == matching_records(batch@, *matcher)[i]);
        }
    }
    out
}

/// Every record selected comes from an accepted candidate, and there are no
/// more records than candidates.
pub proof fn lemma_matching_records_sound(cands: Seq<CandidateKeypair>, m: Matcher)
    ensures
        matching_records(cands, m).len() <= cands.len(),
        forall|i: int|
            0 <= i < matching_records(cands, m).len() ==> m.accepts(
                (#[trigger] matching_records(cands, m)[i]).0,
            ) && matching_records(cands, m)[i].2 == record_note(),
    decreases cands.len(),
{
    if cands.len() > 0 {
        lemma_matching_records_sound(cands.drop_last(), m);
    }
}

} // verus!
