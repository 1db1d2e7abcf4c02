use vstd::prelude::*;

verus! {

/// Where the pattern must stand in the encoded public key.
#[derive(Clone, Copy, Debug, PartialEq, Eq, Structural)]
pub enum Anchor {
    Prefix,
    Suffix,
}

/// What a run searches for; fixed for the run's lifetime.
#[derive(Clone, Debug)]
pub struct SearchTarget {
    pub pattern: String,
    pub case_sensitive: bool,
    pub anchor: Anchor,
}

/// The case-folded form of a string, as `str::to_lowercase` computes it.
pub uninterp spec fn lower_of(s: Seq<char>) -> Seq<char>;

/// `p` stands at the given end of `s`.
pub open spec fn anchored_at(s: Seq<char>, p: Seq<char>, anchor: Anchor) -> bool {
    &&& p.len() <= s.len()
    &&& match anchor {
        Anchor::Prefix => s.subrange(0, p.len() as int) == p,
        Anchor::Suffix => s.subrange(s.len() - p.len(), s.len() as int) == p,
    }
}

/// Whether a public key satisfies a pattern: exactly, or after folding the
/// case of both sides.
pub open spec fn key_matches(
    key: Seq<char>,
    pattern: Seq<char>,
    case_sensitive: bool,
    anchor: Anchor,
) -> bool {
    if case_sensitive {
        anchored_at(key, pattern, anchor)
    } else {
        anchored_at(lower_of(key), lower_of(pattern), anchor)
    }
}

/// Two strings that differ at most in the case of their letters.
pub open spec fn same_up_to_case(a: Seq<char>, b: Seq<char>) -> bool {
    lower_of(a) == lower_of(b)
}

/// Relies on `str::to_lowercase`: the result depends on the characters alone,
/// and the empty string stays empty.
#[verifier::external_body]
fn lowercase(s: &str) -> (r: String)
    ensures
        r@ == lower_of(s@),
        s@.len() == 0 ==> r@.len() == 0,
{
    s.to_lowercase()
}

/// Relies on `str::starts_with`: true exactly when `p` is a prefix of `s`.
#[verifier::external_body]
fn has_prefix(s: &str, p: &str) -> (r: bool)
    ensures
        r == anchored_at(s@, p@, Anchor::Prefix),
{
    s.starts_with(p)
}

/// Relies on `str::ends_with`: true exactly when `p` is a suffix of `s`.
#[verifier::external_body]
fn has_suffix(s: &str, p: &str) -> (r: bool)
    ensures
        r == anchored_at(s@, p@, Anchor::Suffix),
{
    s.ends_with(p)
}

/// Tests a key against a pattern at the given end, both already in the form
/// to compare (for a case-insensitive search, both folded).
pub fn matches_folded(folded_key: &str, folded_pattern: &str, anchor: Anchor) -> (r: bool)
    ensures
        r == anchored_at(folded_key@, folded_pattern@, anchor),
{
    match anchor {
        Anchor::Prefix => has_prefix(folded_key, folded_pattern),
        Anchor::Suffix => has_suffix(folded_key, folded_pattern),
    }
}

/// Tests one public key against the pattern. For a case-insensitive search
/// the pattern's folded form is given, computed once beforehand; otherwise
/// `vanity_lower` is not read.
pub fn check_vanity_string(
    public_key: &str,
    vanity_string: &str,
    vanity_lower: &str,
    case_sensitive: bool,
    anchor: Anchor,
) -> (r: bool)
    requires
        !case_sensitive ==> vanity_lower@ == lower_of(vanity_string@),
    ensures
        r == key_matches(public_key@, vanity_string@, case_sensitive, anchor),
{
    if case_sensitive {
        matches_folded(public_key, vanity_string, anchor)
    } else {
        let key_lower = lowercase(public_key);
        matches_folded(key_lower.as_str(), vanity_lower, anchor)
    }
}

/// A search target together with its pattern folded once, ready to test many
/// keys.
pub struct Matcher {
    target: SearchTarget,
    folded: String,
}

impl Matcher {
    pub closed spec fn pattern(&self) -> Seq<char> {
        self.target.pattern@
    }

    pub closed spec fn case_sensitive(&self) -> bool {
        self.target.case_sensitive
    }

    pub closed spec fn anchor(&self) -> Anchor {
        self.target.anchor
    }

    pub closed spec fn wf(&self) -> bool {
        self.folded@ == lower_of(self.target.pattern@)
    }

    /// The predicate this matcher decides.
    pub open spec fn accepts(&self, key: Seq<char>) -> bool {
        key_matches(key, self.pattern(), self.case_sensitive(), self.anchor())
    }

    pub fn new(target: SearchTarget) -> (m: Matcher)
        ensures
            m.wf(),
            m.pattern() == target.pattern@,
            m.case_sensitive() == target.case_sensitive,
            m.anchor() == target.anchor,
    {
        let folded = lowercase(target.pattern.as_str());
        Matcher { target, folded }
    }

    pub fn target(&self) -> (t: &SearchTarget)
        ensures
            t.pattern@ == self.pattern(),
            t.case_sensitive == self.case_sensitive(),
            t.anchor == self.anchor(),
    {
        &self.target
    }

    /// Whether `public_key` satisfies this matcher's target.
    pub fn matches(&self, public_key: &str) -> (r: bool)
        requires
            self.wf(),
        ensures
            r == self.accepts(public_key@),
    {
        check_vanity_string(
            public_key,
            self.target.pattern.as_str(),
            self.folded.as_str(),
            self.target.case_sensitive,
            self.target.anchor,
        )
    }
}

/// Matching is a function of its inputs: the same key tested against the same
/// target gives the same answer on every call.
pub proof fn lemma_matching_deterministic(
    key: Seq<char>,
    pattern: Seq<char>,
    case_sensitive: bool,
    anchor: Anchor,
    first: bool,
    second: bool,
)
    requires
        first == key_matches(key, pattern, case_sensitive, anchor),
        second == key_matches(key, pattern, case_sensitive, anchor),
    ensures
        first == second,
{
}

/// Without case sensitivity, a key that matches still matches after any
/// change of the case of its letters.
pub proof fn lemma_case_insensitive_match_survives_case_change(
    key: Seq<char>,
    variant: Seq<char>,
    pattern: Seq<char>,
    anchor: Anchor,
)
    requires
        key_matches(key, pattern, false, anchor),
        same_up_to_case(key, variant),
    ensures
        key_matches(variant, pattern, false, anchor),
{
}

} // verus!
