use vanity::records::MatchRecord;
use vanity::sink::{encode_batch, header_bytes, RecordBatcher};

fn record(pk: &str, sk: &str) -> MatchRecord {
    MatchRecord {
        public_key: pk.to_string(),
        private_key_encoded: sk.to_string(),
        note: "Generated by Vanity".to_string(),
    }
}

#[test]
fn header_row_bytes() {
    assert_eq!(header_bytes(), b"Public Key,Private Key,Note\n".to_vec());
}

#[test]
fn batch_rows_bytes() {
    let batch = vec![record("PK1abc", "SK1"), record("PK2abc", "SK2")];
    let bytes = encode_batch(&batch);
    assert_eq!(
        String::from_utf8(bytes).unwrap(),
        "PK1abc,SK1,Generated by Vanity\nPK2abc,SK2,Generated by Vanity\n"
    );
}

#[test]
fn empty_batch_has_no_bytes() {
    assert!(encode_batch(&Vec::new()).is_empty());
}

#[test]
fn field_with_comma_is_quoted() {
    let batch = vec![MatchRecord {
        public_key: "a,b".to_string(),
        private_key_encoded: "c".to_string(),
        note: "d".to_string(),
    }];
    assert_eq!(encode_batch(&batch), b"\"a,b\",c,d\n".to_vec());
}

#[test]
fn batcher_releases_full_batches() {
    let mut b = RecordBatcher::new(3);
    assert!(b.push(record("a", "1")).is_empty());
    assert!(b.push(record("b", "2")).is_empty());
    assert_eq!(b.pending_len(), 2);
    let out = b.push(record("c", "3"));
    let keys: Vec<&str> = out.iter().map(|r| r.public_key.as_str()).collect();
    assert_eq!(keys, vec!["a", "b", "c"]);
    assert_eq!(b.pending_len(), 0);
}

#[test]
fn batcher_flushes_partial_batch_on_finish() {
    let mut b = RecordBatcher::new(100);
    let mut released = 0usize;
    for i in 0..250 {
        released += b.push(record(&format!("pk{}", i), "sk")).len();
    }
    assert_eq!(released, 200);
    let rest = b.finish();
    assert_eq!(rest.len(), 50);
    assert_eq!(rest[0].public_key, "pk200");
    assert_eq!(released + rest.len(), 250);
    assert_eq!(b.pending_len(), 0);
    assert!(b.finish().is_empty());
}

#[test]
fn batcher_with_capacity_one_releases_each_record() {
    let mut b = RecordBatcher::new(1);
    for i in 0..5 {
        let out = b.push(record(&format!("k{}", i), "s"));
        assert_eq!(out.len(), 1);
        assert_eq!(out[0].public_key, format!("k{}", i));
    }
    assert!(b.finish().is_empty());
}
