use std::collections::HashMap;

use sophia::workload::{
    check_value, decimal_key, lookup_drawn, key_for_draw, read_keys, write_keys, KeyReader, KeyWriter, ReadAction,
    ReadEvent, Verdict, WriteAction, N_KEYS, REPEAT,
};

#[test]
fn decimal_key_is_the_decimal_form() {
    assert_eq!(decimal_key(0), b"0".to_vec());
    assert_eq!(decimal_key(7), b"7".to_vec());
    assert_eq!(decimal_key(10), b"10".to_vec());
    assert_eq!(decimal_key(1907), b"1907".to_vec());
    assert_eq!(decimal_key(N_KEYS), b"100000000".to_vec());
    assert_eq!(decimal_key(usize::MAX), usize::MAX.to_string().into_bytes());
}

#[test]
fn decimal_keys_are_distinct() {
    let mut seen = std::collections::HashSet::new();
    for i in 0..5000usize {
        assert!(seen.insert(decimal_key(i)));
    }
}

#[test]
fn constants_of_the_benchmark() {
    assert_eq!(N_KEYS, 100_000_000);
    assert_eq!(REPEAT, 10_000_000);
}

#[test]
fn check_value_verdicts() {
    assert_eq!(check_value(b"12", Some(b"12")), Verdict::Match);
    assert_eq!(check_value(b"12", Some(b"13")), Verdict::Mismatch);
    assert_eq!(check_value(b"12", Some(b"")), Verdict::Mismatch);
    assert_eq!(check_value(b"12", Some(&[0xff, 0xfe])), Verdict::NotText);
    assert_eq!(check_value(b"12", None), Verdict::NotFound);
}

#[test]
fn key_for_draw_wraps_around() {
    assert_eq!(key_for_draw(12, 5), b"2".to_vec());
    assert_eq!(key_for_draw(4, 5), b"4".to_vec());
    assert_eq!(key_for_draw(usize::MAX, N_KEYS), (usize::MAX % N_KEYS).to_string().into_bytes());
}

#[test]
fn writer_stores_each_key_as_its_value() {
    let mut w = KeyWriter::new(3);
    for i in 0..3usize {
        match write_keys(&mut w) {
            WriteAction::Store { key, value } => {
                assert_eq!(key, i.to_string().into_bytes());
                assert_eq!(value, key);
            }
            WriteAction::Finished => panic!("finished early"),
        }
    }
    assert!(matches!(write_keys(&mut w), WriteAction::Finished));
    assert!(matches!(write_keys(&mut w), WriteAction::Finished));
}

#[test]
fn writer_of_nothing_finishes() {
    let mut w = KeyWriter::new(0);
    assert!(matches!(write_keys(&mut w), WriteAction::Finished));
}

#[test]
fn reader_reports_each_answer() {
    let mut r = KeyReader::new(3, 5);
    assert!(!r.awaits_answer());
    let key = match read_keys(&mut r, ReadEvent::Ready) {
        ReadAction::Lookup(k) => k,
        _ => panic!("expected a lookup"),
    };
    let n: usize = String::from_utf8(key.clone()).unwrap().parse().unwrap();
    assert!(n < 5);
    assert!(r.awaits_answer());
    assert!(matches!(
        read_keys(&mut r, ReadEvent::Fetched(Some(Some(key.clone())))),
        ReadAction::Checked(Verdict::Match)
    ));
    let _ = read_keys(&mut r, ReadEvent::Ready);
    assert!(matches!(read_keys(&mut r, ReadEvent::Fetched(None)), ReadAction::NoResult));
    let _ = read_keys(&mut r, ReadEvent::Ready);
    assert!(matches!(
        read_keys(&mut r, ReadEvent::Fetched(Some(None))),
        ReadAction::Checked(Verdict::NotFound)
    ));
    assert!(matches!(read_keys(&mut r, ReadEvent::Ready), ReadAction::Finished));
}

#[test]
fn reader_flags_a_wrong_value() {
    let mut r = KeyReader::new(1, 1);
    match read_keys(&mut r, ReadEvent::Ready) {
        ReadAction::Lookup(k) => assert_eq!(k, b"0".to_vec()),
        _ => panic!("expected a lookup"),
    }
    assert!(matches!(
        read_keys(&mut r, ReadEvent::Fetched(Some(Some(b"1".to_vec())))),
        ReadAction::Checked(Verdict::Mismatch)
    ));
}

#[test]
fn reads_find_what_the_writer_stored() {
    let n = 50usize;
    let mut store: HashMap<Vec<u8>, Vec<u8>> = HashMap::new();
    let mut w = KeyWriter::new(n);
    while let WriteAction::Store { key, value } = write_keys(&mut w) {
        store.insert(key, value);
    }
    assert_eq!(store.len(), n);
    let mut r = KeyReader::new(200, n);
    loop {
        match read_keys(&mut r, ReadEvent::Ready) {
            ReadAction::Lookup(k) => {
                let answer = store.get(&k).map(|v| Some(v.clone()));
                match read_keys(&mut r, ReadEvent::Fetched(answer)) {
                    ReadAction::Checked(v) => assert_eq!(v, Verdict::Match),
                    _ => panic!("the key was not stored"),
                }
            }
            ReadAction::Finished => break,
            _ => panic!("unexpected step"),
        }
    }
}

#[test]
fn lookup_drawn_sets_the_pending_key() {
    let mut r = KeyReader::new(2, 10);
    assert_eq!(lookup_drawn(&mut r, 1234), b"4".to_vec());
    assert!(r.awaits_answer());
    assert!(matches!(
        read_keys(&mut r, ReadEvent::Fetched(Some(Some(b"4".to_vec())))),
        ReadAction::Checked(Verdict::Match)
    ));
    assert!(!r.awaits_answer());
}
