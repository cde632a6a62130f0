use hashmatch::generate::{generate, lowercase_letter, MAX_KEY_LEN, MIN_KEY_LEN};
use hashmatch::hash::hash_str;
use hashmatch::keyset::{KeyError, KeySet};
use hashmatch::table::{build_fold_index, LazyLookup, PhfLookup};
use hashmatch::variants::Lookups;

const FIVE: [&str; 5] = ["xrxeclxu", "vukddz", "qwhkdyjog", "dpesutax", "tqgzzfcblp"];

fn five() -> KeySet {
    KeySet::from_keys(FIVE.iter().map(|s| s.to_string()).collect()).unwrap()
}

fn answers(l: &Lookups, s: &str) -> [Option<usize>; 4] {
    [l.match_str(s), l.match_hash(s), l.lookup_phf(s), l.lookup_lazy(s)]
}

#[test]
fn five_keys_member_and_absent() {
    let l = Lookups::new(five());
    assert_eq!(answers(&l, "vukddz"), [Some(1); 4]);
    assert_eq!(answers(&l, "notpresent"), [None; 4]);
}

#[test]
fn five_keys_every_position() {
    let l = Lookups::new(five());
    for (i, k) in FIVE.iter().enumerate() {
        assert_eq!(answers(&l, k), [Some(i); 4]);
    }
    assert_eq!(answers(&l, ""), [None; 4]);
    assert_eq!(answers(&l, "vukdd"), [None; 4]);
    assert_eq!(answers(&l, "VUKDDZ"), [None; 4]);
}

#[test]
fn key_set_accessors() {
    let ks = five();
    assert_eq!(ks.len(), 5);
    assert_eq!(ks.key(3), "dpesutax");
    assert_eq!(ks.keys().len(), 5);
    assert_eq!(ks.hashes()[0], hash_str("xrxeclxu"));
    assert_eq!(ks.match_str("qwhkdyjog"), Some(2));
    assert_eq!(ks.match_hash("qwhkdyjog"), Some(2));
}

#[test]
fn duplicate_key_is_refused() {
    let mut ks = five();
    assert_eq!(ks.try_push("vukddz".to_string()), Err(KeyError::Duplicate));
    assert_eq!(ks.len(), 5);
    assert_eq!(ks.try_push("abcdefg".to_string()), Ok(()));
    assert_eq!(ks.len(), 6);
    assert_eq!(ks.match_str("abcdefg"), Some(5));
    let r = KeySet::from_keys(vec!["aa".to_string(), "bb".to_string(), "aa".to_string()]);
    assert_eq!(r.err(), Some(KeyError::Duplicate));
}

#[test]
fn empty_key_set_answers_nothing() {
    let l = Lookups::new(KeySet::new());
    assert_eq!(answers(&l, ""), [None; 4]);
    assert_eq!(answers(&l, "abc"), [None; 4]);
    assert_eq!(l.check_agreement(&vec!["x".to_string()]), Ok(()));
}

#[test]
fn tables_alone() {
    let ks = five();
    let p = PhfLookup::new(&ks);
    let z = LazyLookup::new(&ks);
    assert_eq!(p.lookup_phf("tqgzzfcblp"), Some(4));
    assert_eq!(z.lookup_lazy("tqgzzfcblp"), Some(4));
    assert_eq!(z.lookup_lazy("tqgzzfcblp"), Some(4));
    assert_eq!(p.lookup_phf("zzz"), None);
    assert_eq!(z.lookup_lazy("zzz"), None);
    let _ = build_fold_index(&vec!["a".to_string()]);
}

#[test]
fn differential_check_passes() {
    let l = Lookups::new(five());
    let probes = vec!["notpresent".to_string(), "".to_string(), "xrxeclxu".to_string()];
    assert_eq!(l.check_agreement(&probes), Ok(()));
    assert!(l.agree_on("anything"));
}

#[test]
fn generated_sets_are_valid_and_agree() {
    for n in [0usize, 1, 5, 50, 500] {
        let ks = generate(n, 1_000_000).unwrap();
        assert_eq!(ks.len(), n);
        for i in 0..n {
            let k = ks.key(i);
            assert!(k.len() >= MIN_KEY_LEN && k.len() <= MAX_KEY_LEN);
            assert!(k.bytes().all(|b| b.is_ascii_lowercase()));
            for j in 0..i {
                assert_ne!(ks.hashes()[i], ks.hashes()[j]);
            }
        }
        let l = Lookups::new(ks);
        for i in 0..n {
            let k = l.key_set().key(i).to_string();
            assert_eq!(answers(&l, &k), [Some(i); 4]);
        }
        assert_eq!(answers(&l, "notpresent0"), [None; 4]);
        assert_eq!(l.check_agreement(&vec!["ABCDEFG".to_string()]), Ok(()));
    }
}

#[test]
fn generation_without_draws_fails() {
    assert!(generate(3, 0).is_none());
    assert_eq!(generate(0, 0).map(|k| k.len()), Some(0));
}

#[test]
fn lowercase_letter_maps_ascii_letters() {
    assert_eq!(lowercase_letter(b'a'), Some('a'));
    assert_eq!(lowercase_letter(b'Q'), Some('q'));
    assert_eq!(lowercase_letter(b'Z'), Some('z'));
    assert_eq!(lowercase_letter(b'7'), None);
    assert_eq!(lowercase_letter(b'['), None);
}
