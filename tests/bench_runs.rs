use hashmatch::bench::{bench_sizes, mean_lookup_picos, Strategy};
use hashmatch::generate::{generate, non_key_probes};
use hashmatch::keyset::KeySet;
use hashmatch::variants::Lookups;

#[test]
fn sizes_span_three_orders_of_magnitude() {
    let sizes = bench_sizes();
    assert_eq!(sizes.len(), 18);
    assert_eq!(sizes[0], 5);
    assert_eq!(sizes[17], 10000);
    assert!(sizes.windows(2).all(|w| w[0] < w[1]));
}

#[test]
fn strategy_names() {
    let names: Vec<&str> = Strategy::all().iter().map(|s| s.name()).collect();
    assert_eq!(names, vec!["match_str", "match_hash", "lookup_phf", "lookup_lazy"]);
}

#[test]
fn round_finds_every_key() {
    let ks = KeySet::from_keys(
        ["xrxeclxu", "vukddz", "qwhkdyjog", "dpesutax", "tqgzzfcblp"].iter().map(|s| s.to_string()).collect(),
    )
    .unwrap();
    let l = Lookups::new(ks);
    for v in Strategy::all() {
        assert_eq!(l.run_round(v), 5);
        assert_eq!(l.lookup_with(v, "dpesutax"), Some(3));
        assert_eq!(l.lookup_with(v, "notpresent"), None);
    }
}

#[test]
fn mean_is_per_lookup_in_picoseconds() {
    assert_eq!(mean_lookup_picos(1000, 10, 5), 20000);
    assert_eq!(mean_lookup_picos(7, 2, 3), 1166);
    assert_eq!(mean_lookup_picos(0, 1, 1), 0);
    assert_eq!(mean_lookup_picos(u64::MAX, u64::MAX, u64::MAX), 0);
}

#[test]
fn probes_are_not_generated_keys() {
    let probes = non_key_probes();
    assert_eq!(probes.len(), 5);
    let ks = generate(200, 1_000_000).unwrap();
    for p in &probes {
        for i in 0..ks.len() {
            assert_ne!(ks.key(i), p.as_str());
        }
    }
    let l = Lookups::new(ks);
    assert_eq!(l.check_agreement(&probes), Ok(()));
}
