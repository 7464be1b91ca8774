use rtir::nearest::{nearest_of, NearestHit};

#[test]
fn scan_picks_nearest_hit() {
    let hits = vec![Some(40u64), None, Some(15), Some(30)];
    assert_eq!(nearest_of(&hits, 1, 100), Some(2));
}

#[test]
fn scan_ignores_hits_outside_window() {
    let hits = vec![Some(1u64), Some(100), Some(150), Some(60)];
    assert_eq!(nearest_of(&hits, 1, 100), Some(3));
}

#[test]
fn scan_without_hits_is_none() {
    let hits: Vec<Option<u64>> = vec![None, Some(5), Some(200)];
    assert_eq!(nearest_of(&hits, 5, 200), None);
    let empty: Vec<Option<u64>> = Vec::new();
    assert_eq!(nearest_of(&empty, 0, u64::MAX), None);
}

#[test]
fn scan_keeps_first_of_equal_hits() {
    let hits = vec![Some(9u64), Some(7), Some(7), Some(8)];
    assert_eq!(nearest_of(&hits, 0, 10), Some(1));
}

#[test]
fn scan_result_does_not_depend_on_order() {
    let a = vec![Some(12u64), Some(3), None, Some(8)];
    let b = vec![None, Some(8), Some(12), Some(3)];
    let ia = nearest_of(&a, 1, 50).unwrap();
    let ib = nearest_of(&b, 1, 50).unwrap();
    assert_eq!(a[ia], Some(3));
    assert_eq!(b[ib], Some(3));
}

#[test]
fn offer_shrinks_window() {
    let mut scan = NearestHit::new(1, 100);
    assert_eq!(scan.window(), (1, 100));
    assert!(scan.offer(0, Some(50)));
    assert_eq!(scan.window(), (1, 50));
    assert!(!scan.offer(1, Some(50)));
    assert!(!scan.offer(2, Some(70)));
    assert!(!scan.offer(3, None));
    assert!(!scan.offer(4, Some(1)));
    assert!(scan.offer(5, Some(20)));
    assert_eq!(scan.window(), (1, 20));
    assert_eq!(scan.best, Some(5));
}

#[test]
fn distance_keys_follow_distances() {
    let ts = [0.001f64, 0.5, 0.75, 1.0, 2.5, 1000.0];
    let keys: Vec<Option<u64>> = ts.iter().rev().map(|t| Some(t.to_bits())).collect();
    let i = nearest_of(&keys, 0.001f64.to_bits(), f64::INFINITY.to_bits()).unwrap();
    assert_eq!(f64::from_bits(keys[i].unwrap()), 0.5);
}
