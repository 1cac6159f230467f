use tron_aml::exposure::ExposureWalk;

#[test]
fn exposure_walk_expands_each_address_once_within_the_hop_limit() {
    let mut walk = ExposureWalk::new("seed", 1.0f64, 1);
    let (a, s, h) = walk.next_address().expect("seed");
    assert_eq!((a.as_str(), s, h), ("seed", 1.0, 0));
    walk.enqueue_next(h, vec![("a".to_string(), 0.75), ("b".to_string(), 0.75)]);
    let (a, s, h) = walk.next_address().expect("a");
    assert_eq!((a.as_str(), s, h), ("a", 0.75, 1));
    walk.enqueue_next(h, vec![("c".to_string(), 0.42)]);
    let (b, _, hb) = walk.next_address().expect("b");
    assert_eq!((b.as_str(), hb), ("b", 1));
    walk.enqueue_next(hb, vec![("a".to_string(), 0.1), ("seed".to_string(), 0.1)]);
    assert!(walk.next_address().is_none());
}

#[test]
fn a_walk_may_reach_the_last_hop_count() {
    let mut walk = ExposureWalk::new("seed", 1u32, u8::MAX);
    let (_, _, h) = walk.next_address().expect("seed");
    assert_eq!(h, 0);
    walk.enqueue_next(h, vec![("a".to_string(), 2)]);
    let (a, s, h) = walk.next_address().expect("a");
    assert_eq!((a.as_str(), s, h), ("a", 2, 1));
    walk.enqueue_next(h, Vec::new());
    assert!(walk.next_address().is_none());
}
