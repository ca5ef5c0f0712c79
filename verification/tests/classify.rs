use akimbo_ip::classify::{
    is_benchmarking, is_benchmarking4, is_broadcast, is_broadcast4, is_documentation,
    is_documentation4, is_global, is_global4, is_link_local, is_link_local4, is_loopback,
    is_loopback4, is_multicast, is_multicast4, is_private, is_private4, is_reserved, is_reserved4,
    is_shared, is_shared4, is_unspecified, is_unspecified4,
};
use akimbo_ip::octets::encode;

fn ip(a: u8, b: u8, c: u8, d: u8) -> u32 {
    encode(a, b, c, d)
}

#[test]
fn unspecified_address() {
    let v = ip(0, 0, 0, 0);
    assert!(is_unspecified(v));
    assert!(!is_global(v));
    assert!(!is_unspecified(ip(0, 0, 0, 1)));
}

#[test]
fn loopback_range() {
    assert!(is_loopback(ip(127, 0, 0, 1)));
    assert!(is_loopback(ip(127, 255, 255, 255)));
    assert!(!is_loopback(ip(128, 0, 0, 1)));
    assert!(!is_loopback(ip(126, 255, 255, 255)));
}

#[test]
fn private_ranges() {
    let v = ip(192, 168, 1, 1);
    assert!(is_private(v));
    assert!(!is_global(v));
    assert!(is_private(ip(10, 0, 0, 0)));
    assert!(is_private(ip(10, 255, 255, 255)));
    assert!(is_private(ip(172, 16, 0, 0)));
    assert!(is_private(ip(172, 31, 255, 255)));
    assert!(!is_private(ip(172, 15, 255, 255)));
    assert!(!is_private(ip(172, 32, 0, 0)));
    assert!(!is_private(ip(192, 167, 255, 255)));
    assert!(!is_private(ip(192, 169, 0, 0)));
    assert!(!is_private(ip(11, 0, 0, 0)));
}

#[test]
fn link_local_range() {
    assert!(is_link_local(ip(169, 254, 0, 0)));
    assert!(is_link_local(ip(169, 254, 255, 255)));
    assert!(!is_link_local(ip(169, 253, 255, 255)));
    assert!(!is_link_local(ip(169, 255, 0, 0)));
}

#[test]
fn shared_range() {
    assert!(is_shared(ip(100, 64, 0, 0)));
    assert!(is_shared(ip(100, 127, 255, 255)));
    assert!(!is_shared(ip(100, 63, 255, 255)));
    assert!(!is_shared(ip(100, 128, 0, 0)));
    assert!(!is_shared(ip(101, 64, 0, 0)));
}

#[test]
fn benchmarking_range() {
    assert!(is_benchmarking(ip(198, 18, 0, 0)));
    assert!(is_benchmarking(ip(198, 19, 255, 255)));
    assert!(!is_benchmarking(ip(198, 17, 255, 255)));
    assert!(!is_benchmarking(ip(198, 20, 0, 0)));
}

#[test]
fn documentation_ranges() {
    assert!(is_documentation(ip(192, 0, 2, 0)));
    assert!(is_documentation(ip(192, 0, 2, 255)));
    assert!(is_documentation(ip(198, 51, 100, 7)));
    assert!(is_documentation(ip(203, 0, 113, 200)));
    assert!(!is_documentation(ip(192, 0, 3, 0)));
    assert!(!is_documentation(ip(198, 51, 101, 0)));
    assert!(!is_documentation(ip(203, 0, 112, 0)));
}

#[test]
fn reserved_range() {
    assert!(is_reserved(ip(240, 0, 0, 0)));
    assert!(is_reserved(ip(255, 255, 255, 254)));
    assert!(!is_reserved(ip(255, 255, 255, 255)));
    assert!(!is_reserved(ip(239, 255, 255, 255)));
}

#[test]
fn multicast_range() {
    let v = ip(224, 0, 0, 1);
    assert!(is_multicast(v));
    assert!(is_multicast(ip(239, 255, 255, 255)));
    assert!(!is_multicast(ip(223, 255, 255, 255)));
    assert!(!is_multicast(ip(240, 0, 0, 0)));
}

#[test]
fn broadcast_address() {
    let v = ip(255, 255, 255, 255);
    assert!(is_broadcast(v));
    assert!(!is_global(v));
    assert!(!is_broadcast(ip(255, 255, 255, 254)));
}

#[test]
fn ordinary_global_address() {
    let v = ip(8, 8, 8, 8);
    assert!(is_global(v));
    assert!(!is_unspecified(v));
    assert!(!is_loopback(v));
    assert!(!is_private(v));
    assert!(!is_link_local(v));
    assert!(!is_shared(v));
    assert!(!is_benchmarking(v));
    assert!(!is_documentation(v));
    assert!(!is_reserved(v));
    assert!(!is_multicast(v));
    assert!(!is_broadcast(v));
}

#[test]
fn global_is_negation_of_special_union() {
    let samples: Vec<u32> = vec![
        ip(0, 0, 0, 0),
        ip(8, 8, 8, 8),
        ip(10, 1, 2, 3),
        ip(100, 64, 0, 1),
        ip(127, 0, 0, 1),
        ip(169, 254, 1, 1),
        ip(172, 16, 5, 5),
        ip(192, 0, 2, 1),
        ip(192, 168, 1, 1),
        ip(198, 18, 0, 1),
        ip(198, 51, 100, 1),
        ip(203, 0, 113, 1),
        ip(224, 0, 0, 1),
        ip(240, 0, 0, 1),
        ip(255, 255, 255, 255),
    ];
    for &v in &samples {
        let special = is_private(v)
            || is_loopback(v)
            || is_link_local(v)
            || is_unspecified(v)
            || is_documentation(v)
            || is_shared(v)
            || is_benchmarking(v)
            || is_reserved(v)
            || is_broadcast(v);
        assert_eq!(is_global(v), !special);
    }
}

#[test]
fn batch_matches_scalar() {
    let batch: Vec<u32> = vec![
        ip(0, 0, 0, 0),
        ip(8, 8, 8, 8),
        ip(10, 0, 0, 1),
        ip(100, 100, 0, 0),
        ip(127, 0, 0, 1),
        ip(169, 254, 0, 9),
        ip(172, 20, 0, 1),
        ip(192, 0, 2, 9),
        ip(192, 168, 1, 1),
        ip(198, 19, 0, 0),
        ip(203, 0, 113, 3),
        ip(224, 0, 0, 1),
        ip(250, 1, 2, 3),
        ip(255, 255, 255, 255),
    ];
    let n = batch.len();
    let pairs: Vec<(Vec<bool>, fn(u32) -> bool)> = vec![
        (is_unspecified4(&batch), is_unspecified as fn(u32) -> bool),
        (is_loopback4(&batch), is_loopback),
        (is_private4(&batch), is_private),
        (is_link_local4(&batch), is_link_local),
        (is_shared4(&batch), is_shared),
        (is_benchmarking4(&batch), is_benchmarking),
        (is_documentation4(&batch), is_documentation),
        (is_reserved4(&batch), is_reserved),
        (is_multicast4(&batch), is_multicast),
        (is_broadcast4(&batch), is_broadcast),
        (is_global4(&batch), is_global),
    ];
    for (out, scalar) in pairs {
        assert_eq!(out.len(), n);
        for i in 0..n {
            assert_eq!(out[i], scalar(batch[i]));
        }
    }
}

#[test]
fn empty_batch_predicates() {
    let batch: Vec<u32> = vec![];
    assert!(is_unspecified4(&batch).is_empty());
    assert!(is_loopback4(&batch).is_empty());
    assert!(is_private4(&batch).is_empty());
    assert!(is_link_local4(&batch).is_empty());
    assert!(is_shared4(&batch).is_empty());
    assert!(is_benchmarking4(&batch).is_empty());
    assert!(is_documentation4(&batch).is_empty());
    assert!(is_reserved4(&batch).is_empty());
    assert!(is_multicast4(&batch).is_empty());
    assert!(is_broadcast4(&batch).is_empty());
    assert!(is_global4(&batch).is_empty());
}
