use mkvm::ident::{build, namespace_id, MacError};

#[test]
fn mac_from_example_values() {
    assert_eq!(build(0x0200, 0xcafe, 0xbabe), Ok("02:00:ca:fe:ba:be".to_string()));
}

#[test]
fn mac_refuses_prefix_without_local_bit() {
    assert_eq!(build(0x0000, 1, 2), Err(MacError::InvalidPrefix));
    assert_eq!(build(0xfdff, 0xcafe, 0xbabe), Err(MacError::InvalidPrefix));
    assert_eq!(build(0x0100, 0, 0), Err(MacError::InvalidPrefix));
}

#[test]
fn mac_shape_for_local_prefixes() {
    for prefix in [0x0200u16, 0x0201, 0x0a00, 0xffff, 0x5e7f] {
        let mac = build(prefix, 0x0102, 0xf00d).unwrap();
        assert_eq!(mac.len(), 17);
        for (i, c) in mac.chars().enumerate() {
            if i % 3 == 2 {
                assert_eq!(c, ':');
            } else {
                assert!(c.is_ascii_hexdigit() && !c.is_ascii_uppercase());
            }
        }
    }
    assert_eq!(build(0xffff, 0, 0xffff), Ok("ff:ff:00:00:ff:ff".to_string()));
}

#[test]
fn namespace_id_is_deterministic() {
    let a = namespace_id(b"cluster-net");
    let b = namespace_id(b"cluster-net");
    assert_eq!(a, b);
    assert_eq!(a.len(), 16);
}

#[test]
fn namespace_id_differs_between_names() {
    assert_ne!(namespace_id(b"images"), namespace_id(b"combustion"));
    assert_ne!(namespace_id(b""), namespace_id(b"a"));
}

#[test]
fn namespace_id_is_name_based_version() {
    let id = namespace_id(b"images");
    assert_eq!(id[6] >> 4, 5);
    assert_eq!(id[8] & 0xc0, 0x80);
}

use mkvm::ident::{time_id, ClockContext, DeriveError};

#[test]
fn clock_context_reduces_seed() {
    assert_eq!(ClockContext::new(0x12345).sequence, 0x2345);
    assert_eq!(ClockContext::new(7).sequence, 7);
}

#[test]
fn time_id_at_unix_epoch() {
    let ctx = ClockContext::new(0x12345);
    let id = time_id(&ctx, 0, 0, b"images").unwrap();
    assert_eq!(
        id,
        vec![
            0x13, 0x81, 0x40, 0x00, 0x1d, 0xd2, 0x11, 0xb2, 0xa3, 0x45, b'i', b'm', b'a', b'g',
            b'e', b's'
        ]
    );
    let parsed = uuid::Uuid::from_slice(&id).unwrap();
    assert_eq!(parsed.get_version_num(), 1);
}

#[test]
fn time_id_salt_is_cut_or_padded() {
    let ctx = ClockContext::new(1);
    let long = time_id(&ctx, 1_000, 500, b"combustion").unwrap();
    assert_eq!(&long[10..], b"combus");
    let short = time_id(&ctx, 1_000, 500, b"ab").unwrap();
    assert_eq!(&short[10..], &[b'a', b'b', 0, 0, 0, 0]);
    assert_eq!(long[..10], short[..10]);
}

#[test]
fn time_id_is_deterministic() {
    let ctx = ClockContext::new(4242);
    assert_eq!(
        time_id(&ctx, 1_650_000_000, 123_456_789, b"pool"),
        time_id(&ctx, 1_650_000_000, 123_456_789, b"pool")
    );
}

#[test]
fn time_id_overflow_is_refused() {
    let ctx = ClockContext::new(1);
    assert_eq!(time_id(&ctx, u64::MAX, 0, b"images"), Err(DeriveError::Overflow));
    assert_eq!(time_id(&ctx, 200_000_000_000, 0, b"images"), Err(DeriveError::Overflow));
    assert!(time_id(&ctx, 100_000_000_000, 0, b"images").is_ok());
}
