use monero_vanity::curve::{CurvePoint, Scalar};
use monero_vanity::walker::PointWalker;

const ORDER: [u8; 32] = [
    0xed, 0xd3, 0xf5, 0x5c, 0x1a, 0x63, 0x12, 0x58, 0xd6, 0x9c, 0xf7, 0xa2, 0xde, 0xf9, 0xde, 0x14,
    0, 0, 0, 0, 0, 0, 0, 0, 0, 0, 0, 0, 0, 0, 0, 0x10,
];

fn seed_from(n: u64) -> Scalar {
    let mut wide = [0u8; 64];
    for (i, b) in wide.iter_mut().enumerate() {
        *b = (n.wrapping_mul(0x9e3779b97f4a7c15).rotate_left(i as u32) >> 11) as u8 ^ (i as u8);
    }
    Scalar::from_bytes_mod_order_wide(&wide)
}

#[test]
fn walker_step_n_is_seed_plus_n_times_base() {
    for s in 0..5u64 {
        let seed = seed_from(s);
        let mut walker = PointWalker::new(seed);
        let batch = walker.next_batch(64);
        assert_eq!(batch.len(), 64);
        for (n, point) in batch.iter().enumerate() {
            let direct = seed.add_u64(n as u64).public_point();
            assert_eq!(point.compress(), direct.compress());
        }
        assert_eq!(walker.drawn(), 64);
    }
}

#[test]
fn walker_goes_on_where_it_stopped() {
    let seed = seed_from(42);
    let mut walker = PointWalker::new(seed);
    let first = walker.advance();
    assert_eq!(first.compress(), seed.public_point().compress());
    assert_eq!(walker.drawn(), 1);
    let batch = walker.next_batch(10);
    assert_eq!(walker.drawn(), 11);
    let more = walker.next_batch(3);
    assert_eq!(walker.drawn(), 14);
    assert_eq!(batch[0].compress(), seed.add_u64(1).public_point().compress());
    assert_eq!(more[2].compress(), seed.add_u64(13).public_point().compress());
    assert!(walker.next_batch(0).is_empty());
    assert_eq!(walker.drawn(), 14);
}

#[test]
fn walker_passes_the_group_order() {
    let mut bytes = ORDER;
    bytes[0] -= 3;
    let seed = Scalar::from_canonical_bytes(&bytes).unwrap();
    let mut walker = PointWalker::new(seed);
    let batch = walker.next_batch(8);
    for (n, point) in batch.iter().enumerate() {
        let want = if n < 3 {
            seed.add_u64(n as u64).public_point()
        } else {
            Scalar::from_u64(n as u64 - 3).public_point()
        };
        assert_eq!(point.compress(), want.compress());
    }
    assert_eq!(walker.scalar_at(3).to_bytes(), [0u8; 32]);
    assert_eq!(walker.scalar_at(5).to_bytes(), Scalar::from_u64(2).to_bytes());
}

#[test]
fn scalar_at_is_seed_plus_tries() {
    let seed = Scalar::from_u64(1000);
    let walker = PointWalker::new(seed);
    assert_eq!(walker.scalar_at(0).to_bytes(), seed.to_bytes());
    assert_eq!(walker.scalar_at(24).to_bytes(), Scalar::from_u64(1024).to_bytes());
}

#[test]
fn walker_with_base_starts_at_the_sum() {
    let theirs = Scalar::from_u64(5_000_000).public_point();
    let seed = Scalar::from_u64(17);
    let mut walker = PointWalker::with_base(seed, &theirs);
    let batch = walker.next_batch(20);
    for (n, point) in batch.iter().enumerate() {
        let want = Scalar::from_u64(5_000_017 + n as u64).public_point();
        assert_eq!(point.compress(), want.compress());
        let sum = theirs.add(&seed.add_u64(n as u64).public_point());
        assert_eq!(point.compress(), sum.compress());
    }
    let zero = PointWalker::with_base(Scalar::from_u64(0), &CurvePoint::base_point()).advance();
    assert_eq!(zero.compress(), CurvePoint::base_point().compress());
}
