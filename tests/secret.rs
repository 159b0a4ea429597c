use bls_codec::field::Fr;
use bls_codec::secret::clear_fr;
use bls_codec::convert::fr_from_bytes;

/// A small xorshift generator, seeded from the clock.
fn seed() -> u64 {
    let nanos = std::time::SystemTime::now()
        .duration_since(std::time::UNIX_EPOCH)
        .map(|d| d.as_nanos() as u64)
        .unwrap_or(0x9e37_79b9_7f4a_7c15);
    nanos | 1
}

fn next(state: &mut u64) -> u64 {
    let mut x = *state;
    x ^= x << 13;
    x ^= x >> 7;
    x ^= x << 17;
    *state = x;
    x
}

/// A field element made of pseudorandom bytes: the top two bits are cleared, so the
/// value lies below the field order; the last byte is made non-zero.
fn fr_random(state: &mut u64) -> Fr {
    let mut bytes = [0u8; 32];
    for chunk in bytes.chunks_mut(8) {
        chunk.copy_from_slice(&next(state).to_be_bytes());
    }
    bytes[0] &= 0x3f;
    bytes[31] |= 1;
    fr_from_bytes(bytes).unwrap()
}

#[test]
fn test_clear() {
    let mut rng = seed();

    let mut fr = fr_random(&mut rng);
    assert_ne!(fr, Fr::zero());

    clear_fr(&mut fr);
    assert_eq!(fr, Fr::zero());
}

#[test]
fn clear_twice_stays_zero() {
    let mut rng = seed();
    let mut fr = fr_random(&mut rng);
    clear_fr(&mut fr);
    clear_fr(&mut fr);
    assert_eq!(fr, Fr::zero());
    assert_eq!(fr.to_bytes_be(), [0u8; 32]);
}

#[test]
fn clear_leaves_other_elements_alone() {
    let mut bytes = [0u8; 32];
    bytes[31] = 7;
    let mut a = fr_from_bytes(bytes).unwrap();
    let b = fr_from_bytes(bytes).unwrap();
    clear_fr(&mut a);
    assert_eq!(a, Fr::zero());
    assert_eq!(b.to_bytes_be(), bytes);
}
