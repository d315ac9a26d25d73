use adml::identifier::{IdentifierGenerator, log2_32};

/// floor(log2(n)) computed independently.
fn naive_log2(mut n: u32) -> u32 {
    let mut r = 0;
    while n >= 2 {
        n /= 2;
        r += 1;
    }
    r
}

#[test]
fn first_identifiers_have_expected_texts() {
    let mut g = IdentifierGenerator::new();
    // counter 1 = 1b, 2 = 10b, 3 = 11b, 4 = 100b, 5 = 101b, 6 = 110b, 7 = 111b,
    // encoded least-significant bit first, 1 -> 'l', 0 -> 'I'.
    let expected = ["l", "Il", "ll", "IIl", "lIl", "Ill", "lll", "IIIl"];
    for e in expected.iter() {
        assert_eq!(g.generate().id, *e);
    }
}

#[test]
fn identifiers_are_distinct_with_logarithmic_lengths() {
    let mut g = IdentifierGenerator::new();
    let mut seen: Vec<String> = Vec::new();
    for n in 1u32..=128 {
        let id = g.generate().id;
        assert_eq!(id.len() as u32, naive_log2(n) + 1);
        assert!(!seen.contains(&id));
        seen.push(id);
    }
}

#[test]
fn identifier_sequence_is_deterministic() {
    let mut a = IdentifierGenerator::new();
    let mut b = IdentifierGenerator::new();
    for _ in 0..100 {
        assert_eq!(a.generate().id, b.generate().id);
    }
}

#[test]
fn log2_32_matches_naive_bit_length() {
    assert_eq!(log2_32(1), 0);
    assert_eq!(log2_32(2), 1);
    assert_eq!(log2_32(3), 1);
    assert_eq!(log2_32(4), 2);
    assert_eq!(log2_32(31), 4);
    assert_eq!(log2_32(32), 5);
    assert_eq!(log2_32(u32::MAX), 31);
    for v in 1u32..2000 {
        assert_eq!(log2_32(v), naive_log2(v));
    }
}
