use modder::curseforge_wrapper::MurmurHash2;

#[test]
fn test_murmur_hash() {
    let file = "Hello world";
    let hash = MurmurHash2::hash(file.as_bytes());
    assert_eq!(hash, 1423925525);
}

#[test]
fn fingerprint_passes_over_whitespace() {
    let plain = MurmurHash2::hash(b"Helloworld");
    assert_eq!(MurmurHash2::hash(b"Hello world"), plain);
    assert_eq!(MurmurHash2::hash(b" H\te\rl\nlo world\n\n"), plain);
    assert_eq!(MurmurHash2::hash(b"\r\n\t Helloworld"), plain);
    assert_eq!(plain, 1423925525);
}

#[test]
fn fingerprint_of_nothing() {
    // seed 1, no word, no rest: only the last two steps run.
    let seed: u32 = 1;
    let h = (seed ^ (seed >> 13)).wrapping_mul(1540483477);
    let expected = h ^ (h >> 15);
    assert_eq!(MurmurHash2::hash(b""), expected);
    assert_eq!(MurmurHash2::hash(b" \t\r\n"), expected);
}

#[test]
fn fingerprint_of_one_full_word() {
    // "abcd": one word 0x64636261, four bytes counted.
    let k: u32 = 1540483477;
    let word: u32 = 0x64636261;
    let m = word.wrapping_mul(k);
    let mixed = (m ^ (m >> 24)).wrapping_mul(k);
    let seed = (4u32 ^ 1).wrapping_mul(k) ^ mixed;
    let h = (seed ^ (seed >> 13)).wrapping_mul(k);
    assert_eq!(MurmurHash2::hash(b"abcd"), h ^ (h >> 15));
    assert_eq!(MurmurHash2::mix(word), mixed);
}

#[test]
fn fingerprint_of_a_partial_word() {
    // "ab": no full word, the rest 0x6261 is folded in without mixing.
    let k: u32 = 1540483477;
    let seed = ((2u32 ^ 1) ^ 0x6261).wrapping_mul(k);
    let h = (seed ^ (seed >> 13)).wrapping_mul(k);
    assert_eq!(MurmurHash2::hash(b"ab"), h ^ (h >> 15));
    assert_eq!(MurmurHash2::hash(b"a b"), h ^ (h >> 15));
}

#[test]
fn normalise_counts_what_is_not_whitespace() {
    assert_eq!(MurmurHash2::normalise(b"Hello world"), 10);
    assert_eq!(MurmurHash2::normalise(b" \t\r\n"), 0);
    assert_eq!(MurmurHash2::normalise(b""), 0);
}
