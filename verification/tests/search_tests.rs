//! End-to-end searches with every comparison method. Each pattern runs over
//! a deterministic synthetic haystack with the pattern planted at known
//! offsets, and the engine's matches are compared against a naive scan of
//! every window.

use aob::DynamicNeedle;
use aob::Method;
use aob::Needle;

/// A deterministic pseudo-random byte string.
fn synth(len: usize, mut seed: u64) -> Vec<u8> {
    let mut out = Vec::with_capacity(len);
    for _ in 0..len {
        seed = seed.wrapping_mul(6364136223846793005).wrapping_add(1442695040888963407);
        out.push((seed >> 33) as u8);
    }
    out
}

/// Every match start of `pat` in `hay`, by checking every window.
fn naive_starts(pat: &[Option<u8>], hay: &[u8]) -> Vec<usize> {
    let mut v = Vec::new();
    if pat.is_empty() || hay.len() < pat.len() {
        return v;
    }
    for s in 0..=hay.len() - pat.len() {
        if (0..pat.len()).all(|i| match pat[i] {
            Some(b) => hay[s + i] == b,
            None => true,
        }) {
            v.push(s);
        }
    }
    v
}

/// All match starts the engine reports, ascending.
fn engine_starts(needle: &DynamicNeedle, hay: &[u8], method: Method, pattern: &str) -> Vec<usize> {
    let mut it = needle.find_iter(hay);
    assert_eq!(it.search_method(), method, "{pattern}");
    let mut v = Vec::new();
    while let Some(m) = it.next() {
        assert_eq!(m.end(), m.start() + needle.len(), "{pattern}");
        v.push(m.start());
    }
    v
}

/// Parses `pattern`, plants it in a synthetic haystack, and compares the
/// engine's matches against the naive scan.
fn check_pattern(pattern: &str, method: Method, hay_len: usize) {
    let tokens = aob::parse_ida(pattern).unwrap();
    let needle = DynamicNeedle::from_ida(pattern).unwrap();
    assert_eq!(needle.len(), tokens.len(), "{pattern}");
    let mut hay = synth(hay_len, 0x9E3779B97F4A7C15 ^ pattern.len() as u64);
    for &at in &[3usize, hay_len / 3, hay_len / 3 + 1, hay_len - tokens.len().max(1)] {
        if at + tokens.len() <= hay.len() {
            for (i, t) in tokens.iter().enumerate() {
                if let Some(b) = t {
                    hay[at + i] = *b;
                }
            }
        }
    }
    let expected = naive_starts(&tokens, &hay);
    assert!(!expected.is_empty(), "{pattern}");
    assert_eq!(engine_starts(&needle, &hay, method, pattern), expected, "{pattern}");
}


#[test]
fn lib_test_avx2() {
    let patterns = [
        "67 20 74 68 ? ? 6D 69 64 64 6C 65 ? 66 ? 67 75 72 65 20 69 6E ? ? 74 68 65 20 70 69 63 ? 75 ? 65 20 6F 66 20 74 68 72 65 65 20 77 68 61 6C",
        "? 73 70 65 6E ? ? 69 6E 20 64 65 6C 69 62 65 72 ? 74 ? 6E 67 20 77 68 61 74 20 74 6F ? 73",
        "65 ? 20 61 73 20 63 ? 61 6D 6F 69 ? 20 68 75 6E 74 65 72 73 20 ? 6C ? ? 62 ? 74 68 65 20 ? ? 70 73 2E 20 46 6F 72 20 ? 65 61 72 73 0D 0A 68 65 ? 6B ? 6F 77",
        "61 73 ? 20 69 ? 20 77 69 74 68 6F 75 74 20 69 6D ? 65 ? 69 61 74 65 20 64 65 ? ? 68 2E ? 42 75 74 20 74 68 65 20 74 ? ? 74 68 ? 6F 66 ? 74 68 65 ? ? 61 74 74 65 ?",
        "61 72 20 67 ? 6E 65 20 ? 6D 20 ? ? 69 6E 20 74 68 ? 20 64 61 72 ? 20 73 69 64 65 ? ? ? 20 65 ? 72 74",
        "? 77 68 61 6C ? 0D 0A 73 6F ? 65 74 68 69 6E 67 20 6C 65 73 73 20 74 ? 61 6E 20 32 30 30 30 20 73 71 75 61 72 ? ? 66 65 65 74 E2 80 94 74 68 ?",
        "64 69 64 ? 65 73 73 2E 20 47 72 61 ? 74 ? 6E 67 20 74 68 61 74 20 74 ? 65 ? 57 68 69 ? 65 20",
        "? E2 ? ? 72 65 6D 6F 76 69 6E ? 20 68 69 73 20 68 ? ? ? 20 ? 6E 64 0D ? 62 72 75 73 68 69 6E 67 20 61 73 69 ? 65 20 68 ? 73 20 68 61 69 72 2C 20 61 6E ? 20 65 78 70",
        "72 20 69 6E 74 6F 20 ? 68 65 0D 0A 77 68 69 74 65 20 63 75 72 64 6C 69 ? ? 20 63 72 65 61 ? ? ? 66 20 74 ? 65 20 73 71 ? 61 6C 6C ? ? ? 71",
        "? 6E 67 2E 0D 0A 0D 0A ? ? ? 65 20 6D 61 69 6E ? 74 6F 70 2D ? 61 69 ? ? 79 61 72 64 5F 2E E2 80 94 5F ? 61 73 68 74 ? 67 6F 20 70 61 ? 73 69 6E 67 20 6E 65 ? 20 6C 61 73 68 69",
        "74 6F ? ? 61 72 70 6F 6F 6E 20 ? 69 74 68 20 63 69 76 69 6C 69 7A 65 64 20 73 74 65 ? 6C 20 74 68 ? 20 67 ? 65 61 74 20 53 ? 65 72 6D 0D ? 57",
        "2D 72 69 62 62 6F 6E 65 64 ? 68 61 74 20 62 65 74 ? 6B 65 ? 20 68 69 73 0D 0A ? ? ? 6E 64 20 66 ? 61 74 75 72 65 73 2E",
        "73 20 64 69 61 ? 6F 6C 69 63 ? 6C 20 69 6E ? 6F 68 65 72 65 6E 63 65 73 ? ? 6E 69 ? 76 ? 74 65 64 6C 79 0D 0A 72 65 63 75 ? 72 69 ? 67 20 74 6F 20 ? 65 2C 20 77 69 74 68",
        "68 ? 20 74 61 ? 62 6F 75 72 69 6E 65 20 75 70 20 ? 68 65 ? 0A 73 63 75 ? ? 6C ? 5F 2E 29",
        "21 20 4F ? 21 ? 77 ? 65 6E 20 79 65 20 67 ? 74 20 74 ? ? 72 ? 2C 20 74 ? 6C ? 20 E2 80 99 65 6D ? 49 E2 80 99 76 ? 20 63 6F 6E ? 6C ? ? ? 64 20 6E 6F 74 20 74 6F 20 6D",
        "72 69 ? 67 73 20 68 65 61 76 65 6E 6C 79 20 76 6F 75 63 68 65 72 73 0D 0A ? 66 ? 61 6C 6C 20 6F 75 72 20 68 65 61 76 65 6E 6C 79 20 68 6F 6D 65 73 2E 20 57 68 ?",
        "64 67 65 20 6F 66 20 74 68 65 ? ? ? 72 65 ? 75 6C 20 7A ? 6E 65 ? 20 77 68 6F 73 65 20 63 65 6E ? 72 65 20 68 61 64 ? 0A 6E",
        "63 ? ? ? 6E 74 6F 20 74 68 65 20 62 6F 77 73 20 6F 66 20 6F 6E 65 20 6F 66 20 ? 68 65 20 77 ? 61 6C 65 2D 62 6F 61 74 ? 0D ? 68 61 6E 67 69 6E 67 20 74 6F",
        "6C 79 ? ? 74 72 65 6D ? 6C 69 6E 67 20 ? 76 65 ? 20 74 68 65 ? 73 69 64 65 3B ? 74 68 65 20 73 74 ? 77 61 72 ? 20 ? 64 ? 61 ? 63 ? 73 2C 20 61 6E ? 20 77 69 ? 68 20 61 20",
        "? 74 ? 61 6E 64 ? 63 6F ? 72 ? 67 65 6F 75 ? 0D ? 65 6E 6F ? 67 68 20 ? ? 20 6F 66 ? 65 ? 69 6E 67 20 62 ?",
    ];
    for pattern in patterns {
        check_pattern(pattern, Method::Avx2, 9173);
    }
}

#[test]
fn lib_test_sse2() {
    let patterns = [
        "? ? 6C 65 65 70 2C 20 ? 20 ? 61 73 0D 0A 68 6F ? 72 69 62 6C",
        "73 3B ? ? ? ? 74 20 6F 75 72 20 77 69 6C 64 20 77 ? 61 6C ? ? ? ? 73 68 65",
        "65 61 6B 61 62 6C 65 20 74 65 72 72 ? 72 ? 20 6F ? 20 74 68 ? ? 77 ? ? 6C 65 2C 20 77",
        "20 6D 61 6E 79 ? 6F 66 20 69 ? 73 20 72 69 6D ? 65 ? 20 ? 61 72",
        "68 61 ? 74 73 ? ? 69 74 68 6F 75 74 20 6B 6E 6F 77 69 6E 67 20 74 ? 65 6D 0D 0A 74 6F 20",
        "73 68 65 64 20 75 70 6F ? ? 0A ? 65 ? ? 69 6D 6F ? 79 20 65 6E 74 69 72 65 6C 79 20 69",
        "48 ? 50 54 45 52 20 32 33 ? 20 54 ? ? 20 4C 65 65 20 53 68 6F 72 65 2E 0D",
        "74 20 61 20 ? 69 74 ? 6C ? ? 6F 66 20 74 68 ? 73 20",
        "65 ? ? 20 74 68 65 ? 50 65 71 75 6F 64 2C 20 61 6E 64 20 ? ? 72 65 20 73 ? ?",
        "20 6C 6F 6E ? ? 68 61 6E 67 69 6E 67 20 61 ? 6C 20 72",
        "? 64 20 ? 68 65 72 65 E2 80 99 73 20 61 20 6D ?",
        "65 ? 73 65 ? ? 65 64 ? ? 6F 20 68 61 76 65 20 ? 72 65",
        "61 6E 64 73 20 68 69 ? ? 80 94 ? 68 61 74 3F ? 53 6F 6D 65 20 ?",
        "80 99 ? 20 ? 6F 75 6E 64 ? 68 ? 75 ? 65 20 61 ? 61 66 74 3B 20 61 6E 64 20 ? 6F",
        "? 65 72 20 70 69 ? 6F 74 65 ? 20 61 6E ? 20 6F 74 68 65 72 ? 63 72 61 66 ? E2",
        "73 20 73 61 69 ? 20 ? 6F 20 62 ? 20 61 20 6C 61 6B 65 20 ? ? 20 77 68 ? ? ? 20 74",
        "0A 62 ? 61 63 6B 20 68 ? ? ? 6B 65 72 63 68 69 ? 66 20",
        "74 77 ? ? 6C 61 72 67 65 2C 20 ? 6F 61 64 65",
        "72 65 73 2D 6C 69 6B ? 0D ? ? 70 ? 6C 69 65 73 ? 74 6F ? 68 69",
        "? ? ? 74 68 65 20 64 65 63 6B 2E 0D 0A 0D 0A ? 80 9C ? 68",
    ];
    for pattern in patterns {
        check_pattern(pattern, Method::Sse2, 9173);
    }
}

#[test]
fn lib_test_swar64() {
    let patterns = [
        "65 73 ? 20 ? 76 65 6E",
        "69 74 68 20 74 6F ? 6E 61 64 6F",
        "? 69 6E 74 6F 20 69 74 2C 20 61",
        "20 74 68 65 20 ? 6E 74 65 ? 6C 69 6E ? 65",
        "68 6F ? 74 20 61 6C 74 ?",
        "72 20 74 ? 65 20 57 61 74 65 72 2D 62",
        "? 61 76 ? 20 65 79 65 73 20 61",
        "6C 69 ? 74 6C 65 ? 66 ? 61 6B",
        "E2 ? 9C 49 20 ? 69 6C 6C ? 6A 75",
        "73 0D 0A ? 65 20 70 69 6E",
        "67 65 20 74 ? ? 6F 75 ? 68 20 ?",
        "69 ? ? 65 6E 64 ? ? 20 61 73 20 ?",
        "2C 20 74 68 65 20 63 ? 72 70 ? 6E",
        "79 ? 75 72 20 61 6E 73 77 ? 72 3F E2 80 9D",
        "68 6F 75 ? 65 0D 0A 61",
        "? 20 73 68 65 ? ? 72 65 77 ? 6E 69",
        "6F 20 ? 6E 20 77 69 74",
        "68 65 20 73 ? 6F 61 6C 20 77 68 69",
        "77 ? 79 73 20 ? 61 ? 20 73 75 72 70",
        "57 68 69 74 65 ? 57 68 61",
    ];
    for pattern in patterns {
        check_pattern(pattern, Method::Swar64, 9173);
    }
}

#[test]
fn lib_test_swar32() {
    let patterns = [
        "72 65 2E E2 80 9D",
        "64 20 74 ?",
        "? 9D 0D 0A 0D 0A 20",
        "? 74 68 20 6D",
        "68 65 ? 66 72 6F 6D",
        "80 9C ? 80 ?",
        "6E 61 6D 65 20",
        "? 20 ? ? 69",
        "20 61 ? 64 ? 6F 6D",
        "20 48 6F 72 72 6F 72",
        "0A 20 ? 54 69 6C",
        "67 68 74 6C 79 20 73",
        "65 6E 2C 20 74 68 ?",
        "6C 79 2C 20 67 61",
        "20 69 66 2C",
        "E2 80 9C 4E ? 76",
        "65 20 66 6C 6F 77 6E",
        "? 20 20 20 ? 20 20",
        "20 ? ? 66 6F",
        "72 ? ? 73",
        "61 72 74 ?",
        "80 9C 4C 65 6E 6F",
        "20 69 66 20 69 74",
        "? 20 73 61 ?",
        "66 ? 20 77 69",
        "65 6D 70 65 73 74",
        "20 ? 20 51 75 6F 74",
        "? 61 74 65 ? 76 69",
        "2C ? 0A 20 20 4F",
        "0A 20 20 E2 80 9C",
        "6E ? 20 ? ?",
        "70 61 72 74 ?",
        "6F 72 65 73 20",
    ];
    for pattern in patterns {
        check_pattern(pattern, Method::Swar32, 7478);
    }
}

#[test]
fn lib_test_scalar() {
    let patterns = [
        "?",
        "20",
        "20",
        "20 20",
        "3B ? 0A",
        "20 64",
        "61 6E 69",
        "6D 65 20",
        "20",
        "?",
        "45 61",
        "63 68 61",
        "4C",
        "20 20 54",
        "20 63",
        "6E 67",
        "20 20 20",
        "61 73",
        "68 6F",
        "65 72 20",
        "20 20 20",
        "? 64",
        "75 6E 64",
        "74 68 65",
        "6E 74 61",
        "6D 6F",
        "65 72",
        "62",
        "0A",
        "? 80",
        "? 70",
    ];
    for pattern in patterns {
        check_pattern(pattern, Method::Scalar, 7478);
    }
}
