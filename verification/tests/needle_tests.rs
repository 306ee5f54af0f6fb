//! Needle construction, the match iterator's observable behaviour, errors,
//! and the equivalence of run-time and embedded needles.

use aob::DynamicNeedle;
use aob::Needle;
use aob::Reason;
use aob::StaticNeedle;

/// All match starts, ascending.
fn starts<N: Needle>(needle: &N, hay: &[u8]) -> Vec<usize> {
    let mut it = needle.find_iter(hay);
    let mut v = Vec::new();
    while let Some(m) = it.next() {
        v.push(m.start());
    }
    v
}

/// An embedded needle with the components computed from a run-time needle,
/// for fixed needle and buffer lengths.
fn to_static<const N: usize, const B: usize>(needle: &DynamicNeedle) -> StaticNeedle<N, B> {
    assert_eq!(needle.len(), N);
    let word: [u8; B] = needle.serialize_word().try_into().unwrap();
    let mask: [u8; B] = needle.serialize_mask().try_into().unwrap();
    StaticNeedle::new(needle.serialize_prefilter(), word, mask)
}

#[test]
fn test_from_ida() {
    assert!(DynamicNeedle::from_ida("4_ 42 41 43 41 42 41 42 43").is_err());
    assert!(DynamicNeedle::from_ida("11 ??? 22").is_err());

    let cases: [(&str, usize); 6] = [
        ("41 42 41 43 41 42 41 42 43", 9),
        ("41 42 41 43 41 42 41 42 41", 9),
        (
            "50 41 52 54 49 43 49 50 41 54 45 20 49 4E 20 50 41 52 41 43 48 55 54 45",
            24,
        ),
        ("11 ? ? 22 ? 33 44 ?", 8),
        ("aA Bb 1d", 3),
        ("11 ? 33 ?? 55 ? ?? 88", 8),
    ];
    for (pattern, length) in cases {
        let needle = DynamicNeedle::from_ida(pattern);
        assert!(needle.is_ok(), "\"{}\"", pattern);
        let needle = needle.unwrap();
        assert_eq!(needle.len(), length, "\"{}\"", pattern);
    }
}

#[test]
fn test_aob() {
    // Needles embedded from precomputed components behave like the run-time
    // needles they were computed from.
    let haystack = [0x11u8, 0x00, 0x22, 0x11, 0x41, 0x22];

    let dynamic = DynamicNeedle::from_ida("11 ? 22").unwrap();
    let embedded: StaticNeedle<3, 32> = to_static(&dynamic);
    assert_eq!(starts(&dynamic, &haystack), vec![0, 3]);
    assert_eq!(starts(&embedded, &haystack), vec![0, 3]);
    assert_eq!(embedded.len(), 3);

    let dynamic = DynamicNeedle::from_ida("11").unwrap();
    let embedded: StaticNeedle<1, 32> = to_static(&dynamic);
    assert_eq!(starts(&dynamic, &haystack), vec![0, 3]);
    assert_eq!(starts(&embedded, &haystack), vec![0, 3]);

    let dynamic = DynamicNeedle::from_ida("?").unwrap();
    let embedded: StaticNeedle<1, 32> = to_static(&dynamic);
    assert_eq!(starts(&dynamic, &haystack), vec![0, 1, 2, 3, 4, 5]);
    assert_eq!(starts(&embedded, &haystack), vec![0, 1, 2, 3, 4, 5]);
}

#[test]
fn scenario_single_wildcard_gap() {
    let needle = DynamicNeedle::from_ida("78 ? BC").unwrap();
    let haystack = [0x12, 0x34, 0x56, 0x78, 0x9A, 0xBC, 0xDE];
    let matched = needle.find(&haystack).unwrap();
    assert_eq!(matched.start(), 3);
    assert_eq!(matched.end(), 6);
    assert_eq!(matched.range(), 3..6);
    assert_eq!(matched.as_bytes(), &[0x78, 0x9A, 0xBC]);
    assert_eq!(starts(&needle, &haystack), vec![3]);
}

#[test]
fn scenario_overlapping_matches() {
    let needle = DynamicNeedle::from_ida("12 23 ? 12").unwrap();
    let haystack = [0x32, 0x21, 0x12, 0x23, 0xAB, 0x12, 0x23, 0xCD, 0x12];
    assert_eq!(starts(&needle, &haystack), vec![2, 5]);

    let needle = DynamicNeedle::from_ida("11 ? 11").unwrap();
    let haystack = [0x11, 0x22, 0x11, 0x22, 0x11];
    assert_eq!(starts(&needle, &haystack), vec![0, 2]);
}

#[test]
fn scenario_wildcard_only() {
    let needle = DynamicNeedle::from_ida("?").unwrap();
    let mut haystack = Vec::new();
    let mut seed: u64 = 41;
    for _ in 0..7478 {
        seed = seed.wrapping_mul(6364136223846793005).wrapping_add(1442695040888963407);
        haystack.push((seed >> 33) as u8);
    }
    let found = starts(&needle, &haystack);
    assert_eq!(found.len(), 7478);
    assert_eq!(found, (0..7478).collect::<Vec<usize>>());
}

#[test]
fn scenario_plain_text_needle() {
    let verse = "In there stepped a stately Raven of the saintly days of yore.\r\n\
                 Quoth the Raven \"Nevermore.\"\r\n\
                 And the Raven, never flitting, still is sitting, still is sitting\r\n";
    let tokens: Vec<Option<u8>> = b"Raven".iter().map(|&b| Some(b)).collect();
    let needle = DynamicNeedle::from_bytes(&tokens);
    let found = starts(&needle, verse.as_bytes());
    assert_eq!(found.len(), 3);
    for s in found {
        assert_eq!(&verse.as_bytes()[s..s + 5], b"Raven");
    }
}

#[test]
fn scenario_invalid_hexdigit() {
    let error = DynamicNeedle::from_ida("4_ 42 41 43").unwrap_err();
    assert_eq!(error.reason(), &Reason::InvalidHexdigit('_'));
    assert_eq!(error.span(), 1..2);
}

#[test]
fn scenario_triple_wildcard() {
    let error = DynamicNeedle::from_ida("11 ??? 22").unwrap_err();
    assert_eq!(error.reason(), &Reason::Unexpected);
    assert_eq!(error.span(), 5..6);
}

#[test]
fn scenario_word_and_mask() {
    let needle = DynamicNeedle::from_ida("11 ? ? 22 ? 33 44 ?").unwrap();
    assert_eq!(needle.len(), 8);
    let word = needle.serialize_word();
    let mask = needle.serialize_mask();
    assert_eq!(word.len(), 32);
    assert_eq!(mask.len(), 32);
    let wildcard_positions = [1usize, 2, 4, 7];
    for i in 0..8 {
        if wildcard_positions.contains(&i) {
            assert_eq!(mask[i], 0xFF);
            assert_eq!(word[i], 0x00);
        } else {
            assert_eq!(mask[i], 0x00);
        }
    }
    assert_eq!(&word[..8], &[0x11, 0, 0, 0x22, 0, 0x33, 0x44, 0]);
    for i in 8..32 {
        assert_eq!(word[i], 0x00);
        assert_eq!(mask[i], 0xFF);
    }
}

#[test]
fn error_span_mid_pattern() {
    let error = DynamicNeedle::from_ida("12 3_ 56").unwrap_err();
    assert_eq!(error.span(), 4..5);
    assert_eq!(error.reason(), &Reason::InvalidHexdigit('_'));
    assert_eq!(error.source(), "12 3_ 56");
}

#[test]
fn match_accessors() {
    let needle = DynamicNeedle::from_ida("63 ? 74").unwrap();
    let haystack = "a_cat_tries";
    let matched = needle.find(haystack.as_bytes()).unwrap();
    assert_eq!(matched.start(), 2);
    assert_eq!(matched.end(), 5);
    assert_eq!(matched.range(), 2..5);
    assert_eq!(matched.as_bytes(), &b"cat"[..]);
}

#[test]
fn from_bytes_matches() {
    let needle = DynamicNeedle::from_bytes(&[Some(0x78), None, Some(0xBC)]);
    let haystack = [0x12, 0x34, 0x56, 0x78, 0x9A, 0xBC, 0xDE];
    let matched = needle.find(&haystack).unwrap();
    assert_eq!(&haystack[matched.start()..], [0x78, 0x9A, 0xBC, 0xDE]);
    assert_eq!(needle.len(), 3);
}

#[test]
fn needle_len() {
    let needle = DynamicNeedle::from_ida("12 ? 56 ? 9A BC").unwrap();
    assert_eq!(needle.len(), 6);
}

#[test]
fn static_matches_dynamic() {
    // The embedded and the run-time needle of one pattern yield identical
    // match streams, across a haystack long enough for the vector prefilter
    // and one below its minimum.
    let pattern = "4F 6E 63 65 20 ? 70 6F 6E 20 61 20 6D 69 64 6E 69 67 68 74 20 64 72 65 61 72 79 2C 20 77 65 61 6B";
    let dynamic = DynamicNeedle::from_ida(pattern).unwrap();
    let embedded: StaticNeedle<33, 64> = to_static(&dynamic);
    let mut long = b"Once upon a midnight dreary, weak".repeat(5);
    long.extend_from_slice(b"Once Upon a midnight dreary, weak");
    let short = &long[..40];
    assert_eq!(starts(&dynamic, &long), starts(&embedded, &long));
    assert_eq!(starts(&dynamic, short), starts(&embedded, short));
    assert!(!starts(&dynamic, &long).is_empty());
}

#[test]
fn prefix_offset_skips_short_candidates() {
    // A prefix prefilter whose literal sits past the start must skip
    // occurrences of that byte too close to the haystack's beginning.
    let needle = DynamicNeedle::from_ida("? ? 70").unwrap();
    let haystack = [0x70, 0x70, 0x00, 0x70, 0x01, 0x02, 0x70];
    assert_eq!(starts(&needle, &haystack), vec![1, 4]);

    let needle = DynamicNeedle::from_bytes(&[None, Some(0x70)]);
    let haystack = [0x70, 0x01, 0x70];
    assert_eq!(starts(&needle, &haystack), vec![1]);
}

#[test]
fn empty_needle_matches_nothing() {
    let needle = DynamicNeedle::from_bytes(&[]);
    assert_eq!(needle.len(), 0);
    assert_eq!(starts(&needle, &[1, 2, 3]), Vec::<usize>::new());
    assert!(needle.find(&[1, 2, 3]).is_none());
    assert!(needle.find(&[]).is_none());
}

#[test]
fn haystack_shorter_than_needle() {
    let needle = DynamicNeedle::from_ida("11 22 33 44").unwrap();
    assert!(needle.find(&[0x11, 0x22, 0x33]).is_none());
    assert!(needle.find(&[]).is_none());
}

#[test]
fn tail_scan_below_vector_minimum() {
    // With a packed-pair prefilter and a haystack barely longer than the
    // needle, the search falls back to the linear tail scan and still finds
    // every match.
    let pattern = "41 42 ? 44 45 46 47 48 49 4A 4B 4C 4D 4E 4F 50 51 52 53 54 55 56 57 58 59 5A 61 62 63 64 65 66 67 68";
    let needle = DynamicNeedle::from_ida(pattern).unwrap();
    let mut haystack = b"ABCDEFGHIJKLMNOPQRSTUVWXYZabcdefgh".to_vec();
    haystack.insert(0, 0x5F);
    assert_eq!(starts(&needle, &haystack), vec![1]);
}
