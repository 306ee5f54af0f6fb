//! The textual pattern grammar at its boundary: accepted and rejected
//! inputs.

use aob::parse_ida;

#[test]
fn test_success() {
    assert_eq!(
        parse_ida("AA ? BB").unwrap(),
        [Some(0xAA), None, Some(0xBB)]
    );
    assert_eq!(
        parse_ida("AA ?? BB").unwrap(),
        [Some(0xAA), None, Some(0xBB)]
    );
    assert_eq!(
        parse_ida("AA    ? BB").unwrap(),
        [Some(0xAA), None, Some(0xBB)]
    );
    assert_eq!(
        parse_ida(" AA ? BB").unwrap(),
        [Some(0xAA), None, Some(0xBB)]
    );
    assert_eq!(
        parse_ida("AA ? BB ").unwrap(),
        [Some(0xAA), None, Some(0xBB)]
    );
}

#[test]
fn test_error() {
    assert!(parse_ida("A ? BB").is_err());
    assert!(parse_ida("AAA ? BB").is_err());
    assert!(parse_ida("AA ??? BB").is_err());
    assert!(parse_ida("Ax ? BB").is_err());
    assert!(parse_ida("\"AA ? BB\"").is_err());
}

#[test]
fn parse_empty_and_case() {
    assert_eq!(parse_ida("").unwrap(), []);
    assert_eq!(parse_ida("   ").unwrap(), []);
    assert_eq!(
        parse_ida("aA Bb 1d").unwrap(),
        [Some(0xAA), Some(0xBB), Some(0x1D)]
    );
}

#[test]
fn round_trip_canonical_text() {
    // Printing tokens canonically and parsing the text back yields the same
    // tokens.
    let cases: [&[Option<u8>]; 4] = [
        &[Some(0x11), None, Some(0x22)],
        &[None, None, Some(0xAB), None],
        &[Some(0x00), Some(0xFF), Some(0x0F)],
        &[None],
    ];
    for tokens in cases {
        let text = tokens
            .iter()
            .map(|t| match t {
                Some(b) => format!("{b:02X}"),
                None => "?".to_string(),
            })
            .collect::<Vec<_>>()
            .join(" ");
        assert_eq!(parse_ida(&text).unwrap(), tokens, "{text}");
    }
}
