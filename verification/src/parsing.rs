//! The textual pattern grammar and its parser.
//!
//! A pattern is a whitespace-separated sequence of tokens. A token is either
//! a byte (exactly two hexadecimal digits) or a wildcard (one or two `?`
//! characters). Parsing yields one `Option<u8>` per token: `Some(byte)` for a
//! byte token, `None` for a wildcard.
//!
//! The grammar is defined once, as the spec function [`spec_parse`], and the
//! executable parser is proved to return exactly what it says, including the
//! reason and character span of every error.

use vstd::prelude::*;

use crate::error::Error;
use crate::error::Reason;
use crate::error::SimpleError;
use vstd::string::StrSliceExecFns;

verus! {

/// Whether `c` has the Unicode `White_Space` property, the separator class
/// the grammar accepts between tokens.
pub open spec fn is_ws_char(c: char) -> bool {
    let u = c as u32;
    ||| u == 0x20
    ||| (0x09 <= u && u <= 0x0D)
    ||| u == 0x85
    ||| u == 0xA0
    ||| u == 0x1680
    ||| (0x2000 <= u && u <= 0x200A)
    ||| u == 0x2028
    ||| u == 0x2029
    ||| u == 0x202F
    ||| u == 0x205F
    ||| u == 0x3000
}

/// Whether `c` is an ASCII hexadecimal digit.
pub open spec fn is_hexdigit_char(c: char) -> bool {
    let u = c as u32;
    ||| (0x30 <= u && u <= 0x39)
    ||| (0x41 <= u && u <= 0x46)
    ||| (0x61 <= u && u <= 0x66)
}

/// The numeric value of a hexadecimal digit.
pub open spec fn hex_val_char(c: char) -> int {
    let u = c as u32;
    if 0x30 <= u && u <= 0x39 {
        u - 0x30
    } else if 0x41 <= u && u <= 0x46 {
        u - 0x41 + 10
    } else {
        u - 0x61 + 10
    }
}

/// The byte written as the two hexadecimal digits `c1 c2`.
pub open spec fn hex_byte(c1: char, c2: char) -> u8 {
    (hex_val_char(c1) * 16 + hex_val_char(c2)) as u8
}

/// A parse failure: the reason and the `[start, end)` character span of the
/// offending input.
pub struct ParseError {
    pub reason: Reason,
    pub start: int,
    pub end: int,
}

/// What parsing a pattern yields: the token sequence, or a failure.
pub enum ParseOutcome {
    Tokens(Seq<Option<u8>>),
    Bad(ParseError),
}

/// Parses `s` from position `i`, which may point at whitespace or at the
/// start of a token. Leading and trailing whitespace is allowed; tokens are
/// separated by at least one whitespace character.
pub open spec fn parse_at(s: Seq<char>, i: int) -> ParseOutcome
    decreases s.len() - i, 1int,
{
    if i < 0 || i >= s.len() {
        ParseOutcome::Tokens(Seq::empty())
    } else if is_ws_char(s[i]) {
        parse_at(s, i + 1)
    } else if s[i] == '?' {
        let j = if i + 1 < s.len() && s[i + 1] == '?' {
            i + 2
        } else {
            i + 1
        };
        token_then(s, j, None)
    } else if is_hexdigit_char(s[i]) {
        if i + 1 >= s.len() {
            ParseOutcome::Bad(
                ParseError { reason: Reason::Unexpected, start: s.len() as int, end: s.len() as int },
            )
        } else if !is_hexdigit_char(s[i + 1]) {
            ParseOutcome::Bad(
                ParseError { reason: Reason::InvalidHexdigit(s[i + 1]), start: i + 1, end: i + 2 },
            )
        } else {
            token_then(s, i + 2, Some(hex_byte(s[i], s[i + 1])))
        }
    } else {
        ParseOutcome::Bad(ParseError { reason: Reason::InvalidHexdigit(s[i]), start: i, end: i + 1 })
    }
}

/// Continues after a token that ends at `j` (exclusive) and parsed as `tok`:
/// the pattern must end here or continue with a whitespace separator.
pub open spec fn token_then(s: Seq<char>, j: int, tok: Option<u8>) -> ParseOutcome
    decreases s.len() - j, 0int,
{
    if j >= s.len() {
        ParseOutcome::Tokens(seq![tok])
    } else if is_ws_char(s[j]) {
        match parse_at(s, j + 1) {
            ParseOutcome::Tokens(rest) => ParseOutcome::Tokens(seq![tok] + rest),
            ParseOutcome::Bad(e) => ParseOutcome::Bad(e),
        }
    } else {
        ParseOutcome::Bad(ParseError { reason: Reason::Unexpected, start: j, end: j + 1 })
    }
}

/// What parsing the whole pattern `s` yields.
pub open spec fn spec_parse(s: Seq<char>) -> ParseOutcome {
    parse_at(s, 0)
}

/// A successful parse yields at most one token per two characters: each token
/// is at least one character long and tokens are separated by whitespace.
pub proof fn lemma_parse_at_len(s: Seq<char>, i: int)
    requires
        i <= s.len(),
    ensures
        parse_at(s, i) matches ParseOutcome::Tokens(t) ==> 2 * t.len() <= s.len() - i + 1,
    decreases s.len() - i, 1int,
{
    if i < 0 || i >= s.len() {
    } else if is_ws_char(s[i]) {
        lemma_parse_at_len(s, i + 1);
    } else if s[i] == '?' {
        let j = if i + 1 < s.len() && s[i + 1] == '?' {
            i + 2
        } else {
            i + 1
        };
        lemma_token_then_len(s, j, None);
    } else if is_hexdigit_char(s[i]) {
        if i + 1 < s.len() && is_hexdigit_char(s[i + 1]) {
            lemma_token_then_len(s, i + 2, Some(hex_byte(s[i], s[i + 1])));
        }
    } else {
    }
}

proof fn lemma_token_then_len(s: Seq<char>, j: int, tok: Option<u8>)
    requires
        1 <= j <= s.len(),
    ensures
        token_then(s, j, tok) matches ParseOutcome::Tokens(t) ==> 2 * t.len() <= s.len() - j + 2,
    decreases s.len() - j, 0int,
{
    if j >= s.len() {
    } else if is_ws_char(s[j]) {
        lemma_parse_at_len(s, j + 1);
    } else {
    }
}

/// What the parse of the rest of the input from `i` adds to the tokens
/// already collected in `acc`.
pub open spec fn continue_with(s: Seq<char>, i: int, acc: Seq<Option<u8>>) -> ParseOutcome {
    match parse_at(s, i) {
        ParseOutcome::Tokens(rest) => ParseOutcome::Tokens(acc + rest),
        ParseOutcome::Bad(e) => ParseOutcome::Bad(e),
    }
}

fn is_ws(c: char) -> (r: bool)
    ensures
        r == is_ws_char(c),
{
    let u = c as u32;
    u == 0x20 || (0x09 <= u && u <= 0x0D) || u == 0x85 || u == 0xA0 || u == 0x1680 || (0x2000 <= u
        && u <= 0x200A) || u == 0x2028 || u == 0x2029 || u == 0x202F || u == 0x205F || u == 0x3000
}

fn is_hexdigit(c: char) -> (r: bool)
    ensures
        r == is_hexdigit_char(c),
{
    let u = c as u32;
    (0x30 <= u && u <= 0x39) || (0x41 <= u && u <= 0x46) || (0x61 <= u && u <= 0x66)
}

fn hex_byte_exec(c1: char, c2: char) -> (r: u8)
    requires
        is_hexdigit_char(c1),
        is_hexdigit_char(c2),
    ensures
        r == hex_byte(c1, c2),
{
    let u1 = c1 as u32;
    let v1: u32 = if 0x30 <= u1 && u1 <= 0x39 {
        u1 - 0x30
    } else if 0x41 <= u1 && u1 <= 0x46 {
        u1 - 0x41 + 10
    } else {
        u1 - 0x61 + 10
    };
    let u2 = c2 as u32;
    let v2: u32 = if 0x30 <= u2 && u2 <= 0x39 {
        u2 - 0x30
    } else if 0x41 <= u2 && u2 <= 0x46 {
        u2 - 0x41 + 10
    } else {
        u2 - 0x61 + 10
    };
    (v1 * 16 + v2) as u8
}

/// Parses a textual pattern into one `Option<u8>` per token, `Some` for a
/// byte and `None` for a wildcard, exactly as [`spec_parse`] says.
pub fn parse_ida<'a>(pattern: &'a str) -> (r: Result<Vec<Option<u8>>, Error<'a>>)
    ensures
        match r {
            Ok(v) => spec_parse(pattern@) == ParseOutcome::Tokens(v@),
            Err(e) => {
                &&& e.spec_source() == pattern
                &&& spec_parse(pattern@) matches ParseOutcome::Bad(pe)
                &&& spec_parse(pattern@) == ParseOutcome::Bad(
                    ParseError {
                        reason: e.spec_reason(),
                        start: e.spec_span().0,
                        end: e.spec_span().1,
                    },
                )
            },
        },
{
    let ghost s = pattern@;
    let n = pattern.unicode_len();
    let mut i: usize = 0;
    let mut out: Vec<Option<u8>> = Vec::new();
    proof {
        assert(Seq::<Option<u8>>::empty() + Seq::<Option<u8>>::empty() =~= Seq::<
            Option<u8>,
        >::empty());
    }
    loop
        invariant
            n == s.len(),
            s == pattern@,
            i <= n,
            spec_parse(s) == continue_with(s, i as int, out@),
        decreases n - i,
    {
        if i >= n {
            proof {
                assert(out@ + Seq::<Option<u8>>::empty() =~= out@);
            }
            return Ok(out);
        }
        let c = pattern.get_char(i);
        if is_ws(c) {
            i = i + 1;
        } else {
            // A token starts at `i`: determine its end `j` (exclusive) and
            // its value, or fail as the grammar says.
            let tok: Option<u8>;
            let j: usize;
            if c == '?' {
                if i + 1 < n && pattern.get_char(i + 1) == '?' {
                    j = i + 2;
                } else {
                    j = i + 1;
                }
                tok = None;
            } else if is_hexdigit(c) {
                if i + 1 >= n {
                    return Err(
                        Error::join(
                            pattern,
                            SimpleError {
                                span_start: n,
                                span_end: n,
                                reason: Reason::Unexpected,
                            },
                        ),
                    );
                }
                let c2 = pattern.get_char(i + 1);
                if !is_hexdigit(c2) {
                    return Err(
                        Error::join(pattern, SimpleError::invalid_hexdigit(i + 1, i + 2, c2)),
                    );
                }
                j = i + 2;
                tok = Some(hex_byte_exec(c, c2));
            } else {
                return Err(Error::join(pattern, SimpleError::invalid_hexdigit(i, i + 1, c)));
            }
            proof {
                assert(parse_at(s, i as int) == token_then(s, j as int, tok));
            }
            let ghost old_out = out@;
            out.push(tok);
            proof {
                assert(out@ =~= old_out + seq![tok]);
            }
            if j >= n {
                proof {
                    assert(token_then(s, j as int, tok) == ParseOutcome::Tokens(seq![tok]));
                    assert(old_out + seq![tok] =~= out@ + Seq::<Option<u8>>::empty());
                    assert(out@ + Seq::<Option<u8>>::empty() =~= out@);
                }
                return Ok(out);
            }
            let d = pattern.get_char(j);
            if is_ws(d) {
                proof {
                    match parse_at(s, j + 1) {
                        ParseOutcome::Tokens(rest) => {
                            assert(old_out + (seq![tok] + rest) =~= out@ + rest);
                        },
                        ParseOutcome::Bad(_) => {},
                    }
                }
                i = j + 1;
            } else {
                return Err(
                    Error::join(
                        pattern,
                        SimpleError {
                            span_start: j,
                            span_end: j + 1,
                            reason: Reason::Unexpected,
                        },
                    ),
                );
            }
        }
    }
}


/// The character of one hexadecimal digit value, uppercase.
pub open spec fn hex_digit_char(v: int) -> char {
    if v == 0 {
        '0'
    } else if v == 1 {
        '1'
    } else if v == 2 {
        '2'
    } else if v == 3 {
        '3'
    } else if v == 4 {
        '4'
    } else if v == 5 {
        '5'
    } else if v == 6 {
        '6'
    } else if v == 7 {
        '7'
    } else if v == 8 {
        '8'
    } else if v == 9 {
        '9'
    } else if v == 10 {
        'A'
    } else if v == 11 {
        'B'
    } else if v == 12 {
        'C'
    } else if v == 13 {
        'D'
    } else if v == 14 {
        'E'
    } else {
        'F'
    }
}

/// The canonical text of one token: two uppercase hexadecimal digits for a
/// byte, one question mark for a wildcard.
pub open spec fn format_token(t: Option<u8>) -> Seq<char> {
    match t {
        Some(b) => seq![hex_digit_char(b as int / 16), hex_digit_char(b as int % 16)],
        None => seq!['?'],
    }
}

/// The canonical text of a pattern: its tokens joined by single spaces.
pub open spec fn format_pat(p: Seq<Option<u8>>) -> Seq<char>
    decreases p.len(),
{
    if p.len() == 0 {
        Seq::empty()
    } else if p.len() == 1 {
        format_token(p[0])
    } else {
        format_token(p[0]) + seq![' '] + format_pat(p.drop_first())
    }
}

/// A hexadecimal digit character is a hexdigit with the intended value, is
/// not whitespace, and is not a question mark.
proof fn lemma_hex_digit_props(v: int)
    requires
        0 <= v < 16,
    ensures
        is_hexdigit_char(hex_digit_char(v)),
        hex_val_char(hex_digit_char(v)) == v,
        !is_ws_char(hex_digit_char(v)),
        hex_digit_char(v) != '?',
{
}

/// Parsing resumes on the canonical text of `p`: if the rest of `s` from `i`
/// prints `p`, parsing from `i` yields exactly `p`.
proof fn lemma_parse_format(s: Seq<char>, i: int, p: Seq<Option<u8>>)
    requires
        0 <= i <= s.len(),
        s.subrange(i, s.len() as int) == format_pat(p),
    ensures
        parse_at(s, i) == ParseOutcome::Tokens(p),
    decreases p.len(),
{
    if p.len() == 0 {
        assert(s.subrange(i, s.len() as int).len() == 0);
        assert(p =~= Seq::<Option<u8>>::empty());
    } else {
        let rest = p.drop_first();
        match p[0] {
            None => {
                if p.len() == 1 {
                    assert(s.subrange(i, s.len() as int).len() == 1);
                    assert(s.subrange(i, s.len() as int)[0] == s[i]);
                    assert(format_pat(p)[0] == '?');
                    assert(parse_at(s, i) == token_then(s, i + 1, Option::<u8>::None));
                    assert(token_then(s, i + 1, Option::<u8>::None) == ParseOutcome::Tokens(
                        seq![Option::<u8>::None],
                    ));
                    assert(seq![Option::<u8>::None] =~= p);
                } else {
                    assert(format_pat(p) == seq!['?'] + seq![' '] + format_pat(rest));
                    assert((seq!['?'] + seq![' ']).len() == 2);
                    assert(s.subrange(i, s.len() as int).len() == 2 + format_pat(rest).len());
                    assert((seq!['?'] + seq![' '] + format_pat(rest))[0] == '?');
                    assert((seq!['?'] + seq![' '] + format_pat(rest))[1] == ' ');
                    assert(s.subrange(i, s.len() as int)[0] == s[i]);
                    assert(s.subrange(i, s.len() as int)[1] == s[i + 1]);
                    assert(s[i] == '?');
                    assert(s[i + 1] == ' ');
                    assert(!is_ws_char('?'));
                    assert(is_ws_char(' '));
                    assert(s[i + 1] != '?');
                    assert(parse_at(s, i) == token_then(s, i + 1, Option::<u8>::None));
                    assert(s.subrange(i + 2, s.len() as int) =~= format_pat(rest)) by {
                        assert forall|k: int|
                            0 <= k < format_pat(rest).len() implies s.subrange(
                            i + 2,
                            s.len() as int,
                        )[k] == format_pat(rest)[k] by {
                            assert((seq!['?'] + seq![' '] + format_pat(rest))[k + 2]
                                == format_pat(rest)[k]);
                            assert(s.subrange(i, s.len() as int)[k + 2] == s[i + k + 2]);
                            assert(s.subrange(i + 2, s.len() as int)[k] == s[i + 2 + k]);
                        }
                    }
                    lemma_parse_format(s, i + 2, rest);
                    assert(seq![Option::<u8>::None] + rest =~= p);
                }
            },
            Some(b) => {
                let hi = b as int / 16;
                let lo = b as int % 16;
                lemma_hex_digit_props(hi);
                lemma_hex_digit_props(lo);
                assert(format_token(p[0]) == seq![hex_digit_char(hi), hex_digit_char(lo)]);
                if p.len() == 1 {
                    assert(s.subrange(i, s.len() as int).len() == 2);
                    assert(s.subrange(i, s.len() as int)[0] == s[i]);
                    assert(s.subrange(i, s.len() as int)[1] == s[i + 1]);
                    assert(format_pat(p)[0] == hex_digit_char(hi));
                    assert(format_pat(p)[1] == hex_digit_char(lo));
                    assert(s[i] == hex_digit_char(hi));
                    assert(s[i + 1] == hex_digit_char(lo));
                    assert(hex_byte(s[i], s[i + 1]) == b) by {
                        assert(hex_val_char(s[i]) == hi);
                        assert(hex_val_char(s[i + 1]) == lo);
                        assert(hi * 16 + lo == b);
                    }
                    assert(parse_at(s, i) == token_then(s, i + 2, Some(b)));
                    assert(seq![Option::<u8>::Some(b)] =~= p);
                } else {
                    assert(format_pat(p) == seq![hex_digit_char(hi), hex_digit_char(lo)]
                        + seq![' '] + format_pat(rest));
                    assert((seq![hex_digit_char(hi), hex_digit_char(lo)] + seq![' ']).len() == 3);
                    assert(s.subrange(i, s.len() as int).len() == 3 + format_pat(rest).len());
                    assert((seq![hex_digit_char(hi), hex_digit_char(lo)] + seq![' ']
                        + format_pat(rest))[0] == hex_digit_char(hi));
                    assert((seq![hex_digit_char(hi), hex_digit_char(lo)] + seq![' ']
                        + format_pat(rest))[1] == hex_digit_char(lo));
                    assert((seq![hex_digit_char(hi), hex_digit_char(lo)] + seq![' ']
                        + format_pat(rest))[2] == ' ');
                    assert(s.subrange(i, s.len() as int)[0] == s[i]);
                    assert(s.subrange(i, s.len() as int)[1] == s[i + 1]);
                    assert(s.subrange(i, s.len() as int)[2] == s[i + 2]);
                    assert(s[i] == hex_digit_char(hi));
                    assert(s[i + 1] == hex_digit_char(lo));
                    assert(s[i + 2] == ' ');
                    assert(is_ws_char(' '));
                    assert(hex_byte(s[i], s[i + 1]) == b) by {
                        assert(hex_val_char(s[i]) == hi);
                        assert(hex_val_char(s[i + 1]) == lo);
                        assert(hi * 16 + lo == b);
                    }
                    assert(parse_at(s, i) == token_then(s, i + 2, Some(b)));
                    assert(s.subrange(i + 3, s.len() as int) =~= format_pat(rest)) by {
                        assert forall|k: int|
                            0 <= k < format_pat(rest).len() implies s.subrange(
                            i + 3,
                            s.len() as int,
                        )[k] == format_pat(rest)[k] by {
                            assert((seq![hex_digit_char(hi), hex_digit_char(lo)] + seq![' ']
                                + format_pat(rest))[k + 3] == format_pat(rest)[k]);
                            assert(s.subrange(i, s.len() as int)[k + 3] == s[i + k + 3]);
                            assert(s.subrange(i + 3, s.len() as int)[k] == s[i + 3 + k]);
                        }
                    }
                    lemma_parse_format(s, i + 3, rest);
                    assert(seq![Option::<u8>::Some(b)] + rest =~= p);
                }
            },
        }
    }
}

/// Round trip: printing a pattern canonically — `"HH"` per byte, `"?"` per
/// wildcard, single spaces between tokens — and parsing the text back yields
/// the same token sequence.
pub proof fn lemma_parse_format_round_trip(p: Seq<Option<u8>>)
    ensures
        spec_parse(format_pat(p)) == ParseOutcome::Tokens(p),
{
    let s = format_pat(p);
    assert(s.subrange(0, s.len() as int) =~= s);
    lemma_parse_format(s, 0, p);
}

} // verus!
