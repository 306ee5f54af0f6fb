//! A byte-pattern search library: needles made of literal bytes and
//! single-byte wildcards are located inside byte haystacks.
//!
//! A needle is built either at run time ([`DynamicNeedle`]) or from
//! precomputed components ([`StaticNeedle`]); both expose the search API
//! through the [`Needle`] trait. Searching runs in two stages: a cheap
//! prefilter proposes candidate offsets, and a masked-equality verifier
//! confirms them.

use vstd::prelude::*;

mod error;
mod needle;
mod parsing;
mod pattern;
mod prefilter;

pub use error::Error;
pub use error::Reason;
pub use needle::raw_consistent;
pub use needle::DynamicNeedle;
pub use needle::Find;
pub use needle::Match;
pub use needle::Needle;
pub use needle::StaticNeedle;
pub use parsing::continue_with;
pub use parsing::format_pat;
pub use parsing::format_token;
pub use parsing::hex_byte;
pub use parsing::hex_digit_char;
pub use parsing::hex_val_char;
pub use parsing::is_hexdigit_char;
pub use parsing::is_ws_char;
pub use parsing::lemma_parse_at_len;
pub use parsing::lemma_parse_format_round_trip;
pub use parsing::parse_at;
pub use parsing::parse_ida;
pub use parsing::spec_parse;
pub use parsing::token_then;
pub use parsing::ParseError;
pub use parsing::ParseOutcome;
pub use pattern::byte_matches;
pub use pattern::is_match;
pub use pattern::lemma_masked_eq_window;
pub use pattern::lemma_same_components_same_matches;
pub use pattern::lemma_short_haystack;
pub use pattern::lemma_wildcard_only_matches;
pub use pattern::masked_eq;
pub use pattern::pat_of;
pub use pattern::spec_buffer_len;
pub use pattern::DynamicPattern;
pub use pattern::Method;
pub use pattern::PatternRef;
pub use prefilter::first_literal_from;
pub use prefilter::last_distinct_upto;
pub use prefilter::lemma_match_keeps_literals;
pub use prefilter::max2;
pub use prefilter::pair_at;
pub use prefilter::spec_raw_choice;
pub use prefilter::RawPrefilter;

verus! {

/// Marker restricting [`Needle`] implementations to the types of this crate.
pub trait Sealed {
}

} // verus!
