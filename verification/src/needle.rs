//! Needles and the match iterator.
//!
//! A [`Needle`] holds a compiled pattern and a prefilter; [`Needle::find_iter`]
//! yields every [`Match`] in a haystack in strictly ascending start order,
//! overlaps included. [`DynamicNeedle`] owns its buffers and is built at run
//! time; [`StaticNeedle`] wraps precomputed components for embedding.

use vstd::prelude::*;

use crate::error::Error;
use crate::parsing;
use crate::parsing::ParseError;
use crate::parsing::ParseOutcome;
use crate::pattern::is_match;
use crate::pattern::lemma_masked_eq_window;
use crate::pattern::pat_of;
use crate::pattern::spec_buffer_len;
use crate::pattern::DynamicPattern;
use crate::pattern::Method;
use crate::pattern::PatternRef;
use crate::pattern::StaticPattern;
use crate::prefilter::lemma_clear_bound_covers;
use crate::prefilter::lemma_match_is_candidate;
use crate::prefilter::spec_raw_choice;
use crate::prefilter::CompiledPrefilter;
use crate::prefilter::PrefilterError;
use crate::prefilter::RawPrefilter;
use crate::Sealed;

verus! {

/// Represents a matching [`Needle`] found in the haystack.
#[derive(Clone, Copy, Debug)]
pub struct Match<'haystack> {
    start: usize,
    end: usize,
    haystack: &'haystack [u8],
}

impl<'haystack> Match<'haystack> {
    /// A match is a valid window of its haystack.
    #[verifier::type_invariant]
    pub closed spec fn inv(&self) -> bool {
        self.start <= self.end <= self.haystack@.len()
    }

    /// The position of the first byte of the match.
    pub closed spec fn spec_start(&self) -> int {
        self.start as int
    }

    /// The position one past the last byte of the match.
    pub closed spec fn spec_end(&self) -> int {
        self.end as int
    }

    /// The haystack the match was found in.
    pub closed spec fn spec_haystack(&self) -> Seq<u8> {
        self.haystack@
    }

    /// The position of the first byte in the matching needle, relative to
    /// the haystack.
    pub fn start(&self) -> (r: usize)
        ensures
            r == self.spec_start(),
    {
        self.start
    }

    /// The position of the last byte past the end of the matching needle,
    /// relative to the haystack.
    pub fn end(&self) -> (r: usize)
        ensures
            r == self.spec_end(),
    {
        self.end
    }

    /// The range of the matching needle, relative to the haystack.
    pub fn range(&self) -> (r: core::ops::Range<usize>)
        ensures
            r.start == self.spec_start(),
            r.end == self.spec_end(),
    {
        self.start..self.end
    }

    /// The actual matched bytes, from the haystack.
    pub fn as_bytes(&self) -> (r: &'haystack [u8])
        ensures
            r@ == self.spec_haystack().subrange(self.spec_start(), self.spec_end()),
    {
        proof {
            use_type_invariant(&*self);
        }
        vstd::slice::slice_subrange(self.haystack, self.start, self.end)
    }
}

/// Whether a raw prefilter descriptor is honest about a pattern: the
/// positions it keys on are literal positions of the pattern carrying the
/// bytes it names. The build-time emitter computes descriptors from the
/// pattern itself, which makes them consistent by construction.
pub open spec fn raw_consistent(raw: RawPrefilter, word: Seq<u8>, mask: Seq<u8>, len: int) -> bool {
    match raw {
        RawPrefilter::Length { len: l } => l == len,
        RawPrefilter::Prefix { prefix, prefix_offset } => {
            &&& 0 <= prefix_offset < len
            &&& mask[prefix_offset as int] == 0x00
            &&& word[prefix_offset as int] == prefix
        },
        RawPrefilter::PrefixPostfix { prefix, prefix_offset, postfix, postfix_offset } => {
            &&& 0 <= prefix_offset < len
            &&& 0 <= postfix_offset < len
            &&& prefix_offset != postfix_offset
            &&& mask[prefix_offset as int] == 0x00
            &&& mask[postfix_offset as int] == 0x00
            &&& word[prefix_offset as int] == prefix
            &&& word[postfix_offset as int] == postfix
        },
    }
}

/// The common interface for searching haystacks with needles.
///
/// A successful search yields a [`Match`] whose length equals the needle's
/// [length](Needle::len). Matches may overlap. An empty needle yields no
/// matches.
pub trait Needle: Sealed {
    /// The pattern as one optional byte per position: `None` at wildcards.
    spec fn spec_pat(&self) -> Seq<Option<u8>>;

    /// Whether the needle was built correctly; every constructor of this
    /// crate establishes it.
    spec fn wf(&self) -> bool;

    /// A convenience method for getting only the first match.
    fn find<'haystack>(&self, haystack: &'haystack [u8]) -> (r: Option<Match<'haystack>>)
        requires
            self.wf(),
        ensures
            match r {
                Some(m) => {
                    &&& m.spec_haystack() == haystack@
                    &&& is_match(self.spec_pat(), haystack@, m.spec_start())
                    &&& forall|s: int|
                        0 <= s < m.spec_start() ==> !is_match(self.spec_pat(), haystack@, s)
                    &&& m.spec_end() == m.spec_start() + self.spec_pat().len()
                },
                None => self.spec_pat().len() == 0 || forall|s: int|
                    !is_match(self.spec_pat(), haystack@, s),
            },
            self.spec_pat().len() == 0 ==> r is None,
    {
        let mut it = self.find_iter(haystack);
        let r = it.next();
        proof {
            if r is None && self.spec_pat().len() != 0 {
                assert forall|s: int| !is_match(self.spec_pat(), haystack@, s) by {}
            }
        }
        r
    }

    /// Finds all matching subsequences, iteratively.
    fn find_iter<'needle, 'haystack>(&'needle self, haystack: &'haystack [u8]) -> (r: Find<
        'needle,
        'haystack,
    >)
        requires
            self.wf(),
        ensures
            r.wf(),
            r.spec_pat() == self.spec_pat(),
            r.spec_haystack() == haystack@,
            r.spec_pos() == 0,
            r.spec_method() == Method::spec_from_size(self.spec_pat().len() as int),
    ;

    /// The length of the needle itself.
    fn len(&self) -> (n: usize)
        requires
            self.wf(),
        ensures
            n == self.spec_pat().len(),
    ;
}

/// The match iterator: pulls candidate offsets from the prefilter, verifies
/// each against the pattern, and yields matches in strictly ascending start
/// order, advancing one position past each match so overlaps are reported.
pub struct Find<'needle, 'haystack> {
    prefilter: CompiledPrefilter,
    pattern: PatternRef<'needle>,
    haystack: &'haystack [u8],
    last_offset: usize,
}

impl<'needle, 'haystack> Find<'needle, 'haystack> {
    /// The pattern searched for, as one optional byte per position.
    pub closed spec fn spec_pat(&self) -> Seq<Option<u8>> {
        self.pattern.spec_pat()
    }

    /// The haystack searched.
    pub closed spec fn spec_haystack(&self) -> Seq<u8> {
        self.haystack@
    }

    /// The search cursor: every match starting before it has been yielded.
    pub closed spec fn spec_pos(&self) -> int {
        self.last_offset as int
    }

    /// The comparison method the verifier runs with.
    pub closed spec fn spec_method(&self) -> Method {
        self.pattern.spec_method()
    }

    /// The iterator's invariant: a well-formed pattern view, a prefilter
    /// sound for it, and a cursor within the haystack.
    pub closed spec fn wf(&self) -> bool {
        &&& self.pattern.wf()
        &&& self.prefilter.sound_for(
            self.pattern.spec_word(),
            self.pattern.spec_mask(),
            self.pattern.spec_len(),
        )
        &&& self.last_offset <= self.haystack@.len()
    }

    /// The comparison method selected for this search, for diagnostic
    /// inspection.
    pub fn search_method(&self) -> (r: Method)
        ensures
            r == self.spec_method(),
    {
        self.pattern.method()
    }

    /// The next match at or past the cursor, if any: exactly the least start
    /// not below the cursor where the pattern matches. `None` means no match
    /// remains (or the needle is empty); the cursor then rests at the end.
    pub fn next(&mut self) -> (r: Option<Match<'haystack>>)
        requires
            old(self).wf(),
        ensures
            final(self).wf(),
            final(self).spec_pat() == old(self).spec_pat(),
            final(self).spec_haystack() == old(self).spec_haystack(),
            final(self).spec_method() == old(self).spec_method(),
            match r {
                Some(m) => {
                    &&& m.spec_haystack() == old(self).spec_haystack()
                    &&& old(self).spec_pos() <= m.spec_start()
                    &&& is_match(old(self).spec_pat(), old(self).spec_haystack(), m.spec_start())
                    &&& forall|s: int|
                        old(self).spec_pos() <= s < m.spec_start() ==> !is_match(
                            old(self).spec_pat(),
                            old(self).spec_haystack(),
                            s,
                        )
                    &&& m.spec_end() == m.spec_start() + old(self).spec_pat().len()
                    &&& final(self).spec_pos() == m.spec_start() + 1
                },
                None => {
                    &&& old(self).spec_pat().len() == 0 || forall|s: int|
                        s >= old(self).spec_pos() ==> !is_match(
                            old(self).spec_pat(),
                            old(self).spec_haystack(),
                            s,
                        )
                    &&& final(self).spec_pos() == old(self).spec_haystack().len()
                },
            },
            old(self).spec_pat().len() == 0 ==> r is None,
    {
        let plen = self.pattern.len();
        let hay = self.haystack;
        if plen == 0 {
            // An empty needle produces no matches, by convention.
            self.last_offset = hay.len();
            return None;
        }
        let hay_len = hay.len();
        match search_from(self.pattern, &self.prefilter, hay, self.last_offset) {
            Some(start) => {
                proof {
                    assert(start + plen <= hay_len);
                }
                let end = start + plen;
                self.last_offset = start + 1;
                Some(Match { start, end, haystack: hay })
            },
            None => {
                self.last_offset = hay.len();
                None
            },
        }
    }
}

/// The least start at or past `from` where the pattern matches `hay`, found
/// by pulling candidates from the prefilter, verifying each, and scanning
/// the tail linearly when the rest is too small for a vector prefilter.
fn search_from(
    pattern: PatternRef<'_>,
    prefilter: &CompiledPrefilter,
    hay: &[u8],
    from: usize,
) -> (r: Option<usize>)
    requires
        pattern.wf(),
        prefilter.sound_for(pattern.spec_word(), pattern.spec_mask(), pattern.spec_len()),
        from <= hay@.len(),
        pattern.spec_len() >= 1,
    ensures
        match r {
            Some(start) => {
                &&& from <= start
                &&& start + pattern.spec_len() <= hay@.len()
                &&& is_match(pattern.spec_pat(), hay@, start as int)
                &&& forall|s: int|
                    from <= s < start ==> !is_match(pattern.spec_pat(), hay@, s)
            },
            None => forall|s: int| s >= from ==> !is_match(pattern.spec_pat(), hay@, s),
        },
{
    let ghost pat = pattern.spec_pat();
    let ghost h = hay@;
    let ghost word = pattern.spec_word();
    let ghost mask = pattern.spec_mask();
    let plen = pattern.len();
    let mut iter = prefilter.find_iter_from(hay, from);
    let tail_from: usize;
    loop
        invariant
            pattern.wf(),
            prefilter.sound_for(word, mask, plen as int),
            iter.wf(),
            iter.haystack == hay,
            iter.prefilter == prefilter,
            h == hay@,
            pat == pattern.spec_pat(),
            word == pattern.spec_word(),
            mask == pattern.spec_mask(),
            plen == pattern.spec_len(),
            plen >= 1,
            from <= iter.last_offset,
            forall|s: int| from <= s < iter.last_offset ==> !is_match(pat, h, s),
        ensures
            from <= tail_from <= hay@.len(),
            forall|s: int| from <= s < tail_from ==> !is_match(pat, h, s),
        decreases hay@.len() - iter.last_offset,
    {
        let ghost cursor = iter.last_offset as int;
        match iter.next() {
            Some(Ok(candidate)) => {
                proof {
                    assert forall|s: int| cursor <= s < candidate implies !is_match(
                        pat,
                        h,
                        s,
                    ) by {
                        if is_match(pat, h, s) {
                            lemma_match_is_candidate(prefilter, word, mask, plen as int, h, s);
                        }
                    }
                }
                if plen > hay.len() - candidate {
                    // No window fits at or past this candidate.
                    return None;
                }
                let end = candidate + plen;
                let window = vstd::slice::slice_subrange(hay, candidate, end);
                let hit = pattern.cmpeq_exact(window);
                proof {
                    lemma_masked_eq_window(word, mask, plen as int, h, candidate as int);
                }
                if hit {
                    return Some(candidate);
                }
            },
            Some(Err(PrefilterError::HaystackTooSmall { offset })) => {
                tail_from = offset;
                break ;
            },
            None => {
                proof {
                    assert forall|s: int| s >= from implies !is_match(pat, h, s) by {
                        if is_match(pat, h, s) && s >= cursor {
                            lemma_clear_bound_covers(prefilter, word, mask, plen as int, h, s);
                            lemma_match_is_candidate(prefilter, word, mask, plen as int, h, s);
                        }
                    }
                }
                return None;
            },
        }
    }
    // The rest of the haystack is too small for the vector prefilter: verify
    // every remaining window directly.
    let mut idx = tail_from;
    loop
        invariant
            pattern.wf(),
            h == hay@,
            pat == pattern.spec_pat(),
            word == pattern.spec_word(),
            mask == pattern.spec_mask(),
            plen == pattern.spec_len(),
            plen >= 1,
            from <= idx as int <= hay@.len(),
            forall|s: int| from <= s < idx ==> !is_match(pat, h, s),
        decreases hay@.len() - idx,
    {
        if plen > hay.len() - idx {
            return None;
        }
        let end = idx + plen;
        let window = vstd::slice::slice_subrange(hay, idx, end);
        let hit = pattern.cmpeq_exact(window);
        proof {
            lemma_masked_eq_window(word, mask, plen as int, h, idx as int);
        }
        if hit {
            return Some(idx);
        }
        idx = idx + 1;
    }
}

/// The compile-time variant of a [`Needle`].
///
/// A [`StaticNeedle`] wraps components a build step computed from a run-time
/// needle — the padded buffers and the raw prefilter descriptor — so that no
/// allocation or validation is needed at run time.
#[derive(Clone, Debug)]
pub struct StaticNeedle<const NEEDLE_LEN: usize, const BUFFER_LEN: usize> {
    prefilter: RawPrefilter,
    pattern: StaticPattern<NEEDLE_LEN, BUFFER_LEN>,
}

impl<const NEEDLE_LEN: usize, const BUFFER_LEN: usize> StaticNeedle<NEEDLE_LEN, BUFFER_LEN> {
    /// Wraps precomputed needle components. The caller supplies what
    /// [`DynamicNeedle::serialize_word`], [`DynamicNeedle::serialize_mask`]
    /// and [`DynamicNeedle::serialize_prefilter`] produced for the same
    /// pattern: correctly padded buffers and a descriptor keyed on literal
    /// positions.
    pub fn new(prefilter: RawPrefilter, word: [u8; BUFFER_LEN], mask: [u8; BUFFER_LEN]) -> (r:
        Self)
        requires
            BUFFER_LEN as int == spec_buffer_len(NEEDLE_LEN as int),
            NEEDLE_LEN <= BUFFER_LEN,
            forall|i: int| 0 <= i < BUFFER_LEN ==> (mask@[i] == 0x00 || mask@[i] == 0xFF),
            forall|i: int| 0 <= i < BUFFER_LEN ==> (mask@[i] == 0xFF ==> word@[i] == 0x00),
            forall|i: int| NEEDLE_LEN <= i < BUFFER_LEN ==> (word@[i] == 0x00 && mask@[i] == 0xFF),
            raw_consistent(prefilter, word@, mask@, NEEDLE_LEN as int),
        ensures
            r.wf(),
            r.spec_pat() == pat_of(word@, mask@, NEEDLE_LEN as int),
    {
        Self { prefilter, pattern: StaticPattern::from_components(word, mask) }
    }
}

impl<const NEEDLE_LEN: usize, const BUFFER_LEN: usize> Sealed for StaticNeedle<
    NEEDLE_LEN,
    BUFFER_LEN,
> {

}

impl<const NEEDLE_LEN: usize, const BUFFER_LEN: usize> Needle for StaticNeedle<
    NEEDLE_LEN,
    BUFFER_LEN,
> {
    closed spec fn spec_pat(&self) -> Seq<Option<u8>> {
        self.pattern.spec_pat()
    }

    closed spec fn wf(&self) -> bool {
        &&& self.pattern.wf()
        &&& raw_consistent(
            self.prefilter,
            self.pattern.spec_word(),
            self.pattern.spec_mask(),
            NEEDLE_LEN as int,
        )
    }

    fn find_iter<'needle, 'haystack>(&'needle self, haystack: &'haystack [u8]) -> (r: Find<
        'needle,
        'haystack,
    >) {
        let pattern = self.pattern.pattern_ref();
        let prefilter = match self.prefilter {
            RawPrefilter::Length { len } => CompiledPrefilter::from_length(len),
            RawPrefilter::Prefix { prefix, prefix_offset } => CompiledPrefilter::from_prefix(
                prefix,
                prefix_offset,
            ),
            RawPrefilter::PrefixPostfix { prefix: _, prefix_offset, postfix: _, postfix_offset } => {
                CompiledPrefilter::from_prefix_postfix(
                    pattern.word_slice(),
                    prefix_offset as usize,
                    postfix_offset as usize,
                )
            },
        };
        Find { prefilter, pattern, haystack, last_offset: 0 }
    }

    fn len(&self) -> (n: usize) {
        NEEDLE_LEN
    }
}

/// The run-time variant of a [`Needle`]: owns its buffers and its compiled
/// prefilter.
#[derive(Clone, Debug)]
pub struct DynamicNeedle {
    prefilter: CompiledPrefilter,
    pattern: DynamicPattern,
}

impl DynamicNeedle {
    /// The padded literal-byte buffer.
    pub closed spec fn spec_word(&self) -> Seq<u8> {
        self.pattern.spec_word()
    }

    /// The padded mask buffer.
    pub closed spec fn spec_mask(&self) -> Seq<u8> {
        self.pattern.spec_mask()
    }

    /// The number of pattern positions.
    pub closed spec fn spec_len(&self) -> int {
        self.pattern.spec_len()
    }

    /// The public shape of the needle's components, everything
    /// [`StaticNeedle::new`] asks of embedded buffers: block-padded length,
    /// two-valued mask bytes, zero word bytes wherever masked, wildcarded
    /// padding — and that the components spell exactly this needle's
    /// pattern. Every constructor establishes it; the serialize methods
    /// restate it so a verified embedder can discharge the obligations.
    pub open spec fn components_wf(&self) -> bool {
        &&& 0 <= self.spec_len()
        &&& self.spec_word().len() == spec_buffer_len(self.spec_len())
        &&& self.spec_mask().len() == self.spec_word().len()
        &&& self.spec_len() <= self.spec_word().len()
        &&& forall|i: int|
            0 <= i < self.spec_mask().len() ==> (self.spec_mask()[i] == 0x00 || self.spec_mask()[i]
                == 0xFF)
        &&& forall|i: int|
            0 <= i < self.spec_word().len() ==> (self.spec_mask()[i] == 0xFF
                ==> self.spec_word()[i] == 0x00)
        &&& forall|i: int|
            self.spec_len() <= i < self.spec_word().len() ==> (self.spec_word()[i] == 0x00
                && self.spec_mask()[i] == 0xFF)
        &&& self.spec_pat() == pat_of(self.spec_word(), self.spec_mask(), self.spec_len())
    }

    /// Construct a [`DynamicNeedle`] using an Ida style pattern: bytes as
    /// two hexadecimals, wildcards as one or two `?`, whitespace between
    /// tokens. Returns exactly what the grammar ([`parsing::spec_parse`])
    /// says: the needle of the parsed tokens, or the first error with its
    /// reason and character span.
    pub fn from_ida<'a>(pattern: &'a str) -> (r: Result<Self, Error<'a>>)
        ensures
            match r {
                Ok(n) => {
                    &&& parsing::spec_parse(pattern@) matches ParseOutcome::Tokens(t)
                    &&& n.wf()
                    &&& n.components_wf()
                    &&& n.spec_pat() == t
                },
                Err(e) => {
                    &&& e.spec_source() == pattern
                    &&& parsing::spec_parse(pattern@) == ParseOutcome::Bad(
                        ParseError {
                            reason: e.spec_reason(),
                            start: e.spec_span().0,
                            end: e.spec_span().1,
                        },
                    )
                },
            },
    {
        let n = pattern.unicode_len();
        match parsing::parse_ida(pattern) {
            Ok(tokens) => {
                proof {
                    parsing::lemma_parse_at_len(pattern@, 0);
                }
                Ok(Self::from_bytes(tokens.as_slice()))
            },
            Err(e) => Err(e),
        }
    }

    /// Construct a [`DynamicNeedle`] using raw bytes: `Some` for an exact
    /// match, `None` for a fuzzy match, one per position.
    pub fn from_bytes(bytes: &[Option<u8>]) -> (r: Self)
        requires
            bytes@.len() <= usize::MAX - 31,
        ensures
            r.wf(),
            r.components_wf(),
            r.spec_pat() == bytes@,
    {
        let pattern = DynamicPattern::from_bytes(bytes);
        let prefilter = CompiledPrefilter::from_bytes(pattern.pattern_ref());
        proof {
            let len = pattern.spec_len();
            let word_sub = pattern.spec_word().subrange(0, len);
            let mask_sub = pattern.spec_mask().subrange(0, len);
            crate::prefilter::lemma_first_literal_props(mask_sub, 0);
            match crate::prefilter::first_literal_from(mask_sub, 0) {
                Some(po) => {
                    crate::prefilter::lemma_last_distinct_props(
                        word_sub,
                        mask_sub,
                        word_sub[po],
                        word_sub.len() as int,
                    );
                },
                None => {},
            }
        }
        Self { prefilter, pattern }
    }

    /// The padded literal-byte buffer, as the build-time emitter embeds it.
    pub fn serialize_word(&self) -> (r: &[u8])
        requires
            self.wf(),
        ensures
            r@ == self.spec_word(),
            self.components_wf(),
    {
        self.pattern.word_slice_padded()
    }

    /// The padded mask buffer, as the build-time emitter embeds it.
    pub fn serialize_mask(&self) -> (r: &[u8])
        requires
            self.wf(),
        ensures
            r@ == self.spec_mask(),
            self.components_wf(),
    {
        self.pattern.mask_slice_padded()
    }

    /// The raw prefilter descriptor, as the build-time emitter embeds it:
    /// the choice [`spec_raw_choice`] makes from the pattern's literal
    /// positions.
    pub fn serialize_prefilter(&self) -> (r: RawPrefilter)
        requires
            self.wf(),
        ensures
            r == spec_raw_choice(
                self.spec_word().subrange(0, self.spec_len()),
                self.spec_mask().subrange(0, self.spec_len()),
            ),
            raw_consistent(r, self.spec_word(), self.spec_mask(), self.spec_len()),
    {
        self.prefilter.to_raw()
    }
}

impl Sealed for DynamicNeedle {

}

impl Needle for DynamicNeedle {
    closed spec fn spec_pat(&self) -> Seq<Option<u8>> {
        self.pattern.spec_pat()
    }

    closed spec fn wf(&self) -> bool {
        &&& self.pattern.wf()
        &&& self.prefilter.sound_for(
            self.pattern.spec_word(),
            self.pattern.spec_mask(),
            self.pattern.spec_len(),
        )
        &&& self.prefilter.spec_raw() == spec_raw_choice(
            self.pattern.spec_word().subrange(0, self.pattern.spec_len()),
            self.pattern.spec_mask().subrange(0, self.pattern.spec_len()),
        )
        &&& raw_consistent(
            self.prefilter.spec_raw(),
            self.pattern.spec_word(),
            self.pattern.spec_mask(),
            self.pattern.spec_len(),
        )
    }

    fn find_iter<'needle, 'haystack>(&'needle self, haystack: &'haystack [u8]) -> (r: Find<
        'needle,
        'haystack,
    >) {
        Find {
            prefilter: self.prefilter,
            pattern: self.pattern.pattern_ref(),
            haystack,
            last_offset: 0,
        }
    }

    fn len(&self) -> (n: usize) {
        self.pattern.len()
    }
}



} // verus!
