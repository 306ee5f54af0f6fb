//! The candidate-offset prefilter.
//!
//! Scanning every offset with the verifier is wasteful when the needle has
//! fixed bytes. The prefilter produces a superset of the true match starts
//! cheaply: depending on the needle's literal positions it either admits
//! every offset (`Length`), follows the occurrences of one literal byte
//! (`Prefix`, via `memchr`), or runs a packed-pair finder of the `memchr`
//! crate over two distinct literal bytes (`PrefixPostfix`).
//!
//! The packed-pair finders come in three widths; the vector ones refuse
//! haystacks shorter than their minimum, which the iterator reports
//! distinctly so the search can fall back to a plain tail scan.

use vstd::prelude::*;

use crate::pattern::is_match;
use crate::pattern::pat_of;
use crate::pattern::PatternRef;
use memchr::arch::all::packedpair::Finder as GenericFinder;
use memchr::arch::all::packedpair::Pair;
use memchr::arch::x86_64::avx2::packedpair::Finder as Avx2Finder;
use memchr::arch::x86_64::sse2::packedpair::Finder as Sse2Finder;

verus! {

/// The larger of two integers.
pub open spec fn max2(a: int, b: int) -> int {
    if a >= b {
        a
    } else {
        b
    }
}

/// A pair of byte offsets into a needle, as `memchr` represents it.
#[verifier::external_type_specification]
#[verifier::external_body]
pub struct ExPair(Pair);

/// The architecture-independent packed-pair finder of `memchr`.
#[verifier::external_type_specification]
#[verifier::external_body]
pub struct ExGenericFinder(GenericFinder);

/// The 128-bit packed-pair finder of `memchr`.
#[verifier::external_type_specification]
#[verifier::external_body]
pub struct ExSse2Finder(Sse2Finder);

/// The 256-bit packed-pair finder of `memchr`.
#[verifier::external_type_specification]
#[verifier::external_body]
pub struct ExAvx2Finder(Avx2Finder);

/// The first offset a `Pair` was built with.
pub uninterp spec fn pair_index1(p: Pair) -> u8;

/// The second offset a `Pair` was built with.
pub uninterp spec fn pair_index2(p: Pair) -> u8;

/// The first pair byte a generic finder searches for.
pub uninterp spec fn gen_finder_byte1(f: GenericFinder) -> u8;

/// The second pair byte a generic finder searches for.
pub uninterp spec fn gen_finder_byte2(f: GenericFinder) -> u8;

/// The offset at which a generic finder expects its first pair byte.
pub uninterp spec fn gen_finder_index1(f: GenericFinder) -> u8;

/// The offset at which a generic finder expects its second pair byte.
pub uninterp spec fn gen_finder_index2(f: GenericFinder) -> u8;

/// The first pair byte a 128-bit finder searches for.
pub uninterp spec fn sse2_finder_byte1(f: Sse2Finder) -> u8;

/// The second pair byte a 128-bit finder searches for.
pub uninterp spec fn sse2_finder_byte2(f: Sse2Finder) -> u8;

/// The offset at which a 128-bit finder expects its first pair byte.
pub uninterp spec fn sse2_finder_index1(f: Sse2Finder) -> u8;

/// The offset at which a 128-bit finder expects its second pair byte.
pub uninterp spec fn sse2_finder_index2(f: Sse2Finder) -> u8;

/// The smallest haystack a 128-bit finder accepts.
pub uninterp spec fn sse2_finder_min_len(f: Sse2Finder) -> usize;

/// The first pair byte a 256-bit finder searches for.
pub uninterp spec fn avx2_finder_byte1(f: Avx2Finder) -> u8;

/// The second pair byte a 256-bit finder searches for.
pub uninterp spec fn avx2_finder_byte2(f: Avx2Finder) -> u8;

/// The offset at which a 256-bit finder expects its first pair byte.
pub uninterp spec fn avx2_finder_index1(f: Avx2Finder) -> u8;

/// The offset at which a 256-bit finder expects its second pair byte.
pub uninterp spec fn avx2_finder_index2(f: Avx2Finder) -> u8;

/// The smallest haystack a 256-bit finder accepts.
pub uninterp spec fn avx2_finder_min_len(f: Avx2Finder) -> usize;

/// Whether the byte pair `(b1 at i1, b2 at i2)` occurs at start `s` of `h`.
pub open spec fn pair_at(h: Seq<u8>, b1: u8, i1: int, b2: u8, i2: int, s: int) -> bool {
    &&& 0 <= s
    &&& s + i1 < h.len()
    &&& s + i2 < h.len()
    &&& h[s + i1] == b1
    &&& h[s + i2] == b2
}

/// Relies on `memchr::memchr`: it returns the index of the first occurrence
/// of `needle` in `haystack`, or `None` when there is none.
pub assume_specification [ memchr::memchr ](needle: u8, haystack: &[u8]) -> (r: Option<usize>)
    ensures
        match r {
            Some(i) => i < haystack@.len() && haystack@[i as int] == needle && forall|j: int|
                0 <= j < i ==> haystack@[j] != needle,
            None => forall|j: int| 0 <= j < haystack@.len() ==> haystack@[j] != needle,
        },
;

/// Relies on memchr's `Pair::with_indices`: a pair is returned exactly when
/// the two offsets are distinct and in bounds for the needle, and the pair
/// carries those offsets.
#[verifier::external_body]
fn pair_with_indices(needle: &[u8], index1: u8, index2: u8) -> (r: Option<Pair>)
    ensures
        r is Some <==> (index1 != index2 && (index1 as int) < needle@.len() && (index2 as int)
            < needle@.len()),
        r matches Some(p) ==> pair_index1(p) == index1 && pair_index2(p) == index2,
{
    Pair::with_indices(needle, index1, index2)
}

/// Relies on memchr's generic `Finder::with_pair`: it always succeeds and the
/// finder searches for the needle bytes at the pair's offsets.
#[verifier::external_body]
fn gen_finder_with_pair(needle: &[u8], pair: Pair) -> (r: Option<GenericFinder>)
    requires
        (pair_index1(pair) as int) < needle@.len(),
        (pair_index2(pair) as int) < needle@.len(),
    ensures
        r is Some,
        r matches Some(f) ==> {
            &&& gen_finder_index1(f) == pair_index1(pair)
            &&& gen_finder_index2(f) == pair_index2(pair)
            &&& gen_finder_byte1(f) == needle@[pair_index1(pair) as int]
            &&& gen_finder_byte2(f) == needle@[pair_index2(pair) as int]
        },
{
    GenericFinder::with_pair(needle, pair)
}

/// Relies on memchr's SSE2 `Finder::with_pair`: when the processor supports
/// it, the finder searches for the needle bytes at the pair's offsets and
/// accepts haystacks of at least `max(needle.len(), max(index) + 16)` bytes.
#[verifier::external_body]
fn sse2_finder_with_pair(needle: &[u8], pair: Pair) -> (r: Option<Sse2Finder>)
    requires
        needle@.len() >= 2,
        (pair_index1(pair) as int) < needle@.len(),
        (pair_index2(pair) as int) < needle@.len(),
    ensures
        r matches Some(f) ==> {
            &&& sse2_finder_index1(f) == pair_index1(pair)
            &&& sse2_finder_index2(f) == pair_index2(pair)
            &&& sse2_finder_byte1(f) == needle@[pair_index1(pair) as int]
            &&& sse2_finder_byte2(f) == needle@[pair_index2(pair) as int]
            &&& sse2_finder_min_len(f) as int == max2(
                needle@.len() as int,
                max2(pair_index1(pair) as int, pair_index2(pair) as int) + 16,
            )
        },
{
    Sse2Finder::with_pair(needle, pair)
}

/// Relies on memchr's AVX2 `Finder::with_pair`: when the processor supports
/// it, the finder searches for the needle bytes at the pair's offsets. Its
/// minimum haystack is that of its 128-bit half,
/// `max(needle.len(), max(index) + 16)`.
#[verifier::external_body]
fn avx2_finder_with_pair(needle: &[u8], pair: Pair) -> (r: Option<Avx2Finder>)
    requires
        needle@.len() >= 2,
        (pair_index1(pair) as int) < needle@.len(),
        (pair_index2(pair) as int) < needle@.len(),
    ensures
        r matches Some(f) ==> {
            &&& avx2_finder_index1(f) == pair_index1(pair)
            &&& avx2_finder_index2(f) == pair_index2(pair)
            &&& avx2_finder_byte1(f) == needle@[pair_index1(pair) as int]
            &&& avx2_finder_byte2(f) == needle@[pair_index2(pair) as int]
            &&& avx2_finder_min_len(f) as int == max2(
                needle@.len() as int,
                max2(pair_index1(pair) as int, pair_index2(pair) as int) + 16,
            )
        },
{
    Avx2Finder::with_pair(needle, pair)
}

/// Relies on memchr's generic `Finder::find_prefilter`: it walks the
/// occurrences of its first byte in ascending order, so a returned offset is
/// itself a pair occurrence with none before it, and `None` means there is
/// none at all.
#[verifier::external_body]
fn gen_finder_find_prefilter(f: &GenericFinder, haystack: &[u8]) -> (r: Option<usize>)
    ensures
        match r {
            Some(p) => p < haystack@.len() && pair_at(
                haystack@,
                gen_finder_byte1(*f),
                gen_finder_index1(*f) as int,
                gen_finder_byte2(*f),
                gen_finder_index2(*f) as int,
                p as int,
            ) && forall|s: int|
                0 <= s < p ==> !pair_at(
                    haystack@,
                    gen_finder_byte1(*f),
                    gen_finder_index1(*f) as int,
                    gen_finder_byte2(*f),
                    gen_finder_index2(*f) as int,
                    s,
                ),
            None => forall|s: int|
                !pair_at(
                    haystack@,
                    gen_finder_byte1(*f),
                    gen_finder_index1(*f) as int,
                    gen_finder_byte2(*f),
                    gen_finder_index2(*f) as int,
                    s,
                ),
        },
{
    f.find_prefilter(haystack)
}

/// Relies on memchr's SSE2 `Finder::min_haystack_len`.
#[verifier::external_body]
fn sse2_finder_min_haystack_len(f: &Sse2Finder) -> (r: usize)
    ensures
        r == sse2_finder_min_len(*f),
{
    f.min_haystack_len()
}

/// Relies on memchr's AVX2 `Finder::min_haystack_len`.
#[verifier::external_body]
fn avx2_finder_min_haystack_len(f: &Avx2Finder) -> (r: usize)
    ensures
        r == avx2_finder_min_len(*f),
{
    f.min_haystack_len()
}

/// Relies on memchr's SSE2 `Finder::find_prefilter`: it scans ascending every
/// start below `haystack.len() - min_haystack_len() + 16` for its byte pair,
/// so a returned offset is itself a pair occurrence with none before it. It
/// panics on a haystack below the minimum, hence the bound here.
#[verifier::external_body]
fn sse2_finder_find_prefilter(f: &Sse2Finder, haystack: &[u8]) -> (r: Option<usize>)
    requires
        haystack@.len() >= sse2_finder_min_len(*f),
    ensures
        match r {
            Some(p) => p < haystack@.len() && pair_at(
                haystack@,
                sse2_finder_byte1(*f),
                sse2_finder_index1(*f) as int,
                sse2_finder_byte2(*f),
                sse2_finder_index2(*f) as int,
                p as int,
            ) && forall|s: int|
                0 <= s < p ==> !pair_at(
                    haystack@,
                    sse2_finder_byte1(*f),
                    sse2_finder_index1(*f) as int,
                    sse2_finder_byte2(*f),
                    sse2_finder_index2(*f) as int,
                    s,
                ),
            None => forall|s: int|
                0 <= s < haystack@.len() - sse2_finder_min_len(*f) + 16 ==> !pair_at(
                    haystack@,
                    sse2_finder_byte1(*f),
                    sse2_finder_index1(*f) as int,
                    sse2_finder_byte2(*f),
                    sse2_finder_index2(*f) as int,
                    s,
                ),
        },
{
    f.find_prefilter(haystack)
}

/// Relies on memchr's AVX2 `Finder::find_prefilter`: as the SSE2 one; on
/// haystacks below its 256-bit minimum it runs its 128-bit half, so the
/// scanned range is never smaller than the SSE2 bound.
#[verifier::external_body]
fn avx2_finder_find_prefilter(f: &Avx2Finder, haystack: &[u8]) -> (r: Option<usize>)
    requires
        haystack@.len() >= avx2_finder_min_len(*f),
    ensures
        match r {
            Some(p) => p < haystack@.len() && pair_at(
                haystack@,
                avx2_finder_byte1(*f),
                avx2_finder_index1(*f) as int,
                avx2_finder_byte2(*f),
                avx2_finder_index2(*f) as int,
                p as int,
            ) && forall|s: int|
                0 <= s < p ==> !pair_at(
                    haystack@,
                    avx2_finder_byte1(*f),
                    avx2_finder_index1(*f) as int,
                    avx2_finder_byte2(*f),
                    avx2_finder_index2(*f) as int,
                    s,
                ),
            None => forall|s: int|
                0 <= s < haystack@.len() - avx2_finder_min_len(*f) + 16 ==> !pair_at(
                    haystack@,
                    avx2_finder_byte1(*f),
                    avx2_finder_index1(*f) as int,
                    avx2_finder_byte2(*f),
                    avx2_finder_index2(*f) as int,
                    s,
                ),
        },
{
    f.find_prefilter(haystack)
}

/// The raw prefilter descriptor: what a compiled prefilter is rebuilt from
/// when a needle is embedded at build time.
#[derive(Clone, Copy, Debug, PartialEq, Eq, Structural)]
pub enum RawPrefilter {
    /// No literal position: every offset where the needle fits is a
    /// candidate.
    Length { len: usize },
    /// One distinct literal byte value: follow its occurrences.
    Prefix { prefix: u8, prefix_offset: usize },
    /// Two distinct literal byte values at known offsets.
    PrefixPostfix { prefix: u8, prefix_offset: u8, postfix: u8, postfix_offset: u8 },
}

/// A compiled prefilter, ready to scan haystacks.
#[derive(Clone, Copy, Debug)]
pub(crate) enum Inner {
    Length { len: usize },
    Prefix { prefix: u8, prefix_offset: usize },
    GenericPrefixPostfix {
        finder: GenericFinder,
        prefix: u8,
        prefix_offset: u8,
        postfix: u8,
        postfix_offset: u8,
    },
    Sse2PrefixPostfix {
        finder: Sse2Finder,
        prefix: u8,
        prefix_offset: u8,
        postfix: u8,
        postfix_offset: u8,
    },
    Avx2PrefixPostfix {
        finder: Avx2Finder,
        prefix: u8,
        prefix_offset: u8,
        postfix: u8,
        postfix_offset: u8,
    },
}

#[derive(Clone, Copy, Debug)]
pub(crate) struct CompiledPrefilter {
    pub(crate) inner: Inner,
}

/// How the prefilter iterator reports a haystack too small for a vector
/// finder: the offset scanning had reached, from which the caller should
/// scan linearly.
pub(crate) enum PrefilterError {
    HaystackTooSmall { offset: usize },
}

/// One prefilter probe: a candidate offset, no candidate at all, or a
/// haystack too small for the vector finder.
pub(crate) enum PrefilterFind {
    Found(usize),
    NotFound,
    TooSmall,
}

/// Whether offset `s` of `h` is a candidate of the prefix prefilter: the
/// prefix byte occurs at `s + off`.
pub open spec fn prefix_candidate_at(h: Seq<u8>, prefix: u8, off: int, s: int) -> bool {
    &&& 0 <= s
    &&& s + off < h.len()
    &&& h[s + off] == prefix
}

/// The least candidate of the prefix prefilter, by following the occurrences
/// of the prefix byte and skipping those before its offset.
fn find_prefix_candidate(haystack: &[u8], prefix: u8, prefix_offset: usize) -> (r: Option<usize>)
    ensures
        match r {
            Some(x) => x < haystack@.len() && prefix_candidate_at(
                haystack@,
                prefix,
                prefix_offset as int,
                x as int,
            ) && forall|s: int|
                0 <= s < x ==> !prefix_candidate_at(haystack@, prefix, prefix_offset as int, s),
            None => forall|s: int|
                !prefix_candidate_at(haystack@, prefix, prefix_offset as int, s),
        },
{
    let mut haystack_offset: usize = 0;
    loop
        invariant
            haystack_offset <= haystack@.len(),
            forall|o: int| 0 <= o < haystack_offset && haystack@[o] == prefix ==> o < prefix_offset,
        decreases haystack@.len() - haystack_offset,
    {
        let window = vstd::slice::slice_subrange(haystack, haystack_offset, haystack.len());
        match memchr::memchr(prefix, window) {
            Some(rel) => {
                let o = haystack_offset + rel;
                if o >= prefix_offset {
                    let x = o - prefix_offset;
                    proof {
                        assert(window@[rel as int] == haystack@[o as int]);
                        assert(prefix_candidate_at(haystack@, prefix, prefix_offset as int, x as int));
                    }
                    assert forall|s: int| 0 <= s < x implies !prefix_candidate_at(
                        haystack@,
                        prefix,
                        prefix_offset as int,
                        s,
                    ) by {
                        if s + prefix_offset < haystack@.len() && haystack@[s + prefix_offset]
                            == prefix {
                            if s + prefix_offset >= haystack_offset {
                                assert(window@[s + prefix_offset - haystack_offset] == prefix);
                            }
                        }
                    }
                    return Some(x);
                } else {
                    assert forall|oo: int|
                        0 <= oo < o + 1 && haystack@[oo] == prefix implies oo < prefix_offset by {
                        if oo >= haystack_offset {
                            assert(window@[oo - haystack_offset] == prefix);
                        }
                    }
                    haystack_offset = o + 1;
                }
            },
            None => {
                assert forall|s: int| !prefix_candidate_at(
                    haystack@,
                    prefix,
                    prefix_offset as int,
                    s,
                ) by {
                    if 0 <= s && s + prefix_offset < haystack@.len() && haystack@[s
                        + prefix_offset] == prefix {
                        if s + prefix_offset >= haystack_offset {
                            assert(window@[s + prefix_offset - haystack_offset] == prefix);
                        }
                    }
                }
                return None;
            },
        }
    }
}

impl CompiledPrefilter {
    /// Whether offset `s` of `h` is a candidate this prefilter reports.
    pub(crate) open spec fn candidate_at(&self, h: Seq<u8>, s: int) -> bool {
        match self.inner {
            Inner::Length { len } => 0 <= s && s + len <= h.len(),
            Inner::Prefix { prefix, prefix_offset } => prefix_candidate_at(
                h,
                prefix,
                prefix_offset as int,
                s,
            ),
            Inner::GenericPrefixPostfix { finder, .. } => pair_at(
                h,
                gen_finder_byte1(finder),
                gen_finder_index1(finder) as int,
                gen_finder_byte2(finder),
                gen_finder_index2(finder) as int,
                s,
            ),
            Inner::Sse2PrefixPostfix { finder, .. } => pair_at(
                h,
                sse2_finder_byte1(finder),
                sse2_finder_index1(finder) as int,
                sse2_finder_byte2(finder),
                sse2_finder_index2(finder) as int,
                s,
            ),
            Inner::Avx2PrefixPostfix { finder, .. } => pair_at(
                h,
                avx2_finder_byte1(finder),
                avx2_finder_index1(finder) as int,
                avx2_finder_byte2(finder),
                avx2_finder_index2(finder) as int,
                s,
            ),
        }
    }

    /// The least offset of `h` this prefilter is not known to clear when it
    /// reports no candidate: the vector finders leave the shortest tail
    /// unscanned, everything else clears the whole haystack.
    pub(crate) open spec fn clear_bound(&self, h: Seq<u8>) -> int {
        match self.inner {
            Inner::Sse2PrefixPostfix { finder, .. } => h.len() - sse2_finder_min_len(finder) + 16,
            Inner::Avx2PrefixPostfix { finder, .. } => h.len() - avx2_finder_min_len(finder) + 16,
            _ => h.len() as int,
        }
    }

    /// Whether a haystack of `len` bytes is below this prefilter's minimum:
    /// only the vector packed-pair finders have one.
    pub(crate) open spec fn too_small_for(&self, len: int) -> bool {
        match self.inner {
            Inner::Sse2PrefixPostfix { finder, .. } => len < sse2_finder_min_len(finder),
            Inner::Avx2PrefixPostfix { finder, .. } => len < avx2_finder_min_len(finder),
            _ => false,
        }
    }

    /// Whether this prefilter is sound for a pattern: every literal it keys
    /// on really is a literal position of the pattern, and the finder, if
    /// any, was built for exactly those bytes and offsets.
    pub(crate) open spec fn sound_for(&self, word: Seq<u8>, mask: Seq<u8>, len: int) -> bool {
        match self.inner {
            Inner::Length { len: l } => l == len,
            Inner::Prefix { prefix, prefix_offset } => {
                &&& 0 <= prefix_offset < len
                &&& mask[prefix_offset as int] == 0x00
                &&& word[prefix_offset as int] == prefix
            },
            Inner::GenericPrefixPostfix { finder, prefix, prefix_offset, postfix, postfix_offset } => {
                &&& 0 <= prefix_offset < len
                &&& 0 <= postfix_offset < len
                &&& mask[prefix_offset as int] == 0x00
                &&& mask[postfix_offset as int] == 0x00
                &&& word[prefix_offset as int] == prefix
                &&& word[postfix_offset as int] == postfix
                &&& gen_finder_byte1(finder) == prefix
                &&& gen_finder_byte2(finder) == postfix
                &&& gen_finder_index1(finder) == prefix_offset
                &&& gen_finder_index2(finder) == postfix_offset
            },
            Inner::Sse2PrefixPostfix { finder, prefix, prefix_offset, postfix, postfix_offset } => {
                &&& 0 <= prefix_offset < len
                &&& 0 <= postfix_offset < len
                &&& mask[prefix_offset as int] == 0x00
                &&& mask[postfix_offset as int] == 0x00
                &&& word[prefix_offset as int] == prefix
                &&& word[postfix_offset as int] == postfix
                &&& sse2_finder_byte1(finder) == prefix
                &&& sse2_finder_byte2(finder) == postfix
                &&& sse2_finder_index1(finder) == prefix_offset
                &&& sse2_finder_index2(finder) == postfix_offset
                &&& sse2_finder_min_len(finder) as int == max2(
                    len,
                    max2(prefix_offset as int, postfix_offset as int) + 16,
                )
            },
            Inner::Avx2PrefixPostfix { finder, prefix, prefix_offset, postfix, postfix_offset } => {
                &&& 0 <= prefix_offset < len
                &&& 0 <= postfix_offset < len
                &&& mask[prefix_offset as int] == 0x00
                &&& mask[postfix_offset as int] == 0x00
                &&& word[prefix_offset as int] == prefix
                &&& word[postfix_offset as int] == postfix
                &&& avx2_finder_byte1(finder) == prefix
                &&& avx2_finder_byte2(finder) == postfix
                &&& avx2_finder_index1(finder) == prefix_offset
                &&& avx2_finder_index2(finder) == postfix_offset
                &&& avx2_finder_min_len(finder) as int == max2(
                    len,
                    max2(prefix_offset as int, postfix_offset as int) + 16,
                )
            },
        }
    }

    /// The raw descriptor of this prefilter.
    pub(crate) open spec fn spec_raw(&self) -> RawPrefilter {
        match self.inner {
            Inner::Length { len } => RawPrefilter::Length { len },
            Inner::Prefix { prefix, prefix_offset } => RawPrefilter::Prefix {
                prefix,
                prefix_offset,
            },
            Inner::GenericPrefixPostfix { prefix, prefix_offset, postfix, postfix_offset, .. } => RawPrefilter::PrefixPostfix {
                prefix,
                prefix_offset,
                postfix,
                postfix_offset,
            },
            Inner::Sse2PrefixPostfix { prefix, prefix_offset, postfix, postfix_offset, .. } => RawPrefilter::PrefixPostfix {
                prefix,
                prefix_offset,
                postfix,
                postfix_offset,
            },
            Inner::Avx2PrefixPostfix { prefix, prefix_offset, postfix, postfix_offset, .. } => RawPrefilter::PrefixPostfix {
                prefix,
                prefix_offset,
                postfix,
                postfix_offset,
            },
        }
    }

    /// The raw descriptor, for embedding a needle at build time.
    pub(crate) fn to_raw(&self) -> (r: RawPrefilter)
        ensures
            r == self.spec_raw(),
    {
        match &self.inner {
            Inner::Length { len } => RawPrefilter::Length { len: *len },
            Inner::Prefix { prefix, prefix_offset } => RawPrefilter::Prefix {
                prefix: *prefix,
                prefix_offset: *prefix_offset,
            },
            Inner::GenericPrefixPostfix { prefix, prefix_offset, postfix, postfix_offset, .. } => RawPrefilter::PrefixPostfix {
                prefix: *prefix,
                prefix_offset: *prefix_offset,
                postfix: *postfix,
                postfix_offset: *postfix_offset,
            },
            Inner::Sse2PrefixPostfix { prefix, prefix_offset, postfix, postfix_offset, .. } => RawPrefilter::PrefixPostfix {
                prefix: *prefix,
                prefix_offset: *prefix_offset,
                postfix: *postfix,
                postfix_offset: *postfix_offset,
            },
            Inner::Avx2PrefixPostfix { prefix, prefix_offset, postfix, postfix_offset, .. } => RawPrefilter::PrefixPostfix {
                prefix: *prefix,
                prefix_offset: *prefix_offset,
                postfix: *postfix,
                postfix_offset: *postfix_offset,
            },
        }
    }

    /// The prefilter admitting every offset where a needle of `len`
    /// positions fits.
    pub(crate) fn from_length(len: usize) -> (r: Self)
        ensures
            r.inner == (Inner::Length { len }),
    {
        Self { inner: Inner::Length { len } }
    }

    /// The prefilter following occurrences of one literal byte.
    pub(crate) fn from_prefix(prefix: u8, prefix_offset: usize) -> (r: Self)
        ensures
            r.inner == (Inner::Prefix { prefix, prefix_offset }),
    {
        Self { inner: Inner::Prefix { prefix, prefix_offset } }
    }

    /// Whether this prefilter is a packed-pair one built from `needle` with
    /// the two offsets given.
    pub(crate) open spec fn is_pp_for(&self, needle: Seq<u8>, po: int, qo: int) -> bool {
        match self.inner {
            Inner::GenericPrefixPostfix { finder, prefix, prefix_offset, postfix, postfix_offset } => {
                &&& prefix == needle[po]
                &&& postfix == needle[qo]
                &&& prefix_offset as int == po
                &&& postfix_offset as int == qo
                &&& gen_finder_byte1(finder) == prefix
                &&& gen_finder_byte2(finder) == postfix
                &&& gen_finder_index1(finder) == prefix_offset
                &&& gen_finder_index2(finder) == postfix_offset
            },
            Inner::Sse2PrefixPostfix { finder, prefix, prefix_offset, postfix, postfix_offset } => {
                &&& prefix == needle[po]
                &&& postfix == needle[qo]
                &&& prefix_offset as int == po
                &&& postfix_offset as int == qo
                &&& sse2_finder_byte1(finder) == prefix
                &&& sse2_finder_byte2(finder) == postfix
                &&& sse2_finder_index1(finder) == prefix_offset
                &&& sse2_finder_index2(finder) == postfix_offset
                &&& sse2_finder_min_len(finder) as int == max2(needle.len() as int, max2(po, qo) + 16)
            },
            Inner::Avx2PrefixPostfix { finder, prefix, prefix_offset, postfix, postfix_offset } => {
                &&& prefix == needle[po]
                &&& postfix == needle[qo]
                &&& prefix_offset as int == po
                &&& postfix_offset as int == qo
                &&& avx2_finder_byte1(finder) == prefix
                &&& avx2_finder_byte2(finder) == postfix
                &&& avx2_finder_index1(finder) == prefix_offset
                &&& avx2_finder_index2(finder) == postfix_offset
                &&& avx2_finder_min_len(finder) as int == max2(needle.len() as int, max2(po, qo) + 16)
            },
            _ => false,
        }
    }

    /// Builds a packed-pair prefilter over the two offsets of `needle`, the
    /// widest the processor offers; falls back to the prefix prefilter when
    /// the offsets do not fit the pair representation.
    pub(crate) fn from_prefix_postfix(needle: &[u8], prefix_offset: usize, postfix_offset: usize) -> (r:
        Self)
        requires
            prefix_offset < needle@.len(),
            postfix_offset < needle@.len(),
            prefix_offset != postfix_offset,
        ensures
            if prefix_offset <= 255 && postfix_offset <= 255 {
                r.is_pp_for(needle@, prefix_offset as int, postfix_offset as int)
            } else {
                r.inner == (Inner::Prefix {
                    prefix: needle@[prefix_offset as int],
                    prefix_offset,
                })
            },
    {
        if prefix_offset <= 255 && postfix_offset <= 255 {
            let p1: u8 = prefix_offset as u8;
            let p2: u8 = postfix_offset as u8;
            let prefix = needle[prefix_offset];
            let postfix = needle[postfix_offset];
            match pair_with_indices(needle, p1, p2) {
                Some(pair) => {
                    match avx2_finder_with_pair(needle, pair) {
                        Some(finder) => {
                            return Self {
                                inner: Inner::Avx2PrefixPostfix {
                                    finder,
                                    prefix,
                                    prefix_offset: p1,
                                    postfix,
                                    postfix_offset: p2,
                                },
                            };
                        },
                        None => {},
                    }
                    match sse2_finder_with_pair(needle, pair) {
                        Some(finder) => {
                            return Self {
                                inner: Inner::Sse2PrefixPostfix {
                                    finder,
                                    prefix,
                                    prefix_offset: p1,
                                    postfix,
                                    postfix_offset: p2,
                                },
                            };
                        },
                        None => {},
                    }
                    match gen_finder_with_pair(needle, pair) {
                        Some(finder) => Self {
                            inner: Inner::GenericPrefixPostfix {
                                finder,
                                prefix,
                                prefix_offset: p1,
                                postfix,
                                postfix_offset: p2,
                            },
                        },
                        None => Self::from_prefix(prefix, prefix_offset),
                    }
                },
                None => Self::from_prefix(prefix, prefix_offset),
            }
        } else {
            let prefix = needle[prefix_offset];
            Self::from_prefix(prefix, prefix_offset)
        }
    }

    /// One probe of `haystack`: the least candidate, or the reason none was
    /// produced. No candidate is ever skipped — below a returned offset, and
    /// below the clear bound when none is found, no candidate exists — and
    /// the too-small answer comes exactly when the haystack is below a
    /// vector finder's minimum.
    pub(crate) fn find(&self, haystack: &[u8]) -> (r: PrefilterFind)
        ensures
            match r {
                PrefilterFind::Found(x) => {
                    &&& x < haystack@.len()
                    &&& self.candidate_at(haystack@, x as int)
                    &&& forall|s: int| 0 <= s < x ==> !self.candidate_at(haystack@, s)
                    &&& !self.too_small_for(haystack@.len() as int)
                },
                PrefilterFind::NotFound => {
                    &&& forall|s: int|
                        0 <= s < self.clear_bound(haystack@) ==> !self.candidate_at(haystack@, s)
                    &&& !self.too_small_for(haystack@.len() as int)
                },
                PrefilterFind::TooSmall => self.too_small_for(haystack@.len() as int),
            },
    {
        match &self.inner {
            Inner::Length { len } => {
                if haystack.len() >= *len && haystack.len() > 0 {
                    PrefilterFind::Found(0)
                } else {
                    assert forall|s: int|
                        0 <= s < self.clear_bound(haystack@) implies !self.candidate_at(
                        haystack@,
                        s,
                    ) by {}
                    PrefilterFind::NotFound
                }
            },
            Inner::Prefix { prefix, prefix_offset } => {
                match find_prefix_candidate(haystack, *prefix, *prefix_offset) {
                    Some(x) => PrefilterFind::Found(x),
                    None => PrefilterFind::NotFound,
                }
            },
            Inner::GenericPrefixPostfix { finder, .. } => {
                match gen_finder_find_prefilter(finder, haystack) {
                    Some(p) => PrefilterFind::Found(p),
                    None => PrefilterFind::NotFound,
                }
            },
            Inner::Sse2PrefixPostfix { finder, .. } => {
                if haystack.len() >= sse2_finder_min_haystack_len(finder) {
                    match sse2_finder_find_prefilter(finder, haystack) {
                        Some(p) => PrefilterFind::Found(p),
                        None => PrefilterFind::NotFound,
                    }
                } else {
                    PrefilterFind::TooSmall
                }
            },
            Inner::Avx2PrefixPostfix { finder, .. } => {
                if haystack.len() >= avx2_finder_min_haystack_len(finder) {
                    match avx2_finder_find_prefilter(finder, haystack) {
                        Some(p) => PrefilterFind::Found(p),
                        None => PrefilterFind::NotFound,
                    }
                } else {
                    PrefilterFind::TooSmall
                }
            },
        }
    }
}

/// A match start fixes every literal byte of the pattern: whatever literal
/// positions a prefilter keys on, a true match start is a candidate.
pub proof fn lemma_match_keeps_literals(
    word: Seq<u8>,
    mask: Seq<u8>,
    len: int,
    h: Seq<u8>,
    s: int,
    i: int,
)
    requires
        0 <= i < len,
        mask[i] != 0xFF,
        is_match(pat_of(word, mask, len), h, s),
    ensures
        0 <= s,
        s + i < h.len(),
        h[s + i] == word[i],
{
    let pat = pat_of(word, mask, len);
    assert(pat[i] == Some(word[i]));
}

/// A pattern that matches at `s` has a candidate at `s`: the prefilter keys
/// only on literal positions of the pattern, and a match fixes those bytes.
pub(crate) proof fn lemma_match_is_candidate(
    pf: &CompiledPrefilter,
    word: Seq<u8>,
    mask: Seq<u8>,
    len: int,
    h: Seq<u8>,
    s: int,
)
    requires
        pf.sound_for(word, mask, len),
        is_match(pat_of(word, mask, len), h, s),
    ensures
        pf.candidate_at(h, s),
{
    let pat = pat_of(word, mask, len);
    assert(pat.len() == len);
    match pf.inner {
        Inner::Length { .. } => {},
        Inner::Prefix { prefix, prefix_offset } => {
            let po = prefix_offset as int;
            assert(pat[po] == Some(word[po]));
            assert(h[s + po] == word[po]);
        },
        Inner::GenericPrefixPostfix { prefix_offset, postfix_offset, .. } => {
            let po = prefix_offset as int;
            let qo = postfix_offset as int;
            assert(pat[po] == Some(word[po]));
            assert(pat[qo] == Some(word[qo]));
            assert(h[s + po] == word[po]);
            assert(h[s + qo] == word[qo]);
        },
        Inner::Sse2PrefixPostfix { prefix_offset, postfix_offset, .. } => {
            let po = prefix_offset as int;
            let qo = postfix_offset as int;
            assert(pat[po] == Some(word[po]));
            assert(pat[qo] == Some(word[qo]));
            assert(h[s + po] == word[po]);
            assert(h[s + qo] == word[qo]);
        },
        Inner::Avx2PrefixPostfix { prefix_offset, postfix_offset, .. } => {
            let po = prefix_offset as int;
            let qo = postfix_offset as int;
            assert(pat[po] == Some(word[po]));
            assert(pat[qo] == Some(word[qo]));
            assert(h[s + po] == word[po]);
            assert(h[s + qo] == word[qo]);
        },
    }
}

/// Every start where a pattern of one or more positions could match lies
/// below the prefilter's clear bound: a clear prefilter clears the search.
pub(crate) proof fn lemma_clear_bound_covers(
    pf: &CompiledPrefilter,
    word: Seq<u8>,
    mask: Seq<u8>,
    len: int,
    h: Seq<u8>,
    s: int,
)
    requires
        pf.sound_for(word, mask, len),
        len >= 1,
        0 <= s,
        s + len <= h.len(),
    ensures
        s < pf.clear_bound(h),
{
}


/// The first literal position of a mask: the least index holding `0x00`.
pub open spec fn first_literal_from(mask: Seq<u8>, i: int) -> Option<int>
    decreases mask.len() - i,
{
    if i < 0 || i >= mask.len() {
        None
    } else if mask[i] == 0x00 {
        Some(i)
    } else {
        first_literal_from(mask, i + 1)
    }
}

/// The last literal position below `i` whose byte differs from `b`.
pub open spec fn last_distinct_upto(word: Seq<u8>, mask: Seq<u8>, b: u8, i: int) -> Option<int>
    decreases i,
{
    if i <= 0 {
        None
    } else if mask[i - 1] == 0x00 && word[i - 1] != b {
        Some(i - 1)
    } else {
        last_distinct_upto(word, mask, b, i - 1)
    }
}

/// The raw prefilter a pattern compiles to, from its unpadded `word` and
/// `mask` slices: no literal gives `Length`; one distinct literal byte value
/// gives `Prefix` on the first literal; two give `PrefixPostfix` on the
/// first literal and the last differing literal, when both offsets fit a
/// byte.
pub open spec fn spec_raw_choice(word: Seq<u8>, mask: Seq<u8>) -> RawPrefilter {
    match first_literal_from(mask, 0) {
        None => RawPrefilter::Length { len: word.len() as usize },
        Some(po) => {
            let b = word[po];
            match last_distinct_upto(word, mask, b, word.len() as int) {
                None => RawPrefilter::Prefix { prefix: b, prefix_offset: po as usize },
                Some(qo) => if po <= 255 && qo <= 255 {
                    RawPrefilter::PrefixPostfix {
                        prefix: b,
                        prefix_offset: po as u8,
                        postfix: word[qo],
                        postfix_offset: qo as u8,
                    }
                } else {
                    RawPrefilter::Prefix { prefix: b, prefix_offset: po as usize }
                },
            }
        },
    }
}

/// What a first-literal result means: the index is in range and literal.
pub(crate) proof fn lemma_first_literal_props(mask: Seq<u8>, i: int)
    requires
        0 <= i,
    ensures
        first_literal_from(mask, i) matches Some(j) ==> i <= j < mask.len() && mask[j] == 0x00,
    decreases mask.len() - i,
{
    if i < mask.len() && mask[i] != 0x00 {
        lemma_first_literal_props(mask, i + 1);
    }
}

/// What a last-distinct result means: the index is in range, literal, and
/// carries a byte other than `b`.
pub(crate) proof fn lemma_last_distinct_props(word: Seq<u8>, mask: Seq<u8>, b: u8, i: int)
    ensures
        last_distinct_upto(word, mask, b, i) matches Some(j) ==> 0 <= j < i && mask[j] == 0x00
            && word[j] != b,
    decreases i,
{
    if i > 0 && !(mask[i - 1] == 0x00 && word[i - 1] != b) {
        lemma_last_distinct_props(word, mask, b, i - 1);
    }
}

/// The least index of `mask` holding `0x00`, if any.
fn find_first_literal(mask: &[u8]) -> (r: Option<usize>)
    ensures
        match r {
            Some(i) => i < mask@.len() && mask@[i as int] == 0x00 && first_literal_from(mask@, 0)
                == Some(i as int),
            None => first_literal_from(mask@, 0) is None,
        },
{
    let mut i: usize = 0;
    while i < mask.len()
        invariant
            i <= mask@.len(),
            first_literal_from(mask@, 0) == first_literal_from(mask@, i as int),
            forall|k: int| 0 <= k < i ==> mask@[k] != 0x00,
        decreases mask@.len() - i,
    {
        if mask[i] == 0x00 {
            return Some(i);
        }
        i = i + 1;
    }
    None
}

/// The greatest literal index of `mask` whose `word` byte differs from `b`,
/// if any.
fn find_last_distinct(word: &[u8], mask: &[u8], b: u8) -> (r: Option<usize>)
    requires
        word@.len() == mask@.len(),
    ensures
        match r {
            Some(j) => j < word@.len() && mask@[j as int] == 0x00 && word@[j as int] != b
                && last_distinct_upto(word@, mask@, b, word@.len() as int) == Some(j as int),
            None => last_distinct_upto(word@, mask@, b, word@.len() as int) is None,
        },
{
    let mut i: usize = word.len();
    while i > 0
        invariant
            i <= word@.len(),
            word@.len() == mask@.len(),
            last_distinct_upto(word@, mask@, b, word@.len() as int) == last_distinct_upto(
                word@,
                mask@,
                b,
                i as int,
            ),
        decreases i,
    {
        if mask[i - 1] == 0x00 && word[i - 1] != b {
            return Some(i - 1);
        }
        i = i - 1;
    }
    None
}

impl CompiledPrefilter {
    /// Compiles the prefilter a pattern calls for, keyed on its literal
    /// positions.
    pub(crate) fn from_bytes(pattern: PatternRef<'_>) -> (r: Self)
        requires
            pattern.wf(),
        ensures
            r.sound_for(pattern.spec_word(), pattern.spec_mask(), pattern.spec_len()),
            r.spec_raw() == spec_raw_choice(
                pattern.spec_word().subrange(0, pattern.spec_len()),
                pattern.spec_mask().subrange(0, pattern.spec_len()),
            ),
    {
        let len = pattern.len();
        let word = pattern.word_slice();
        let mask = pattern.mask_slice();
        match find_first_literal(mask) {
            None => Self::from_length(len),
            Some(prefix_offset) => {
                let prefix = word[prefix_offset];
                match find_last_distinct(word, mask, prefix) {
                    None => Self::from_prefix(prefix, prefix_offset),
                    Some(postfix_offset) => {
                        let r = Self::from_prefix_postfix(word, prefix_offset, postfix_offset);
                        proof {
                            assert(pattern.spec_word()[prefix_offset as int] == word@[prefix_offset as int]);
                            assert(pattern.spec_word()[postfix_offset as int] == word@[postfix_offset as int]);
                            assert(pattern.spec_mask()[prefix_offset as int] == mask@[prefix_offset as int]);
                            assert(pattern.spec_mask()[postfix_offset as int] == mask@[postfix_offset as int]);
                        }
                        r
                    },
                }
            },
        }
    }
}

/// A candidate of the suffix of `h` from `start` is a candidate of `h`
/// shifted by `start`.
proof fn lemma_candidate_shift(pf: &CompiledPrefilter, h: Seq<u8>, start: int, s: int)
    requires
        0 <= start <= h.len(),
        0 <= s,
    ensures
        pf.candidate_at(h.subrange(start, h.len() as int), s) == pf.candidate_at(h, start + s),
{
    let sub = h.subrange(start, h.len() as int);
    match pf.inner {
        Inner::Length { .. } => {},
        Inner::Prefix { prefix, prefix_offset } => {
            if s + prefix_offset < sub.len() {
                assert(sub[s + prefix_offset] == h[start + s + prefix_offset]);
            }
        },
        Inner::GenericPrefixPostfix { finder, .. } => {
            let i1 = gen_finder_index1(finder) as int;
            let i2 = gen_finder_index2(finder) as int;
            if s + i1 < sub.len() && s + i2 < sub.len() {
                assert(sub[s + i1] == h[start + s + i1]);
                assert(sub[s + i2] == h[start + s + i2]);
            }
        },
        Inner::Sse2PrefixPostfix { finder, .. } => {
            let i1 = sse2_finder_index1(finder) as int;
            let i2 = sse2_finder_index2(finder) as int;
            if s + i1 < sub.len() && s + i2 < sub.len() {
                assert(sub[s + i1] == h[start + s + i1]);
                assert(sub[s + i2] == h[start + s + i2]);
            }
        },
        Inner::Avx2PrefixPostfix { finder, .. } => {
            let i1 = avx2_finder_index1(finder) as int;
            let i2 = avx2_finder_index2(finder) as int;
            if s + i1 < sub.len() && s + i2 < sub.len() {
                assert(sub[s + i1] == h[start + s + i1]);
                assert(sub[s + i2] == h[start + s + i2]);
            }
        },
    }
}

/// The clear bound of the suffix of `h` from `start` is the clear bound of
/// `h` shifted by `start`.
proof fn lemma_clear_bound_shift(pf: &CompiledPrefilter, h: Seq<u8>, start: int)
    requires
        0 <= start <= h.len(),
    ensures
        pf.clear_bound(h.subrange(start, h.len() as int)) == pf.clear_bound(h) - start,
{
}

/// Streams candidate offsets of one haystack, ascending.
pub(crate) struct Iter<'haystack, 'prefilter> {
    pub(crate) haystack: &'haystack [u8],
    pub(crate) prefilter: &'prefilter CompiledPrefilter,
    pub(crate) last_offset: usize,
}

impl CompiledPrefilter {
    /// Streams the candidate offsets of `haystack`, ascending, starting at
    /// `start`.
    pub(crate) fn find_iter_from<'haystack, 'prefilter>(
        &'prefilter self,
        haystack: &'haystack [u8],
        start: usize,
    ) -> (r: Iter<'haystack, 'prefilter>)
        requires
            start <= haystack@.len(),
        ensures
            r.haystack == haystack,
            r.prefilter == self,
            r.last_offset == start,
    {
        Iter { haystack, prefilter: self, last_offset: start }
    }

    /// Streams all candidate offsets of `haystack`, ascending.
    pub(crate) fn find_iter<'haystack, 'prefilter>(
        &'prefilter self,
        haystack: &'haystack [u8],
    ) -> (r: Iter<'haystack, 'prefilter>)
        ensures
            r.haystack == haystack,
            r.prefilter == self,
            r.last_offset == 0,
    {
        Iter { haystack, prefilter: self, last_offset: 0 }
    }
}

impl Iter<'_, '_> {
    /// The cursor never passes the end of the haystack.
    pub(crate) open spec fn wf(&self) -> bool {
        self.last_offset <= self.haystack@.len()
    }

    /// The next candidate at or past the cursor: `Ok` with its offset, `Err`
    /// exactly when the rest of the haystack is below the vector finder's
    /// minimum (the caller should scan the rest linearly), `None` when the
    /// prefilter cleared the rest. No candidate is skipped: between the old
    /// cursor and what is reported, none exists.
    pub(crate) fn next(&mut self) -> (r: Option<Result<usize, PrefilterError>>)
        requires
            old(self).wf(),
        ensures
            final(self).haystack == old(self).haystack,
            final(self).prefilter == old(self).prefilter,
            final(self).wf(),
            match r {
                Some(Ok(pos)) => {
                    &&& old(self).last_offset <= pos < old(self).haystack@.len()
                    &&& final(self).last_offset == pos + 1
                    &&& old(self).prefilter.candidate_at(old(self).haystack@, pos as int)
                    &&& forall|s: int|
                        old(self).last_offset <= s < pos ==> !old(self).prefilter.candidate_at(
                            old(self).haystack@,
                            s,
                        )
                    &&& !old(self).prefilter.too_small_for(
                        old(self).haystack@.len() - old(self).last_offset,
                    )
                },
                Some(Err(e)) => {
                    &&& e == (PrefilterError::HaystackTooSmall { offset: old(self).last_offset })
                    &&& final(self).last_offset == old(self).last_offset
                    &&& old(self).prefilter.too_small_for(
                        old(self).haystack@.len() - old(self).last_offset,
                    )
                },
                None => {
                    &&& final(self).last_offset == old(self).haystack@.len()
                    &&& forall|s: int|
                        old(self).last_offset <= s < old(self).prefilter.clear_bound(
                            old(self).haystack@,
                        ) ==> !old(self).prefilter.candidate_at(old(self).haystack@, s)
                    &&& !old(self).prefilter.too_small_for(
                        old(self).haystack@.len() - old(self).last_offset,
                    )
                },
            },
    {
        let ghost h = self.haystack@;
        let ghost start = self.last_offset as int;
        let window = vstd::slice::slice_subrange(self.haystack, self.last_offset, self.haystack.len());
        match self.prefilter.find(window) {
            PrefilterFind::Found(p) => {
                let pos = self.last_offset + p;
                proof {
                    lemma_candidate_shift(self.prefilter, h, start, p as int);
                    assert forall|s: int| start <= s < pos implies !self.prefilter.candidate_at(
                        h,
                        s,
                    ) by {
                        lemma_candidate_shift(self.prefilter, h, start, s - start);
                    }
                }
                self.last_offset = pos + 1;
                Some(Ok(pos))
            },
            PrefilterFind::NotFound => {
                proof {
                    lemma_clear_bound_shift(self.prefilter, h, start);
                    assert forall|s: int|
                        start <= s < self.prefilter.clear_bound(h) implies !self.prefilter.candidate_at(
                        h,
                        s,
                    ) by {
                        lemma_candidate_shift(self.prefilter, h, start, s - start);
                    }
                }
                self.last_offset = self.haystack.len();
                None
            },
            PrefilterFind::TooSmall => {
                Some(Err(PrefilterError::HaystackTooSmall { offset: self.last_offset }))
            },
        }
    }
}

} // verus!
