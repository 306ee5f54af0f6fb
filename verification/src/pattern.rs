//! The wildcard-aware pattern representation and the masked-equality
//! verifier.
//!
//! A pattern holds two equal-length byte buffers: `word` carries the literal
//! bytes (zero at wildcard positions) and `mask` carries `0x00` at literal
//! positions and `0xFF` at wildcard positions. Both are padded with
//! `word = 0` / `mask = 0xFF` up to a multiple of the buffer block size, so
//! block-wise kernels may treat the buffers uniformly.
//!
//! The verifier decides, for a candidate window of exactly the pattern's
//! length, whether every position is either masked or equal. Five kernels
//! compute the same predicate at different block widths; which one runs is
//! chosen once per pattern from its length.

use vstd::prelude::*;

verus! {

/// The padded buffer length for a pattern of `len` positions: `len` rounded
/// up to a positive multiple of the widest comparison block, 32 bytes.
pub open spec fn spec_buffer_len(len: int) -> int {
    if len <= 0 {
        32
    } else {
        ((len + 31) / 32) * 32
    }
}

/// Whether candidate byte `c` is accepted at a position holding word byte
/// `w` and mask byte `m`: masked positions accept anything.
pub open spec fn byte_matches(w: u8, m: u8, c: u8) -> bool {
    m == 0xFF || w == c
}

/// The masked-equality predicate: every position below `len` is masked or
/// equal. This is the single predicate all comparison kernels compute.
pub open spec fn masked_eq(word: Seq<u8>, mask: Seq<u8>, len: int, cand: Seq<u8>) -> bool {
    forall|k: int| 0 <= k < len ==> byte_matches(word[k], mask[k], cand[k])
}

/// The pattern as a sequence of optional bytes: `None` at wildcard
/// positions, `Some(byte)` at literal positions.
pub open spec fn pat_of(word: Seq<u8>, mask: Seq<u8>, len: int) -> Seq<Option<u8>> {
    Seq::new(
        len as nat,
        |k: int|
            if mask[k] == 0xFF {
                None
            } else {
                Some(word[k])
            },
    )
}

/// Whether the pattern `pat` matches the haystack `h` at start `s`: the
/// window fits and every literal position agrees.
pub open spec fn is_match(pat: Seq<Option<u8>>, h: Seq<u8>, s: int) -> bool {
    &&& 0 <= s
    &&& s + pat.len() <= h.len()
    &&& forall|k: int| 0 <= k < pat.len() ==> (#[trigger] pat[k] matches Some(b) ==> h[s + k] == b)
}

/// Masked equality of a window against the whole pattern is exactly a match
/// of the pattern at the window's start.
pub proof fn lemma_masked_eq_window(word: Seq<u8>, mask: Seq<u8>, len: int, h: Seq<u8>, s: int)
    requires
        0 <= len <= word.len(),
        len <= mask.len(),
        0 <= s,
        s + len <= h.len(),
    ensures
        masked_eq(word, mask, len, h.subrange(s, s + len)) == is_match(pat_of(word, mask, len), h, s),
{
    let cand = h.subrange(s, s + len);
    let pat = pat_of(word, mask, len);
    assert(pat.len() == len);
    if masked_eq(word, mask, len, cand) {
        assert forall|k: int| 0 <= k < len implies (#[trigger] pat[k] matches Some(b) ==> h[s + k] == b) by {
            assert(byte_matches(word[k], mask[k], cand[k]));
        }
    }
    if is_match(pat, h, s) {
        assert forall|k: int| 0 <= k < len implies byte_matches(word[k], mask[k], cand[k]) by {
            if mask[k] != 0xFF {
                assert(pat[k] == Some(word[k]));
            }
        }
    }
}

/// If the haystack is shorter than the pattern, the pattern matches nowhere.
pub proof fn lemma_short_haystack(pat: Seq<Option<u8>>, h: Seq<u8>, s: int)
    requires
        h.len() < pat.len(),
    ensures
        !is_match(pat, h, s),
{
}

/// A pattern of one or more positions, all wildcards, matches at exactly the
/// starts where its window fits.
pub proof fn lemma_wildcard_only_matches(pat: Seq<Option<u8>>, h: Seq<u8>, s: int)
    requires
        forall|k: int| 0 <= k < pat.len() ==> pat[k] is None,
    ensures
        is_match(pat, h, s) == (0 <= s && s + pat.len() <= h.len()),
{
}

/// Two needles whose buffers agree on the pattern positions — however they
/// were built or padded — match at exactly the same starts. A needle wrapped
/// from embedded components therefore produces the same match stream as the
/// run-time needle it was computed from.
pub proof fn lemma_same_components_same_matches(
    word1: Seq<u8>,
    mask1: Seq<u8>,
    word2: Seq<u8>,
    mask2: Seq<u8>,
    len: int,
    h: Seq<u8>,
    s: int,
)
    requires
        0 <= len,
        forall|k: int| 0 <= k < len ==> (#[trigger] word1[k]) == word2[k],
        forall|k: int| 0 <= k < len ==> (#[trigger] mask1[k]) == mask2[k],
    ensures
        is_match(pat_of(word1, mask1, len), h, s) == is_match(pat_of(word2, mask2, len), h, s),
{
    assert forall|k: int|
        0 <= k < pat_of(word1, mask1, len).len() implies pat_of(word1, mask1, len)[k] == pat_of(
        word2,
        mask2,
        len,
    )[k] by {
        assert(pat_of(word1, mask1, len).len() == len as nat);
        assert(word1[k] == word2[k]);
        assert(mask1[k] == mask2[k]);
    }
    assert(pat_of(word1, mask1, len) =~= pat_of(word2, mask2, len));
}

/// The method chosen to quickly compare a candidate window against the
/// pattern: how many bytes each comparison block covers. The tags name the
/// block widths of the classic kernels; every kernel here is portable
/// word-at-a-time arithmetic, so selection depends on the pattern length
/// alone.
#[derive(Clone, Copy, Debug, Eq, PartialEq, Structural)]
pub enum Method {
    /// Comparison 1 byte at a time.
    Scalar,
    /// Comparison 4 bytes at a time.
    Swar32,
    /// Comparison 8 bytes at a time.
    Swar64,
    /// Comparison 16 bytes at a time.
    Sse2,
    /// Comparison 32 bytes at a time.
    Avx2,
}

impl Method {
    /// The method selected for a pattern of `size` positions: the widest
    /// block that fits at least once.
    pub open spec fn spec_from_size(size: int) -> Method {
        if size >= 32 {
            Method::Avx2
        } else if size >= 16 {
            Method::Sse2
        } else if size >= 8 {
            Method::Swar64
        } else if size >= 4 {
            Method::Swar32
        } else {
            Method::Scalar
        }
    }

    /// How many bytes one comparison block of this method covers.
    pub open spec fn spec_lanes(self) -> int {
        match self {
            Method::Scalar => 1,
            Method::Swar32 => 4,
            Method::Swar64 => 8,
            Method::Sse2 => 16,
            Method::Avx2 => 32,
        }
    }

    /// The largest multiple of the block width at most `len`; the bytes
    /// beyond it are compared by the scalar tail. Zero for the scalar
    /// method, whose "blocks" are single bytes.
    pub open spec fn spec_boundary(self, len: int) -> int {
        match self {
            Method::Scalar => 0,
            Method::Swar32 => len - (len % 4),
            Method::Swar64 => len - (len % 8),
            Method::Sse2 => len - (len % 16),
            Method::Avx2 => len - (len % 32),
        }
    }

    pub(crate) fn from_size(size: usize) -> (r: Self)
        ensures
            r == Method::spec_from_size(size as int),
    {
        if size >= 32 {
            Method::Avx2
        } else if size >= 16 {
            Method::Sse2
        } else if size >= 8 {
            Method::Swar64
        } else if size >= 4 {
            Method::Swar32
        } else {
            Method::Scalar
        }
    }

    pub(crate) fn compute_vectorizable_boundary(self, len_bytes: usize) -> (r: usize)
        ensures
            r == self.spec_boundary(len_bytes as int),
    {
        match self {
            Method::Scalar => 0,
            Method::Swar32 => len_bytes - (len_bytes % 4),
            Method::Swar64 => len_bytes - (len_bytes % 8),
            Method::Sse2 => len_bytes - (len_bytes % 16),
            Method::Avx2 => len_bytes - (len_bytes % 32),
        }
    }
}

/// The owning, run-time pattern: padded `word` and `mask` buffers and the
/// unpadded position count.
#[derive(Clone, Debug)]
pub struct DynamicPattern {
    word: Vec<u8>,
    mask: Vec<u8>,
    len: usize,
}

impl DynamicPattern {
    /// The padded literal-byte buffer.
    pub closed spec fn spec_word(&self) -> Seq<u8> {
        self.word@
    }

    /// The padded mask buffer.
    pub closed spec fn spec_mask(&self) -> Seq<u8> {
        self.mask@
    }

    /// The number of pattern positions, without padding.
    pub closed spec fn spec_len(&self) -> int {
        self.len as int
    }

    /// The structural invariant: buffers of equal, block-padded length;
    /// every mask byte two-valued; word bytes zero wherever masked; padding
    /// wildcarded.
    pub open spec fn wf(&self) -> bool {
        &&& self.spec_word().len() == spec_buffer_len(self.spec_len())
        &&& self.spec_mask().len() == self.spec_word().len()
        &&& self.spec_len() <= self.spec_word().len()
        &&& forall|i: int|
            0 <= i < self.spec_mask().len() ==> (self.spec_mask()[i] == 0x00 || self.spec_mask()[i]
                == 0xFF)
        &&& forall|i: int|
            0 <= i < self.spec_word().len() ==> (self.spec_mask()[i] == 0xFF
                ==> self.spec_word()[i] == 0x00)
        &&& forall|i: int|
            self.spec_len() <= i < self.spec_word().len() ==> (self.spec_word()[i] == 0x00
                && self.spec_mask()[i] == 0xFF)
    }

    /// The pattern as a sequence of optional bytes.
    pub open spec fn spec_pat(&self) -> Seq<Option<u8>> {
        pat_of(self.spec_word(), self.spec_mask(), self.spec_len())
    }

    pub fn len(&self) -> (r: usize)
        ensures
            r == self.spec_len(),
    {
        self.len
    }

    /// Builds the padded buffers from one optional byte per position:
    /// `Some(byte)` becomes a literal, `None` a wildcard.
    pub fn from_bytes(bytes: &[Option<u8>]) -> (r: Self)
        requires
            bytes@.len() <= usize::MAX - 31,
        ensures
            r.wf(),
            r.spec_len() == bytes@.len(),
            r.spec_pat() == bytes@,
    {
        let n = bytes.len();
        let cap: usize = if n == 0 {
            32
        } else {
            ((n + 31) / 32) * 32
        };
        assert(cap == spec_buffer_len(n as int) && n <= cap) by (nonlinear_arith)
            requires
                n <= usize::MAX - 31,
                cap == if n == 0 { 32int } else { ((n + 31) / 32) * 32 },
        ;
        let mut word: Vec<u8> = Vec::new();
        let mut mask: Vec<u8> = Vec::new();
        let mut i: usize = 0;
        while i < n
            invariant
                i <= n,
                n == bytes@.len(),
                word@.len() == i,
                mask@.len() == i,
                forall|k: int|
                    0 <= k < i ==> (mask@[k] == 0x00 || mask@[k] == 0xFF) && (match bytes@[k] {
                        Some(b) => word@[k] == b && mask@[k] == 0x00,
                        None => word@[k] == 0x00 && mask@[k] == 0xFF,
                    }),
            decreases n - i,
        {
            match bytes[i] {
                Some(b) => {
                    word.push(b);
                    mask.push(0x00);
                },
                None => {
                    word.push(0x00);
                    mask.push(0xFF);
                },
            }
            i = i + 1;
        }
        while word.len() < cap
            invariant
                n <= word.len() <= cap,
                mask@.len() == word@.len(),
                n == bytes@.len(),
                forall|k: int|
                    0 <= k < n ==> (mask@[k] == 0x00 || mask@[k] == 0xFF) && (match bytes@[k] {
                        Some(b) => word@[k] == b && mask@[k] == 0x00,
                        None => word@[k] == 0x00 && mask@[k] == 0xFF,
                    }),
                forall|k: int| n <= k < word@.len() ==> word@[k] == 0x00 && mask@[k] == 0xFF,
            decreases cap - word.len(),
        {
            word.push(0x00);
            mask.push(0xFF);
        }
        let r = DynamicPattern { word, mask, len: n };
        proof {
            assert(r.spec_pat() =~= bytes@);
        }
        r
    }

    /// The padded literal-byte buffer, for embedding.
    pub(crate) fn word_slice_padded(&self) -> (r: &[u8])
        ensures
            r@ == self.spec_word(),
    {
        self.word.as_slice()
    }

    /// The padded mask buffer, for embedding.
    pub(crate) fn mask_slice_padded(&self) -> (r: &[u8])
        ensures
            r@ == self.spec_mask(),
    {
        self.mask.as_slice()
    }

    /// The non-owning view of this pattern, with its comparison method.
    pub fn pattern_ref<'a>(&'a self) -> (r: PatternRef<'a>)
        requires
            self.wf(),
        ensures
            r.wf(),
            r.spec_word() == self.spec_word(),
            r.spec_mask() == self.spec_mask(),
            r.spec_len() == self.spec_len(),
    {
        let method = Method::from_size(self.len);
        let vectorizable_boundary = method.compute_vectorizable_boundary(self.len);
        PatternRef {
            word: self.word.as_slice(),
            mask: self.mask.as_slice(),
            len: self.len,
            method,
            vectorizable_boundary,
        }
    }
}

/// The compile-time pattern: the same padded buffers as inline arrays, with
/// the position count and padded length fixed by the type.
#[derive(Clone, Debug)]
pub struct StaticPattern<const SIZE: usize, const CAPACITY: usize> {
    word: [u8; CAPACITY],
    mask: [u8; CAPACITY],
}

impl<const SIZE: usize, const CAPACITY: usize> StaticPattern<SIZE, CAPACITY> {
    /// The padded literal-byte buffer.
    pub closed spec fn spec_word(&self) -> Seq<u8> {
        self.word@
    }

    /// The padded mask buffer.
    pub closed spec fn spec_mask(&self) -> Seq<u8> {
        self.mask@
    }

    /// The structural invariant, as for the run-time pattern.
    pub open spec fn wf(&self) -> bool {
        &&& CAPACITY == spec_buffer_len(SIZE as int)
        &&& SIZE <= CAPACITY
        &&& forall|i: int|
            0 <= i < CAPACITY ==> (self.spec_mask()[i] == 0x00 || self.spec_mask()[i] == 0xFF)
        &&& forall|i: int|
            0 <= i < CAPACITY ==> (self.spec_mask()[i] == 0xFF ==> self.spec_word()[i] == 0x00)
        &&& forall|i: int|
            SIZE <= i < CAPACITY ==> (self.spec_word()[i] == 0x00 && self.spec_mask()[i] == 0xFF)
    }

    /// The pattern as a sequence of optional bytes.
    pub open spec fn spec_pat(&self) -> Seq<Option<u8>> {
        pat_of(self.spec_word(), self.spec_mask(), SIZE as int)
    }

    /// Wraps precomputed buffers; the caller supplies the components a
    /// run-time pattern would have built.
    pub(crate) fn from_components(word: [u8; CAPACITY], mask: [u8; CAPACITY]) -> (r: Self)
        ensures
            r.spec_word() == word@,
            r.spec_mask() == mask@,
    {
        Self { word, mask }
    }

    /// The non-owning view of this pattern, with its comparison method.
    pub(crate) fn pattern_ref<'a>(&'a self) -> (r: PatternRef<'a>)
        requires
            self.wf(),
        ensures
            r.wf(),
            r.spec_word() == self.spec_word(),
            r.spec_mask() == self.spec_mask(),
            r.spec_len() == SIZE as int,
    {
        let method = Method::from_size(SIZE);
        let vectorizable_boundary = method.compute_vectorizable_boundary(SIZE);
        proof {
            assert(self.word@.len() == CAPACITY);
            assert(self.mask@.len() == CAPACITY);
        }
        let r = PatternRef {
            word: self.word.as_slice(),
            mask: self.mask.as_slice(),
            len: SIZE,
            method,
            vectorizable_boundary,
        };
        proof {
            assert forall|i: int|
                0 <= i < r.spec_len() implies (r.spec_mask()[i] == 0x00 || r.spec_mask()[i]
                == 0xFF) by {
                assert(self.spec_mask()[i] == 0x00 || self.spec_mask()[i] == 0xFF);
            }
        }
        r
    }
}

/// A non-owning view of a pattern: the two buffers, the position count, the
/// selected comparison method and its precomputed block boundary.
#[derive(Clone, Copy, Debug)]
pub struct PatternRef<'a> {
    word: &'a [u8],
    mask: &'a [u8],
    len: usize,
    method: Method,
    vectorizable_boundary: usize,
}

impl<'a> PatternRef<'a> {
    /// The literal-byte buffer (padded).
    pub closed spec fn spec_word(&self) -> Seq<u8> {
        self.word@
    }

    /// The mask buffer (padded).
    pub closed spec fn spec_mask(&self) -> Seq<u8> {
        self.mask@
    }

    /// The number of pattern positions.
    pub closed spec fn spec_len(&self) -> int {
        self.len as int
    }

    /// The selected comparison method.
    pub closed spec fn spec_method(&self) -> Method {
        self.method
    }

    /// The precomputed block boundary.
    pub closed spec fn spec_vectorizable_boundary(&self) -> int {
        self.vectorizable_boundary as int
    }

    /// The view's invariant: buffers long enough, two-valued mask bytes,
    /// method and boundary consistent with the length.
    pub open spec fn wf(&self) -> bool {
        &&& self.spec_len() <= self.spec_word().len()
        &&& self.spec_mask().len() == self.spec_word().len()
        &&& forall|i: int|
            0 <= i < self.spec_len() ==> (self.spec_mask()[i] == 0x00 || self.spec_mask()[i]
                == 0xFF)
        &&& self.spec_method() == Method::spec_from_size(self.spec_len())
        &&& self.spec_vectorizable_boundary() == self.spec_method().spec_boundary(self.spec_len())
    }

    /// The pattern as a sequence of optional bytes.
    pub open spec fn spec_pat(&self) -> Seq<Option<u8>> {
        pat_of(self.spec_word(), self.spec_mask(), self.spec_len())
    }

    /// The selected comparison method.
    pub fn method(&self) -> (r: Method)
        ensures
            r == self.spec_method(),
    {
        self.method
    }

    /// The number of pattern positions.
    pub fn len(&self) -> (r: usize)
        ensures
            r == self.spec_len(),
    {
        self.len
    }

    /// The unpadded literal-byte slice.
    pub(crate) fn word_slice(&self) -> (r: &[u8])
        requires
            self.wf(),
        ensures
            r@ == self.spec_word().subrange(0, self.spec_len()),
    {
        vstd::slice::slice_subrange(self.word, 0, self.len)
    }

    /// The unpadded mask slice.
    pub(crate) fn mask_slice(&self) -> (r: &[u8])
        requires
            self.wf(),
        ensures
            r@ == self.spec_mask().subrange(0, self.spec_len()),
    {
        vstd::slice::slice_subrange(self.mask, 0, self.len)
    }

    /// Whether the candidate equals the pattern under the mask. A candidate
    /// of the wrong length never matches.
    pub fn cmpeq(&self, other: &[u8]) -> (r: bool)
        requires
            self.wf(),
        ensures
            r == (other@.len() == self.spec_len() && masked_eq(
                self.spec_word(),
                self.spec_mask(),
                self.spec_len(),
                other@,
            )),
    {
        if self.len == other.len() {
            self.cmpeq_exact(other)
        } else {
            false
        }
    }

    /// Masked equality for a candidate of exactly the pattern's length,
    /// through the selected kernel.
    pub(crate) fn cmpeq_exact(&self, other: &[u8]) -> (r: bool)
        requires
            self.wf(),
            other@.len() == self.spec_len(),
        ensures
            r == masked_eq(self.spec_word(), self.spec_mask(), self.spec_len(), other@),
    {
        match self.method {
            Method::Scalar => self.cmpeq_scalar(other),
            Method::Swar32 => self.cmpeq_swar32(other),
            Method::Swar64 => self.cmpeq_swar64(other),
            Method::Sse2 => self.cmpeq_sse2(other),
            Method::Avx2 => self.cmpeq_avx2(other),
        }
    }

    /// The scalar kernel on the positions from `start` up: one byte per
    /// step.
    pub(crate) fn cmpeq_scalar_range(&self, other: &[u8], start: usize) -> (r: bool)
        requires
            self.wf(),
            other@.len() == self.spec_len(),
            start <= self.spec_len(),
        ensures
            r == forall|k: int|
                start <= k < self.spec_len() ==> byte_matches(
                    self.spec_word()[k],
                    self.spec_mask()[k],
                    other@[k],
                ),
    {
        let mut i = start;
        while i < self.len
            invariant
                self.wf(),
                other@.len() == self.spec_len(),
                start <= i <= self.spec_len(),
                forall|k: int|
                    start <= k < i ==> byte_matches(
                        self.spec_word()[k],
                        self.spec_mask()[k],
                        other@[k],
                    ),
            decreases self.len - i,
        {
            if self.word[i] != other[i] && self.mask[i] == 0x00 {
                assert(!byte_matches(self.spec_word()[i as int], self.spec_mask()[i as int], other@[i as int]));
                return false;
            }
            i = i + 1;
        }
        true
    }

    /// The whole-pattern scalar kernel.
    pub(crate) fn cmpeq_scalar(&self, other: &[u8]) -> (r: bool)
        requires
            self.wf(),
            other@.len() == self.spec_len(),
        ensures
            r == masked_eq(self.spec_word(), self.spec_mask(), self.spec_len(), other@),
    {
        self.cmpeq_scalar_range(other, 0)
    }

    /// One 4-byte comparison block starting at `base`: the word, mask and
    /// candidate bytes are packed into `u32` values and compared with one
    /// xor-and step.
    fn block4_ok(&self, other: &[u8], base: usize) -> (r: bool)
        requires
            self.wf(),
            other@.len() == self.spec_len(),
            base + 4 <= self.spec_len(),
        ensures
            r == (byte_matches(self.spec_word()[base as int], self.spec_mask()[base as int], other@[base as int])
                && byte_matches(self.spec_word()[base + 1], self.spec_mask()[base + 1], other@[base + 1])
                && byte_matches(self.spec_word()[base + 2], self.spec_mask()[base + 2], other@[base + 2])
                && byte_matches(self.spec_word()[base + 3], self.spec_mask()[base + 3], other@[base + 3])),
    {
        let w0 = self.word[base];
        let w1 = self.word[base + 1];
        let w2 = self.word[base + 2];
        let w3 = self.word[base + 3];
        let m0 = self.mask[base];
        let m1 = self.mask[base + 1];
        let m2 = self.mask[base + 2];
        let m3 = self.mask[base + 3];
        let c0 = other[base];
        let c1 = other[base + 1];
        let c2 = other[base + 2];
        let c3 = other[base + 3];
        let w: u32 = (w0 as u32) | ((w1 as u32) << 8) | ((w2 as u32) << 16) | ((w3 as u32) << 24);
        let m: u32 = (m0 as u32) | ((m1 as u32) << 8) | ((m2 as u32) << 16) | ((m3 as u32) << 24);
        let c: u32 = (c0 as u32) | ((c1 as u32) << 8) | ((c2 as u32) << 16) | ((c3 as u32) << 24);
        let ok = ((w ^ c) & !m) == 0;
        proof {
            lemma_block4(w0, w1, w2, w3, m0, m1, m2, m3, c0, c1, c2, c3);
        }
        ok
    }

    /// One 8-byte comparison block starting at `base`, as [`Self::block4_ok`]
    /// with `u64` packing.
    fn block8_ok(&self, other: &[u8], base: usize) -> (r: bool)
        requires
            self.wf(),
            other@.len() == self.spec_len(),
            base + 8 <= self.spec_len(),
        ensures
            r == (byte_matches(self.spec_word()[base as int], self.spec_mask()[base as int], other@[base as int])
                && byte_matches(self.spec_word()[base + 1], self.spec_mask()[base + 1], other@[base + 1])
                && byte_matches(self.spec_word()[base + 2], self.spec_mask()[base + 2], other@[base + 2])
                && byte_matches(self.spec_word()[base + 3], self.spec_mask()[base + 3], other@[base + 3])
                && byte_matches(self.spec_word()[base + 4], self.spec_mask()[base + 4], other@[base + 4])
                && byte_matches(self.spec_word()[base + 5], self.spec_mask()[base + 5], other@[base + 5])
                && byte_matches(self.spec_word()[base + 6], self.spec_mask()[base + 6], other@[base + 6])
                && byte_matches(self.spec_word()[base + 7], self.spec_mask()[base + 7], other@[base + 7])),
    {
        let w0 = self.word[base];
        let w1 = self.word[base + 1];
        let w2 = self.word[base + 2];
        let w3 = self.word[base + 3];
        let w4 = self.word[base + 4];
        let w5 = self.word[base + 5];
        let w6 = self.word[base + 6];
        let w7 = self.word[base + 7];
        let m0 = self.mask[base];
        let m1 = self.mask[base + 1];
        let m2 = self.mask[base + 2];
        let m3 = self.mask[base + 3];
        let m4 = self.mask[base + 4];
        let m5 = self.mask[base + 5];
        let m6 = self.mask[base + 6];
        let m7 = self.mask[base + 7];
        let c0 = other[base];
        let c1 = other[base + 1];
        let c2 = other[base + 2];
        let c3 = other[base + 3];
        let c4 = other[base + 4];
        let c5 = other[base + 5];
        let c6 = other[base + 6];
        let c7 = other[base + 7];
        let w: u64 = (w0 as u64) | ((w1 as u64) << 8) | ((w2 as u64) << 16) | ((w3 as u64) << 24)
            | ((w4 as u64) << 32) | ((w5 as u64) << 40) | ((w6 as u64) << 48) | ((w7 as u64) << 56);
        let m: u64 = (m0 as u64) | ((m1 as u64) << 8) | ((m2 as u64) << 16) | ((m3 as u64) << 24)
            | ((m4 as u64) << 32) | ((m5 as u64) << 40) | ((m6 as u64) << 48) | ((m7 as u64) << 56);
        let c: u64 = (c0 as u64) | ((c1 as u64) << 8) | ((c2 as u64) << 16) | ((c3 as u64) << 24)
            | ((c4 as u64) << 32) | ((c5 as u64) << 40) | ((c6 as u64) << 48) | ((c7 as u64) << 56);
        let ok = ((w ^ c) & !m) == 0;
        proof {
            lemma_block8(
                w0, w1, w2, w3, w4, w5, w6, w7,
                m0, m1, m2, m3, m4, m5, m6, m7,
                c0, c1, c2, c3, c4, c5, c6, c7,
            );
        }
        ok
    }

    /// The 4-byte SWAR kernel: full blocks up to the boundary, then the
    /// scalar tail.
    pub(crate) fn cmpeq_swar32(&self, other: &[u8]) -> (r: bool)
        requires
            self.wf(),
            other@.len() == self.spec_len(),
            self.spec_method() == Method::Swar32,
        ensures
            r == masked_eq(self.spec_word(), self.spec_mask(), self.spec_len(), other@),
    {
        let boundary = self.vectorizable_boundary;
        let mut base: usize = 0;
        while base < boundary
            invariant
                self.wf(),
                other@.len() == self.spec_len(),
                self.spec_method() == Method::Swar32,
                boundary == self.vectorizable_boundary,
                base <= boundary,
                base % 4 == 0,
                forall|k: int|
                    0 <= k < base ==> byte_matches(
                        self.spec_word()[k],
                        self.spec_mask()[k],
                        other@[k],
                    ),
            decreases boundary - base,
        {
            if !self.block4_ok(other, base) {
                return false;
            }
            assert forall|k: int| 0 <= k < base + 4 implies byte_matches(
                self.spec_word()[k],
                self.spec_mask()[k],
                other@[k],
            ) by {
                if k == base || k == base + 1 || k == base + 2 || k == base + 3 {
                }
            }
            base = base + 4;
        }
        self.cmpeq_scalar_range(other, boundary)
    }

    /// The 8-byte SWAR kernel.
    pub(crate) fn cmpeq_swar64(&self, other: &[u8]) -> (r: bool)
        requires
            self.wf(),
            other@.len() == self.spec_len(),
            self.spec_method() == Method::Swar64,
        ensures
            r == masked_eq(self.spec_word(), self.spec_mask(), self.spec_len(), other@),
    {
        let boundary = self.vectorizable_boundary;
        let mut base: usize = 0;
        while base < boundary
            invariant
                self.wf(),
                other@.len() == self.spec_len(),
                self.spec_method() == Method::Swar64,
                boundary == self.vectorizable_boundary,
                base <= boundary,
                base % 8 == 0,
                forall|k: int|
                    0 <= k < base ==> byte_matches(
                        self.spec_word()[k],
                        self.spec_mask()[k],
                        other@[k],
                    ),
            decreases boundary - base,
        {
            if !self.block8_ok(other, base) {
                return false;
            }
            assert forall|k: int| 0 <= k < base + 8 implies byte_matches(
                self.spec_word()[k],
                self.spec_mask()[k],
                other@[k],
            ) by {
                if base <= k < base + 8 {
                }
            }
            base = base + 8;
        }
        self.cmpeq_scalar_range(other, boundary)
    }

    /// The 16-byte kernel: two 8-byte comparisons per block.
    pub(crate) fn cmpeq_sse2(&self, other: &[u8]) -> (r: bool)
        requires
            self.wf(),
            other@.len() == self.spec_len(),
            self.spec_method() == Method::Sse2,
        ensures
            r == masked_eq(self.spec_word(), self.spec_mask(), self.spec_len(), other@),
    {
        let boundary = self.vectorizable_boundary;
        let mut base: usize = 0;
        while base < boundary
            invariant
                self.wf(),
                other@.len() == self.spec_len(),
                self.spec_method() == Method::Sse2,
                boundary == self.vectorizable_boundary,
                base <= boundary,
                base % 16 == 0,
                forall|k: int|
                    0 <= k < base ==> byte_matches(
                        self.spec_word()[k],
                        self.spec_mask()[k],
                        other@[k],
                    ),
            decreases boundary - base,
        {
            if !self.block8_ok(other, base) {
                return false;
            }
            if !self.block8_ok(other, base + 8) {
                return false;
            }
            assert forall|k: int| 0 <= k < base + 16 implies byte_matches(
                self.spec_word()[k],
                self.spec_mask()[k],
                other@[k],
            ) by {
                if base <= k < base + 16 {
                }
            }
            base = base + 16;
        }
        self.cmpeq_scalar_range(other, boundary)
    }

    /// The 32-byte kernel: four 8-byte comparisons per block.
    pub(crate) fn cmpeq_avx2(&self, other: &[u8]) -> (r: bool)
        requires
            self.wf(),
            other@.len() == self.spec_len(),
            self.spec_method() == Method::Avx2,
        ensures
            r == masked_eq(self.spec_word(), self.spec_mask(), self.spec_len(), other@),
    {
        let boundary = self.vectorizable_boundary;
        let mut base: usize = 0;
        while base < boundary
            invariant
                self.wf(),
                other@.len() == self.spec_len(),
                self.spec_method() == Method::Avx2,
                boundary == self.vectorizable_boundary,
                base <= boundary,
                base % 32 == 0,
                forall|k: int|
                    0 <= k < base ==> byte_matches(
                        self.spec_word()[k],
                        self.spec_mask()[k],
                        other@[k],
                    ),
            decreases boundary - base,
        {
            if !self.block8_ok(other, base) {
                return false;
            }
            if !self.block8_ok(other, base + 8) {
                return false;
            }
            if !self.block8_ok(other, base + 16) {
                return false;
            }
            if !self.block8_ok(other, base + 24) {
                return false;
            }
            assert forall|k: int| 0 <= k < base + 32 implies byte_matches(
                self.spec_word()[k],
                self.spec_mask()[k],
                other@[k],
            ) by {
                if base <= k < base + 32 {
                }
            }
            base = base + 32;
        }
        self.cmpeq_scalar_range(other, boundary)
    }
}

/// The packed 4-byte comparison decides exactly the four byte-wise masked
/// equalities, provided every mask byte is two-valued.
proof fn lemma_block4(
    w0: u8, w1: u8, w2: u8, w3: u8,
    m0: u8, m1: u8, m2: u8, m3: u8,
    c0: u8, c1: u8, c2: u8, c3: u8,
)
    requires
        m0 == 0x00 || m0 == 0xFF,
        m1 == 0x00 || m1 == 0xFF,
        m2 == 0x00 || m2 == 0xFF,
        m3 == 0x00 || m3 == 0xFF,
    ensures
        (((((w0 as u32) | ((w1 as u32) << 8) | ((w2 as u32) << 16) | ((w3 as u32) << 24)) ^ ((c0
            as u32) | ((c1 as u32) << 8) | ((c2 as u32) << 16) | ((c3 as u32) << 24))) & !((m0
            as u32) | ((m1 as u32) << 8) | ((m2 as u32) << 16) | ((m3 as u32) << 24))) == 0) == (
        byte_matches(w0, m0, c0) && byte_matches(w1, m1, c1) && byte_matches(w2, m2, c2)
            && byte_matches(w3, m3, c3)),
{
    assert((((((w0 as u32) | ((w1 as u32) << 8) | ((w2 as u32) << 16) | ((w3 as u32) << 24)) ^ ((c0
        as u32) | ((c1 as u32) << 8) | ((c2 as u32) << 16) | ((c3 as u32) << 24))) & !((m0 as u32)
        | ((m1 as u32) << 8) | ((m2 as u32) << 16) | ((m3 as u32) << 24))) == 0) == ((m0 == 0xFF
        || w0 == c0) && (m1 == 0xFF || w1 == c1) && (m2 == 0xFF || w2 == c2) && (m3 == 0xFF || w3
        == c3))) by (bit_vector)
        requires
            m0 == 0x00 || m0 == 0xFF,
            m1 == 0x00 || m1 == 0xFF,
            m2 == 0x00 || m2 == 0xFF,
            m3 == 0x00 || m3 == 0xFF,
    ;
}

/// The packed 8-byte comparison decides exactly the eight byte-wise masked
/// equalities, provided every mask byte is two-valued.
proof fn lemma_block8(
    w0: u8, w1: u8, w2: u8, w3: u8, w4: u8, w5: u8, w6: u8, w7: u8,
    m0: u8, m1: u8, m2: u8, m3: u8, m4: u8, m5: u8, m6: u8, m7: u8,
    c0: u8, c1: u8, c2: u8, c3: u8, c4: u8, c5: u8, c6: u8, c7: u8,
)
    requires
        m0 == 0x00 || m0 == 0xFF,
        m1 == 0x00 || m1 == 0xFF,
        m2 == 0x00 || m2 == 0xFF,
        m3 == 0x00 || m3 == 0xFF,
        m4 == 0x00 || m4 == 0xFF,
        m5 == 0x00 || m5 == 0xFF,
        m6 == 0x00 || m6 == 0xFF,
        m7 == 0x00 || m7 == 0xFF,
    ensures
        (((((w0 as u64) | ((w1 as u64) << 8) | ((w2 as u64) << 16) | ((w3 as u64) << 24) | ((w4
            as u64) << 32) | ((w5 as u64) << 40) | ((w6 as u64) << 48) | ((w7 as u64) << 56)) ^ ((
        c0 as u64) | ((c1 as u64) << 8) | ((c2 as u64) << 16) | ((c3 as u64) << 24) | ((c4 as u64)
            << 32) | ((c5 as u64) << 40) | ((c6 as u64) << 48) | ((c7 as u64) << 56))) & !((m0
            as u64) | ((m1 as u64) << 8) | ((m2 as u64) << 16) | ((m3 as u64) << 24) | ((m4 as u64)
            << 32) | ((m5 as u64) << 40) | ((m6 as u64) << 48) | ((m7 as u64) << 56))) == 0) == (
        byte_matches(w0, m0, c0) && byte_matches(w1, m1, c1) && byte_matches(w2, m2, c2)
            && byte_matches(w3, m3, c3) && byte_matches(w4, m4, c4) && byte_matches(w5, m5, c5)
            && byte_matches(w6, m6, c6) && byte_matches(w7, m7, c7)),
{
    assert((((((w0 as u64) | ((w1 as u64) << 8) | ((w2 as u64) << 16) | ((w3 as u64) << 24) | ((w4
        as u64) << 32) | ((w5 as u64) << 40) | ((w6 as u64) << 48) | ((w7 as u64) << 56)) ^ ((c0
        as u64) | ((c1 as u64) << 8) | ((c2 as u64) << 16) | ((c3 as u64) << 24) | ((c4 as u64)
        << 32) | ((c5 as u64) << 40) | ((c6 as u64) << 48) | ((c7 as u64) << 56))) & !((m0 as u64)
        | ((m1 as u64) << 8) | ((m2 as u64) << 16) | ((m3 as u64) << 24) | ((m4 as u64) << 32) | ((
    m5 as u64) << 40) | ((m6 as u64) << 48) | ((m7 as u64) << 56))) == 0) == ((m0 == 0xFF || w0
        == c0) && (m1 == 0xFF || w1 == c1) && (m2 == 0xFF || w2 == c2) && (m3 == 0xFF || w3 == c3)
        && (m4 == 0xFF || w4 == c4) && (m5 == 0xFF || w5 == c5) && (m6 == 0xFF || w6 == c6) && (m7
        == 0xFF || w7 == c7))) by (bit_vector)
        requires
            m0 == 0x00 || m0 == 0xFF,
            m1 == 0x00 || m1 == 0xFF,
            m2 == 0x00 || m2 == 0xFF,
            m3 == 0x00 || m3 == 0xFF,
            m4 == 0x00 || m4 == 0xFF,
            m5 == 0x00 || m5 == 0xFF,
            m6 == 0x00 || m6 == 0xFF,
            m7 == 0x00 || m7 == 0xFF,
    ;
}

} // verus!
