//! Decoding of wire-format bitflag sets and enumeration values.
//!
//! Capability and state sets arrive either as a single 32-bit word whose bits
//! are interpreted against a known-bit table, or as a byte array that is
//! chunked into 4-byte little-endian words, each decoded independently.
//! The byte order is fixed little-endian by this crate rather than taken
//! from the host, so the same bytes decode to the same words on every
//! machine; it coincides with the host order on every supported target.
//! Decoding never fails: a value outside the known table is preserved as
//! [`Tagged::Unrecognized`], so servers that send newer bits do not break
//! older clients. Decoding is lossless: the raw word can always be recovered.

use vstd::prelude::*;

verus! {

/// A decoded wire word: either recognized against the protocol's table of
/// known bits or values, or preserved raw.
#[derive(Clone, Copy, Debug, PartialEq, Eq, Structural)]
pub enum Tagged {
    /// Every set bit (or the value itself) is listed in the known table.
    Known(u32),
    /// Outside the known table; the raw word is preserved unchanged.
    Unrecognized(u32),
}

impl Tagged {
    /// The raw wire word this value was decoded from.
    pub open spec fn spec_raw(self) -> u32 {
        match self {
            Tagged::Known(v) => v,
            Tagged::Unrecognized(v) => v,
        }
    }

    /// Returns the raw wire word this value was decoded from.
    pub fn raw(self) -> (r: u32)
        ensures
            r == self.spec_raw(),
    {
        match self {
            Tagged::Known(v) => v,
            Tagged::Unrecognized(v) => v,
        }
    }

    /// Whether the value was recognized.
    pub open spec fn spec_is_known(self) -> bool {
        self is Known
    }

    /// Returns whether the value was recognized.
    pub fn is_known(self) -> (r: bool)
        ensures
            r == self.spec_is_known(),
    {
        match self {
            Tagged::Known(_) => true,
            Tagged::Unrecognized(_) => false,
        }
    }
}

/// What a raw word decodes to against a table of known bits: `Known` exactly
/// when no bit outside `known_mask` is set.
pub open spec fn spec_decode_flags(raw: u32, known_mask: u32) -> Tagged {
    if raw & !known_mask == 0 {
        Tagged::Known(raw)
    } else {
        Tagged::Unrecognized(raw)
    }
}

/// Decodes one word of bitflags against the table of known bits.
pub fn decode_flags(raw: u32, known_mask: u32) -> (r: Tagged)
    ensures
        r == spec_decode_flags(raw, known_mask),
        r.spec_raw() == raw,
{
    if raw & !known_mask == 0 {
        Tagged::Known(raw)
    } else {
        Tagged::Unrecognized(raw)
    }
}

/// What a raw word decodes to against a table of known enumeration values:
/// `Known` exactly when the word is listed.
pub open spec fn spec_decode_enum(raw: u32, table: Seq<u32>) -> Tagged {
    if table.contains(raw) {
        Tagged::Known(raw)
    } else {
        Tagged::Unrecognized(raw)
    }
}

/// Decodes one word as an enumeration value against the table of known values.
pub fn decode_enum(raw: u32, table: &[u32]) -> (r: Tagged)
    ensures
        r == spec_decode_enum(raw, table@),
        r.spec_raw() == raw,
{
    let mut i: usize = 0;
    while i < table.len()
        invariant
            i <= table.len(),
            forall|j: int| 0 <= j < i ==> table@[j] != raw,
        decreases table.len() - i,
    {
        if table[i] == raw {
            return Tagged::Known(raw);
        }
        i = i + 1;
    }
    Tagged::Unrecognized(raw)
}

/// The 32-bit word assembled little-endian from the four bytes starting at
/// position `4 * i`. Little-endian by definition, not by host order.
pub open spec fn spec_word_at(bytes: Seq<u8>, i: int) -> u32
    recommends
        0 <= i,
        4 * i + 4 <= bytes.len(),
{
    (bytes[4 * i] as u32) | ((bytes[4 * i + 1] as u32) << 8) | ((bytes[4 * i + 2] as u32) << 16)
        | ((bytes[4 * i + 3] as u32) << 24)
}

/// The sequence of 32-bit words a byte array chunks into; a trailing partial
/// chunk is ignored, as the wire format forbids one.
pub open spec fn spec_words(bytes: Seq<u8>) -> Seq<u32> {
    Seq::new((bytes.len() / 4) as nat, |i: int| spec_word_at(bytes, i))
}

/// Splits a byte array into its 4-byte little-endian words.
pub fn decode_words(bytes: &[u8]) -> (r: Vec<u32>)
    ensures
        r@ == spec_words(bytes@),
{
    let mut r: Vec<u32> = Vec::new();
    let mut i: usize = 0;
    while bytes.len() - i >= 4
        invariant
            i == 4 * r@.len(),
            i <= bytes@.len(),
            forall|j: int| 0 <= j < r@.len() ==> r@[j] == spec_word_at(bytes@, j),
        decreases bytes@.len() - i,
    {
        let w = (bytes[i] as u32) | ((bytes[i + 1] as u32) << 8) | ((bytes[i + 2] as u32) << 16)
            | ((bytes[i + 3] as u32) << 24);
        r.push(w);
        i = i + 4;
    }
    assert(r@.len() == bytes@.len() / 4);
    assert(r@ =~= spec_words(bytes@));
    r
}

/// The bytes that encode a sequence of words, little-endian, 4 bytes each.
pub open spec fn spec_word_bytes(words: Seq<u32>) -> Seq<u8> {
    Seq::new(words.len() * 4, |i: int| spec_byte_of_word(words[i / 4], i % 4))
}

/// Byte `k` (0 = least significant) of a word's little-endian encoding.
pub open spec fn spec_byte_of_word(w: u32, k: int) -> u8
    recommends
        0 <= k < 4,
{
    ((w >> (8 * k)) & 0xff) as u8
}

/// Encodes a sequence of words as a byte array, 4 bytes each, little-endian.
pub fn encode_words(words: &[u32]) -> (r: Vec<u8>)
    ensures
        r@ == spec_word_bytes(words@),
{
    let mut r: Vec<u8> = Vec::new();
    let mut i: usize = 0;
    while i < words.len()
        invariant
            i <= words.len(),
            r@.len() == 4 * i,
            forall|j: int| 0 <= j < 4 * i ==> r@[j] == spec_byte_of_word(words@[j / 4], j % 4),
        decreases words.len() - i,
    {
        let w = words[i];
        r.push((w & 0xff) as u8);
        r.push(((w >> 8) & 0xff) as u8);
        r.push(((w >> 16) & 0xff) as u8);
        r.push(((w >> 24) & 0xff) as u8);
        assert forall|j: int| 0 <= j < 4 * i + 4 implies r@[j] == spec_byte_of_word(
            words@[j / 4],
            j % 4,
        ) by {
            if j < 4 * i {
            } else {
                assert(j / 4 == i as int && (j % 4 == 0 || j % 4 == 1 || j % 4 == 2 || j % 4 == 3));
                assert((w >> 0) & 0xff == w & 0xff) by (bit_vector);
            }
        }
        i = i + 1;
    }
    assert(r@ =~= spec_word_bytes(words@));
    r
}

/// Decoding the little-endian encoding of a word sequence gives the words
/// back unchanged: the byte chunking is lossless.
pub proof fn lemma_words_round_trip(words: Seq<u32>)
    ensures
        spec_words(spec_word_bytes(words)) == words,
{
    let bytes = spec_word_bytes(words);
    assert(bytes.len() == 4 * words.len());
    assert forall|i: int| 0 <= i < words.len() implies spec_word_at(bytes, i) == words[i] by {
        assert((4 * i) / 4 == i && (4 * i) % 4 == 0);
        assert((4 * i + 1) / 4 == i && (4 * i + 1) % 4 == 1);
        assert((4 * i + 2) / 4 == i && (4 * i + 2) % 4 == 2);
        assert((4 * i + 3) / 4 == i && (4 * i + 3) % 4 == 3);
        let w = words[i];
        assert(((((w >> (8 * 0)) & 0xff) as u8) as u32) | (((((w >> (8 * 1)) & 0xff) as u8) as u32)
            << 8) | (((((w >> (8 * 2)) & 0xff) as u8) as u32) << 16) | (((((w >> (8 * 3))
            & 0xff) as u8) as u32) << 24) == w) by (bit_vector);
    }
    assert(spec_words(bytes) =~= words);
}

/// Decodes each 4-byte word of a byte array as a set of bitflags.
/// One tagged value per word, wire order preserved.
pub fn decode_flag_words(bytes: &[u8], known_mask: u32) -> (r: Vec<Tagged>)
    ensures
        r@ == spec_words(bytes@).map(|i: int, w: u32| spec_decode_flags(w, known_mask)),
{
    let words = decode_words(bytes);
    let mut r: Vec<Tagged> = Vec::new();
    let mut i: usize = 0;
    while i < words.len()
        invariant
            words@ == spec_words(bytes@),
            i <= words@.len(),
            r@.len() == i,
            forall|j: int| 0 <= j < i ==> r@[j] == spec_decode_flags(words@[j], known_mask),
        decreases words.len() - i,
    {
        r.push(decode_flags(words[i], known_mask));
        i = i + 1;
    }
    assert(r@ =~= spec_words(bytes@).map(|i: int, w: u32| spec_decode_flags(w, known_mask)));
    r
}

/// Decodes each 4-byte word of a byte array as an enumeration value.
/// One tagged value per word, wire order preserved.
pub fn decode_enum_words(bytes: &[u8], table: &[u32]) -> (r: Vec<Tagged>)
    ensures
        r@ == spec_words(bytes@).map(|i: int, w: u32| spec_decode_enum(w, table@)),
{
    let words = decode_words(bytes);
    let mut r: Vec<Tagged> = Vec::new();
    let mut i: usize = 0;
    while i < words.len()
        invariant
            words@ == spec_words(bytes@),
            i <= words@.len(),
            r@.len() == i,
            forall|j: int| 0 <= j < i ==> r@[j] == spec_decode_enum(words@[j], table@),
        decreases words.len() - i,
    {
        r.push(decode_enum(words[i], table));
        i = i + 1;
    }
    assert(r@ =~= spec_words(bytes@).map(|i: int, w: u32| spec_decode_enum(w, table@)));
    r
}

/// Decoding against a known-bit table is lossless and classifies exactly:
/// the raw word is preserved, and the result is `Known` precisely when every
/// set bit lies inside the table.
pub proof fn lemma_flags_round_trip(raw: u32, known_mask: u32)
    ensures
        spec_decode_flags(raw, known_mask).spec_raw() == raw,
        spec_decode_flags(raw, known_mask).spec_is_known() <==> raw & !known_mask == 0,
{
}

/// The 64-bit word assembled little-endian from 8 bytes. Little-endian by
/// definition, not by host order.
pub open spec fn spec_u64_at(bytes: Seq<u8>, i: int) -> u64
    recommends
        0 <= i,
        8 * i + 8 <= bytes.len(),
{
    (bytes[8 * i] as u64) | ((bytes[8 * i + 1] as u64) << 8) | ((bytes[8 * i + 2] as u64) << 16)
        | ((bytes[8 * i + 3] as u64) << 24) | ((bytes[8 * i + 4] as u64) << 32) | ((bytes[8 * i
        + 5] as u64) << 40) | ((bytes[8 * i + 6] as u64) << 48) | ((bytes[8 * i + 7] as u64) << 56)
}

/// The sequence of 64-bit words a byte array chunks into; a trailing partial
/// chunk is ignored, as the wire format forbids one.
pub open spec fn spec_u64s(bytes: Seq<u8>) -> Seq<u64> {
    Seq::new((bytes.len() / 8) as nat, |i: int| spec_u64_at(bytes, i))
}

/// Splits a byte array into its 8-byte little-endian words, as used for
/// format modifiers and device identifiers.
pub fn decode_u64s(bytes: &[u8]) -> (r: Vec<u64>)
    ensures
        r@ == spec_u64s(bytes@),
{
    let mut r: Vec<u64> = Vec::new();
    let mut i: usize = 0;
    while bytes.len() - i >= 8
        invariant
            i == 8 * r@.len(),
            i <= bytes@.len(),
            forall|j: int| 0 <= j < r@.len() ==> r@[j] == spec_u64_at(bytes@, j),
        decreases bytes@.len() - i,
    {
        let w = (bytes[i] as u64) | ((bytes[i + 1] as u64) << 8) | ((bytes[i + 2] as u64) << 16)
            | ((bytes[i + 3] as u64) << 24) | ((bytes[i + 4] as u64) << 32)
            | ((bytes[i + 5] as u64) << 40) | ((bytes[i + 6] as u64) << 48)
            | ((bytes[i + 7] as u64) << 56);
        r.push(w);
        i = i + 8;
    }
    assert(r@.len() == bytes@.len() / 8);
    assert(r@ =~= spec_u64s(bytes@));
    r
}

/// The 64-bit value carried as two 32-bit halves, high half first.
pub open spec fn spec_join_u64(hi: u32, lo: u32) -> u64 {
    ((hi as u64) << 32) | (lo as u64)
}

/// Joins the two 32-bit halves of a 64-bit wire value.
pub fn join_u64(hi: u32, lo: u32) -> (r: u64)
    ensures
        r == spec_join_u64(hi, lo),
        r == hi as u64 * 0x1_0000_0000 + lo as u64,
{
    proof {
        let h = hi as u64;
        let l = lo as u64;
        assert(h <= 0xffff_ffff && l <= 0xffff_ffff ==> (h << 32) | l == h * 0x1_0000_0000 + l)
            by (bit_vector);
    }
    ((hi as u64) << 32) | (lo as u64)
}

} // verus!
