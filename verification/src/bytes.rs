//! Fixed-width integers inside byte strings.
use vstd::prelude::*;

verus! {

/// The number that `s` spells with its least significant byte first.
pub open spec fn le_value(s: Seq<u8>) -> nat
    decreases s.len(),
{
    if s.len() == 0 {
        0
    } else {
        s[0] as nat + 256 * le_value(s.subrange(1, s.len() as int))
    }
}

/// The number that `s` spells with its most significant byte first.
pub open spec fn be_value(s: Seq<u8>) -> nat
    decreases s.len(),
{
    if s.len() == 0 {
        0
    } else {
        256 * be_value(s.drop_last()) + s.last() as nat
    }
}

/// The little-endian field of `width` bytes at `offset`.
pub open spec fn le_at(s: Seq<u8>, offset: int, width: int) -> nat {
    le_value(s.subrange(offset, offset + width))
}

/// `le_value` of two bytes, written out.
pub proof fn lemma_le_two(s: Seq<u8>)
    requires
        s.len() == 2,
    ensures
        le_value(s) == s[0] + 256 * s[1],
{
    reveal_with_fuel(le_value, 3);
    assert(s.subrange(1, 2)[0] == s[1]);
}

/// `le_value` of four bytes, written out.
pub proof fn lemma_le_four(s: Seq<u8>)
    requires
        s.len() == 4,
    ensures
        le_value(s) == s[0] + 256 * (s[1] + 256 * (s[2] + 256 * s[3])),
{
    reveal_with_fuel(le_value, 5);
    let a = s.subrange(1, 4);
    let b = a.subrange(1, 3);
    let c = b.subrange(1, 2);
    assert(a[0] == s[1] && b[0] == s[2] && c[0] == s[3]);
}

/// `le_value` of a string cut at `k`.
pub proof fn lemma_le_split(s: Seq<u8>, k: int)
    requires
        0 <= k <= s.len(),
    ensures
        le_value(s) == le_value(s.subrange(0, k)) + vstd::arithmetic::power::pow(256, k as nat)
            * le_value(s.subrange(k, s.len() as int)),
    decreases k,
{
    reveal(vstd::arithmetic::power::pow);
    if k == 0 {
        assert(s.subrange(0, s.len() as int) == s);
    } else {
        let rest = s.subrange(1, s.len() as int);
        lemma_le_split(rest, k - 1);
        assert(rest.subrange(0, k - 1) == s.subrange(0, k).subrange(1, k));
        assert(rest.subrange(k - 1, rest.len() as int) == s.subrange(k, s.len() as int));
        let p = vstd::arithmetic::power::pow(256, (k - 1) as nat);
        let hi = le_value(s.subrange(k, s.len() as int));
        assert(256 * (p * hi) == (256 * p) * hi) by (nonlinear_arith);
    }
}

/// The little-endian 16-bit field at `offset`.
pub fn read_u16_le(buf: &[u8], offset: usize) -> (value: u16)
    requires
        offset + 2 <= buf@.len(),
    ensures
        value as nat == le_at(buf@, offset as int, 2),
{
    proof {
        lemma_le_two(buf@.subrange(offset as int, offset + 2));
    }
    buf[offset] as u16 + 256 * (buf[offset + 1] as u16)
}

/// The little-endian 32-bit field at `offset`.
pub fn read_u32_le(buf: &[u8], offset: usize) -> (value: u32)
    requires
        offset + 4 <= buf@.len(),
    ensures
        value as nat == le_at(buf@, offset as int, 4),
{
    proof {
        lemma_le_four(buf@.subrange(offset as int, offset + 4));
    }
    buf[offset] as u32 + 256 * (buf[offset + 1] as u32 + 256 * (buf[offset + 2] as u32 + 256 * (
    buf[offset + 3] as u32)))
}

/// The little-endian 64-bit field at `offset`.
pub fn read_u64_le(buf: &[u8], offset: usize) -> (value: u64)
    requires
        offset + 8 <= buf@.len(),
    ensures
        value as nat == le_at(buf@, offset as int, 8),
{
    assert(buf@.len() == buf.len());
    let low: u32 = read_u32_le(buf, offset);
    let high: u32 = read_u32_le(buf, offset + 4);
    proof {
        let field = buf@.subrange(offset as int, offset + 8);
        lemma_le_split(field, 4);
        assert(field.subrange(0, 4) == buf@.subrange(offset as int, offset + 4));
        assert(field.subrange(4, 8) == buf@.subrange(offset + 4, offset + 8));
        reveal_with_fuel(vstd::arithmetic::power::pow, 5);
    }
    low as u64 + 4_294_967_296 * (high as u64)
}

/// The little-endian 32-bit words of `s`, without an incomplete last one.
pub open spec fn le_words(s: Seq<u8>) -> Seq<u32> {
    Seq::new(s.len() / 4, |i: int| le_at(s, 4 * i, 4) as u32)
}

/// The little-endian 32-bit words of `s`, without an incomplete last one.
pub fn read_words(s: &[u8]) -> (words: Vec<u32>)
    ensures
        words@ == le_words(s@),
{
    let mut words: Vec<u32> = Vec::new();
    let count: usize = s.len() / 4;
    let mut i: usize = 0;
    while i < count
        invariant
            count == s@.len() / 4,
            i <= count,
            words@ == le_words(s@).take(i as int),
        decreases count - i,
    {
        assert(s@.len() == s.len());
        words.push(read_u32_le(s, 4 * i));
        i = i + 1;
    }
    words
}

/// A byte string of `len` zeros.
pub open spec fn zeros(len: nat) -> Seq<u8> {
    Seq::new(len, |i: int| 0u8)
}

/// Appends `len` zero bytes to `out`.
pub fn push_zeros(out: &mut Vec<u8>, len: usize)
    ensures
        final(out)@ == old(out)@ + zeros(len as nat),
{
    let mut i: usize = 0;
    while i < len
        invariant
            i <= len,
            out@ == old(out)@ + zeros(i as nat),
        decreases len - i,
    {
        out.push(0);
        i = i + 1;
    }
}

/// Appends the bytes of `src` from `from` up to `to` to `out`.
pub fn push_range(out: &mut Vec<u8>, src: &[u8], from: usize, to: usize)
    requires
        from <= to <= src@.len(),
    ensures
        final(out)@ == old(out)@ + src@.subrange(from as int, to as int),
{
    let mut i: usize = from;
    while i < to
        invariant
            from <= i <= to <= src@.len(),
            out@ == old(out)@ + src@.subrange(from as int, i as int),
        decreases to - i,
    {
        out.push(src[i]);
        i = i + 1;
    }
}

/// The bytes of `src` from `from` up to `to`.
pub fn copy_range(src: &[u8], from: usize, to: usize) -> (out: Vec<u8>)
    requires
        from <= to <= src@.len(),
    ensures
        out@ == src@.subrange(from as int, to as int),
{
    let mut out: Vec<u8> = Vec::new();
    push_range(&mut out, src, from, to);
    out
}

/// Whether two byte strings are the same.
pub fn same_bytes(a: &[u8], b: &[u8]) -> (same: bool)
    ensures
        same == (a@ == b@),
{
    if a.len() != b.len() {
        return false;
    }
    let mut i: usize = 0;
    while i < a.len()
        invariant
            i <= a@.len(),
            a@.len() == b@.len(),
            forall|k: int| 0 <= k < i ==> a@[k] == b@[k],
        decreases a@.len() - i,
    {
        if a[i] != b[i] {
            return false;
        }
        i = i + 1;
    }
    assert(a@ =~= b@);
    true
}

/// The number that four bytes spell, the lowest first.
pub open spec fn word_at(s: Seq<u8>, at: int) -> int {
    s[at] + 0x100 * s[at + 1] + 0x1_0000 * s[at + 2] + 0x100_0000 * s[at + 3]
}

/// A field of two bytes has its low byte first.
pub proof fn law_half_words_are_little_endian(s: Seq<u8>, at: int)
    requires
        0 <= at,
        at + 2 <= s.len(),
    ensures
        le_at(s, at, 2) == s[at] + 0x100 * s[at + 1],
{
    lemma_le_two(s.subrange(at, at + 2));
}

/// A field of four bytes has its bytes in the order of their weight, the lowest first.
pub proof fn law_words_are_little_endian(s: Seq<u8>, at: int)
    requires
        0 <= at,
        at + 4 <= s.len(),
    ensures
        le_at(s, at, 4) == word_at(s, at),
        0 <= word_at(s, at) <= 0xFFFF_FFFF,
{
    lemma_le_four(s.subrange(at, at + 4));
}

/// A field of eight bytes is two fields of four, the lower one first.
pub proof fn law_long_words_are_two_words(s: Seq<u8>, at: int)
    requires
        0 <= at,
        at + 8 <= s.len(),
    ensures
        le_at(s, at, 8) == word_at(s, at) + 0x1_0000_0000 * word_at(s, at + 4),
        0 <= le_at(s, at, 8) <= 0xFFFF_FFFF_FFFF_FFFF,
{
    let field = s.subrange(at, at + 8);
    lemma_le_split(field, 4);
    law_words_are_little_endian(s, at);
    law_words_are_little_endian(s, at + 4);
    assert(field.subrange(0, 4) =~= s.subrange(at, at + 4));
    assert(field.subrange(4, 8) =~= s.subrange(at + 4, at + 8));
    assert(vstd::arithmetic::power::pow(256, 4) == 0x1_0000_0000) by {
        reveal_with_fuel(vstd::arithmetic::power::pow, 5);
    }
}

/// The words of a table are its fields of four bytes, one after the other.
pub proof fn law_tables_hold_one_word_for_every_four_bytes(s: Seq<u8>)
    ensures
        4 * le_words(s).len() <= s.len() < 4 * le_words(s).len() + 4,
        forall|i: int|
            0 <= i < le_words(s).len() ==> #[trigger] le_words(s)[i] == word_at(s, 4 * i),
{
    assert forall|i: int| 0 <= i < le_words(s).len() implies #[trigger] le_words(s)[i] == word_at(
        s,
        4 * i,
    ) by {
        law_words_are_little_endian(s, 4 * i);
    }
}

} // verus!
