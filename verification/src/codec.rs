//! Binary decoder: pure functions that read fixed-width little-endian fields
//! out of a byte buffer at a given offset. Every reader requires that the
//! caller has already range-checked the buffer; within that range the readers
//! are total.

use vstd::arithmetic::div_mod::{
    lemma_div_denominator, lemma_fundamental_div_mod, lemma_mod_bound,
};
use vstd::prelude::*;

verus! {

broadcast use vstd::slice::group_slice_axioms;

/// The unsigned 16-bit value encoded little-endian by two bytes.
pub open spec fn u16_le(lo: u8, hi: u8) -> int {
    lo as int + 0x100 * (hi as int)
}

/// The signed 16-bit value encoded little-endian by two bytes
/// (two's complement).
pub open spec fn i16_le(lo: u8, hi: u8) -> int {
    if u16_le(lo, hi) < 0x8000 {
        u16_le(lo, hi)
    } else {
        u16_le(lo, hi) - 0x10000
    }
}

/// The unsigned 32-bit value encoded little-endian by four bytes.
pub open spec fn u32_le(b0: u8, b1: u8, b2: u8, b3: u8) -> int {
    b0 as int + 0x100 * (b1 as int) + 0x10000 * (b2 as int) + 0x1000000 * (b3 as int)
}

/// The signed 32-bit value encoded little-endian by four bytes
/// (two's complement).
pub open spec fn i32_le(b0: u8, b1: u8, b2: u8, b3: u8) -> int {
    if u32_le(b0, b1, b2, b3) < 0x80000000 {
        u32_le(b0, b1, b2, b3)
    } else {
        u32_le(b0, b1, b2, b3) - 0x100000000
    }
}

/// Reads an unsigned 16-bit little-endian field at `offset`.
pub fn read_u16(bytes: &[u8], offset: usize) -> (r: u16)
    requires
        offset + 2 <= bytes.len(),
    ensures
        r == u16_le(bytes@[offset as int], bytes@[offset + 1]),
{
    let lo = bytes[offset];
    let hi = bytes[offset + 1];
    lo as u16 + 0x100 * (hi as u16)
}

/// Reads a signed 16-bit little-endian field at `offset`.
pub fn read_i16(bytes: &[u8], offset: usize) -> (r: i16)
    requires
        offset + 2 <= bytes.len(),
    ensures
        r == i16_le(bytes@[offset as int], bytes@[offset + 1]),
{
    let v = read_u16(bytes, offset);
    if v < 0x8000 {
        v as i16
    } else {
        (v as i32 - 0x10000) as i16
    }
}

/// Reads a signed 32-bit little-endian field at `offset`.
pub fn read_i32(bytes: &[u8], offset: usize) -> (r: i32)
    requires
        offset + 4 <= bytes.len(),
    ensures
        r == i32_le(
            bytes@[offset as int],
            bytes@[offset + 1],
            bytes@[offset + 2],
            bytes@[offset + 3],
        ),
{
    let b0 = bytes[offset] as u32;
    let b1 = bytes[offset + 1] as u32;
    let b2 = bytes[offset + 2] as u32;
    let b3 = bytes[offset + 3] as u32;
    let v: u32 = b0 + 0x100 * b1 + 0x10000 * b2 + 0x1000000 * b3;
    if v < 0x80000000 {
        v as i32
    } else {
        (v as i64 - 0x100000000i64) as i32
    }
}

/// Reads a packed 16-bit binary angle at `offset` and returns it in its raw
/// units: 65535 units stand for a full 360-degree turn. Converting the units
/// to radians is a floating-point concern and is left to the presentation
/// layer.
pub fn read_angle(bytes: &[u8], offset: usize) -> (r: u16)
    requires
        offset + 2 <= bytes.len(),
    ensures
        r == u16_le(bytes@[offset as int], bytes@[offset + 1]),
{
    read_u16(bytes, offset)
}

/// A child pointer of a tree node: either another node or a subsector leaf,
/// each named by its index into the corresponding record array.
#[derive(Clone, Copy, Debug, PartialEq, Eq, Structural)]
pub enum ChildIdx {
    Node(i16),
    Subsector(i16),
}

/// The child reference denoted by a 16-bit tag: bit 15 set marks a subsector
/// leaf whose index is the low 15 bits, with the all-ones tag mapped to leaf
/// index 0 as a defined special case; bit 15 clear marks a node.
pub open spec fn child_of_tag(v: int) -> ChildIdx {
    if v < 0x8000 {
        ChildIdx::Node(v as i16)
    } else if v == 0xFFFF {
        ChildIdx::Subsector(0)
    } else {
        ChildIdx::Subsector((v - 0x8000) as i16)
    }
}

/// Reads a 16-bit child-pointer tag at `offset` and decodes it.
pub fn read_child_ref(bytes: &[u8], offset: usize) -> (r: ChildIdx)
    requires
        offset + 2 <= bytes.len(),
    ensures
        r == child_of_tag(u16_le(bytes@[offset as int], bytes@[offset + 1])),
{
    let v = read_u16(bytes, offset);
    if v < 0x8000 {
        ChildIdx::Node(v as i16)
    } else if v == 0xFFFF {
        ChildIdx::Subsector(0)
    } else {
        ChildIdx::Subsector((v - 0x8000) as i16)
    }
}

/// An axis-aligned bounding box. The corners are signed 16-bit coordinates;
/// the derived extents need one bit more than 16, so they are kept as 32-bit
/// values rather than silently wrapped.
#[derive(Clone, Copy, Debug, PartialEq, Eq, Structural)]
pub struct BBox {
    pub top: i16,
    pub left: i16,
    pub width: i32,
    pub height: i32,
}

/// The bounding box encoded at `offset` as four signed 16-bit fields in the
/// order top, bottom, left, right, with `width = right - left` and
/// `height = top - bottom`.
pub open spec fn bbox_at(bytes: Seq<u8>, offset: int) -> BBox {
    let top = i16_le(bytes[offset], bytes[offset + 1]);
    let bottom = i16_le(bytes[offset + 2], bytes[offset + 3]);
    let left = i16_le(bytes[offset + 4], bytes[offset + 5]);
    let right = i16_le(bytes[offset + 6], bytes[offset + 7]);
    BBox {
        top: top as i16,
        left: left as i16,
        width: (right - left) as i32,
        height: (top - bottom) as i32,
    }
}

/// Reads an 8-byte bounding box at `offset`.
pub fn read_bbox(bytes: &[u8], offset: usize) -> (r: BBox)
    requires
        offset + 8 <= bytes.len(),
    ensures
        r == bbox_at(bytes@, offset as int),
{
    let top = read_i16(bytes, offset);
    let bottom = read_i16(bytes, offset + 2);
    let left = read_i16(bytes, offset + 4);
    let right = read_i16(bytes, offset + 6);
    BBox {
        top,
        left,
        width: right as i32 - left as i32,
        height: top as i32 - bottom as i32,
    }
}

/// The number of bytes before the first zero byte in the 8-byte name field at
/// `offset`, scanning from position `i`; 8 when no zero byte occurs.
pub open spec fn name_end(bytes: Seq<u8>, offset: int, i: int) -> int
    decreases 8 - i,
{
    if i >= 8 {
        8
    } else if bytes[offset + i] == 0 {
        i
    } else {
        name_end(bytes, offset, i + 1)
    }
}

/// Whether every byte of the name field before its terminator is ASCII.
pub open spec fn name_is_ascii(bytes: Seq<u8>, offset: int) -> bool {
    forall|j: int|
        0 <= j < name_end(bytes, offset, 0) ==> (#[trigger] bytes[offset + j]) < 0x80
}

/// The text denoted by the 8-byte name field at `offset`: the bytes before
/// the first zero byte read as characters, or a fixed 4-character placeholder
/// when a non-ASCII byte occurs among them.
pub open spec fn fixed_name(bytes: Seq<u8>, offset: int) -> Seq<char> {
    if name_is_ascii(bytes, offset) {
        Seq::new(name_end(bytes, offset, 0) as nat, |j: int| bytes[offset + j] as char)
    } else {
        seq!['?', '?', '?', '?']
    }
}

/// Relies on String::push: appends the given character to the end of the
/// string.
#[verifier::external_body]
pub(crate) fn push_char(s: &mut String, c: char)
    ensures
        final(s)@ == old(s)@.push(c),
{
    s.push(c);
}

proof fn lemma_name_end_step(bytes: Seq<u8>, offset: int, i: int)
    requires
        0 <= i < 8,
        forall|j: int| 0 <= j < i ==> (#[trigger] bytes[offset + j]) != 0,
    ensures
        name_end(bytes, offset, 0) == name_end(bytes, offset, i),
    decreases i,
{
    if i > 0 {
        lemma_name_end_step(bytes, offset, i - 1);
    }
}

/// Reads an up-to-8-byte NUL-terminated or NUL-padded name field at `offset`.
pub fn read_fixed_name(bytes: &[u8], offset: usize) -> (r: String)
    requires
        offset + 8 <= bytes.len(),
    ensures
        r@ == fixed_name(bytes@, offset as int),
{
    let mut n: usize = 0;
    while n < 8 && bytes[offset + n] != 0
        invariant
            offset + 8 <= bytes.len(),
            0 <= n <= 8,
            forall|j: int| 0 <= j < n ==> (#[trigger] bytes@[offset + j]) != 0,
        decreases 8 - n,
    {
        n += 1;
    }
    proof {
        if n < 8 {
            lemma_name_end_step(bytes@, offset as int, n as int);
            assert(name_end(bytes@, offset as int, n as int) == n);
        } else {
            lemma_name_end_step(bytes@, offset as int, 7);
            assert(name_end(bytes@, offset as int, 7) == name_end(bytes@, offset as int, 8));
            assert(name_end(bytes@, offset as int, 8) == 8);
        }
        assert(name_end(bytes@, offset as int, 0) == n);
    }
    let mut i: usize = 0;
    while i < n
        invariant
            offset + 8 <= bytes.len(),
            n <= 8,
            name_end(bytes@, offset as int, 0) == n,
            forall|j: int| 0 <= j < i ==> (#[trigger] bytes@[offset + j]) < 0x80,
            0 <= i <= n,
        decreases n - i,
    {
        if bytes[offset + i] >= 0x80 {
            proof {
                reveal_strlit("????");
                assert(!name_is_ascii(bytes@, offset as int));
                assert("????"@ =~= seq!['?', '?', '?', '?']);
            }
            return String::from_str("????");
        }
        i += 1;
    }
    assert(name_is_ascii(bytes@, offset as int));
    let mut s = String::new();
    let mut k: usize = 0;
    while k < n
        invariant
            offset + 8 <= bytes.len(),
            n <= 8,
            name_end(bytes@, offset as int, 0) == n,
            name_is_ascii(bytes@, offset as int),
            0 <= k <= n,
            s@ =~= Seq::new(k as nat, |j: int| bytes@[offset + j] as char),
        decreases n - k,
    {
        let c = bytes[offset + k] as char;
        push_char(&mut s, c);
        k += 1;
    }
    proof {
        assert(s@ =~= fixed_name(bytes@, offset as int));
    }
    s
}

/// The low byte of a 16-bit value's little-endian encoding.
pub open spec fn u16_lo(v: u16) -> u8 {
    (v % 0x100) as u8
}

/// The high byte of a 16-bit value's little-endian encoding.
pub open spec fn u16_hi(v: u16) -> u8 {
    (v / 0x100) as u8
}

/// The two's-complement 16-bit pattern of a signed 16-bit value.
pub open spec fn i16_as_u16(v: i16) -> u16 {
    if v >= 0 {
        v as u16
    } else {
        (v + 0x10000) as u16
    }
}

/// Decoding a 16-bit value from its own little-endian encoding returns the
/// value unchanged.
pub proof fn lemma_u16_round_trip(v: u16)
    ensures
        u16_le(u16_lo(v), u16_hi(v)) == v,
{
    lemma_fundamental_div_mod(v as int, 0x100);
    lemma_mod_bound(v as int, 0x100);
}

/// Decoding a signed 16-bit value from the little-endian encoding of its
/// two's-complement bit pattern returns the value unchanged.
pub proof fn lemma_i16_round_trip(v: i16)
    ensures
        i16_le(u16_lo(i16_as_u16(v)), u16_hi(i16_as_u16(v))) == v,
{
    lemma_u16_round_trip(i16_as_u16(v));
}

/// The byte at position `k` (0 low to 3 high) of a 32-bit value's
/// little-endian encoding.
pub open spec fn u32_byte(v: u32, k: int) -> u8 {
    if k == 0 {
        ((v as int) % 0x100) as u8
    } else if k == 1 {
        (((v as int) / 0x100) % 0x100) as u8
    } else if k == 2 {
        (((v as int) / 0x10000) % 0x100) as u8
    } else {
        (((v as int) / 0x1000000) % 0x100) as u8
    }
}

/// The two's-complement 32-bit pattern of a signed 32-bit value.
pub open spec fn i32_as_u32(v: i32) -> u32 {
    if v >= 0 {
        v as u32
    } else {
        (v + 0x100000000) as u32
    }
}

/// Decoding a 32-bit value from its own little-endian encoding returns the
/// value unchanged.
pub proof fn lemma_u32_round_trip(v: u32)
    ensures
        u32_le(u32_byte(v, 0), u32_byte(v, 1), u32_byte(v, 2), u32_byte(v, 3)) == v,
{
    let x = v as int;
    let q1 = x / 0x100;
    let q2 = x / 0x10000;
    let q3 = x / 0x1000000;
    lemma_fundamental_div_mod(x, 0x100);
    lemma_mod_bound(x, 0x100);
    lemma_div_denominator(x, 0x100, 0x100);
    lemma_fundamental_div_mod(q1, 0x100);
    lemma_mod_bound(q1, 0x100);
    lemma_div_denominator(x, 0x10000, 0x100);
    lemma_fundamental_div_mod(q2, 0x100);
    lemma_mod_bound(q2, 0x100);
    lemma_fundamental_div_mod(q3, 0x100);
    lemma_mod_bound(q3, 0x100);
    assert(x / 0x1000000 < 0x100) by {
        lemma_div_denominator(x, 0x1000000, 0x100);
        lemma_fundamental_div_mod(x, 0x100000000);
        lemma_mod_bound(x, 0x100000000);
    }
    assert(q3 % 0x100 == q3) by {
        vstd::arithmetic::div_mod::lemma_small_mod(q3 as nat, 0x100);
    }
}

/// Decoding a signed 32-bit value from the little-endian encoding of its
/// two's-complement bit pattern returns the value unchanged.
pub proof fn lemma_i32_round_trip(v: i32)
    ensures
        i32_le(
            u32_byte(i32_as_u32(v), 0),
            u32_byte(i32_as_u32(v), 1),
            u32_byte(i32_as_u32(v), 2),
            u32_byte(i32_as_u32(v), 3),
        ) == v,
{
    lemma_u32_round_trip(i32_as_u32(v));
}

} // verus!
