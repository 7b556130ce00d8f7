//! Word arithmetic and bit facts that the rest of the crate leans on.
use vstd::prelude::*;

verus! {

/// Addition on 32-bit words, modulo 2^32.
#[verifier::opaque]
pub open spec fn wadd(a: u32, b: u32) -> u32 {
    ((a + b) % 0x1_0000_0000) as u32
}

/// Subtraction on 32-bit words, modulo 2^32.
#[verifier::opaque]
pub open spec fn wsub(a: u32, b: u32) -> u32 {
    ((a - b) % 0x1_0000_0000) as u32
}

pub fn add32(a: u32, b: u32) -> (out: u32)
    ensures
        out == wadd(a, b),
{
    reveal(wadd);
    a.wrapping_add(b)
}

pub fn sub32(a: u32, b: u32) -> (out: u32)
    ensures
        out == wsub(a, b),
{
    reveal(wsub);
    a.wrapping_sub(b)
}

/// Whether bit `i` of `x` is set.
pub open spec fn bit(x: u32, i: int) -> bool {
    (x >> (i as u32)) & 1 == 1
}

/// The register image after a write of `val` through one of the four APB
/// access ports: plain, XOR, bitset, bitclear. Any other port number writes
/// plainly.
pub open spec fn aliased(cur: u32, val: u32, alias: u32) -> u32 {
    if alias == 1 {
        cur ^ val
    } else if alias == 2 {
        cur | val
    } else if alias == 3 {
        cur & !val
    } else {
        val
    }
}

/// Read-modify-write through an APB access port.
pub fn apply_alias(cur: u32, val: u32, alias: u32) -> (out: u32)
    ensures
        out == aliased(cur, val, alias),
{
    if alias == 1 {
        cur ^ val
    } else if alias == 2 {
        cur | val
    } else if alias == 3 {
        cur & !val
    } else {
        val
    }
}

/// One bit of a word, as a test.
pub fn test_bit(x: u32, i: u32) -> (out: bool)
    requires
        i < 32,
    ensures
        out == bit(x, i as int),
{
    (x >> i) & 1 == 1
}

/// A word read as a two's complement number.
pub open spec fn signed(x: u32) -> int {
    if x >= 0x8000_0000 {
        x - 0x1_0000_0000
    } else {
        x as int
    }
}

/// The word that stands for an integer, modulo 2^32.
pub open spec fn word(i: int) -> u32 {
    (i % 0x1_0000_0000) as u32
}

/// Arithmetic shift right: the sign bit moves in from the left.
pub open spec fn asr(x: u32, n: u32) -> u32 {
    if x >= 0x8000_0000 {
        !((!x) >> n)
    } else {
        x >> n
    }
}

/// Arithmetic shift right of a word.
pub fn shift_right_signed(x: u32, n: u32) -> (out: u32)
    requires
        n < 32,
    ensures
        out == asr(x, n),
{
    if x >= 0x8000_0000 {
        !((!x) >> n)
    } else {
        x >> n
    }
}

/// Bit `i` of what the word operations make of `a` and `b`, shifts being by
/// `s`.
pub proof fn lemma_bit_ops(a: u32, b: u32, i: u32, s: u32)
    by (bit_vector)
    requires
        i < 32,
        s < 32,
    ensures
        ((a & b) >> i) & 1 == 1 <==> ((a >> i) & 1 == 1 && (b >> i) & 1 == 1),
        ((a | b) >> i) & 1 == 1 <==> ((a >> i) & 1 == 1 || (b >> i) & 1 == 1),
        ((a ^ b) >> i) & 1 == 1 <==> ((a >> i) & 1 == 1) != ((b >> i) & 1 == 1),
        ((a & !b) >> i) & 1 == 1 <==> ((a >> i) & 1 == 1 && (b >> i) & 1 != 1),
        ((!a) >> i) & 1 == 1 <==> (a >> i) & 1 != 1,
        (a >> i) & 1 == 0 || (a >> i) & 1 == 1,
        ((a << s) >> i) & 1 == 1 <==> (i >= s && (a >> ((i - s) as u32)) & 1 == 1),
        ((a >> s) >> i) & 1 == 1 <==> (i + s < 32 && (a >> ((i + s) as u32)) & 1 == 1),
        i < s ==> (((1u32 << s) - 1) as u32 >> i) & 1 == 1,
        i >= s ==> (((1u32 << s) - 1) as u32 >> i) & 1 == 0,
        (0xFFFF_FFFFu32 >> i) & 1 == 1,
        1u32 << s >= 1,
        a >= 0x8000_0000 <==> (a >> 31) & 1 == 1,
        a & 0x8000_0000 != 0 <==> (a >> 31) & 1 == 1,
        (a >> 0) & 1 == a % 2,
        a & (1u32 << i) != 0 <==> (a >> i) & 1 == 1,
        a & (1u32 << i) == 0 <==> (a >> i) & 1 != 1,
        ((a | (1u32 << s)) >> i) & 1 == 1 <==> (s == i || (a >> i) & 1 == 1),
        ((a & !(1u32 << s)) >> i) & 1 == 1 <==> (s != i && (a >> i) & 1 == 1),
        ((1u32 << s) >> i) & 1 == 1 <==> s == i,
        0u32 & a == 0,
        a & 0u32 == 0,
        a | 0u32 == a,
        0u32 | 0u32 == 0,
        0u32 >> i == 0,
        (0u32 >> i) & 1 != 1,
        (0x3FFF_FFFFu32 >> i) & 1 == 1 <==> i < 30,
{
}

/// Facts about particular masks and fields of words.
pub proof fn lemma_word_facts(a: u32, b: u32, m: u32)
    by (bit_vector)
    ensures
        a & 0xF <= 0xF,
        (a >> 8) & 0xFF <= 0xFF,
        b & 0xFE <= 0xFE,
        ((a | 8) | 4 | 8) | 4 == (a | 8) | 4,
        ((a | 8) & !4u32 | 8) & !4u32 == (a | 8) & !4u32,
        ((a & !8u32) | 4) & !8u32 | 4 == (a & !8u32) | 4,
        ((a & !8u32) & !4u32) & !8u32 & !4u32 == (a & !8u32) & !4u32,
        (((a & !8u32) | 4) | 8) | 4 == (a | 8) | 4,
        (((a & !8u32) & !4u32) | 8) & !4u32 == (a | 8) & !4u32,
        (a | 0x020) | 0x020 == a | 0x020,
        (a | (0x100u32 | 0x400u32)) & 0x40 == a & 0x40,
        (a | (0x40u32 | 0x200u32)) & 0x40 != 0,
        (a | 0x002) & 0x40 == a & 0x40,
        (a | 0x004) & 0x40 == a & 0x40,
        (a | 0x008) & 0x40 == a & 0x40,
        (a | 0x010) & 0x40 == a & 0x40,
        (a | 0x200) & 0x40 == a & 0x40,
        (a & !0x40u32) & 0x40 == 0,
        ((a & !b) | (m & b)) & b == m & b,
        ((a & !b) | (m & b)) & !b == a & !b,
        a & b != 0 ==> (a | 1) & b != 0 && (a | 2) & b != 0 && (a | 4) & b != 0,
        (a | 1) & (1u32 << 0) != 0,
        (a | 2) & (1u32 << 1) != 0,
        (a | 4) & (1u32 << 2) != 0,
        a & 0x3F <= 0x3F,
        b & 0xFFF <= 4095,
        (m >> 16) & 0x7 <= 7,
        (m >> 12) & 0x7 <= 7,
        a & 0x1F < 32,
        (a >> 5) & 0x1F < 32,
        (a >> 10) & 0x1F < 32,
        (a >> 6) & 0xF < 16,
        (a >> 11) & 0xF < 16,
        (a >> 15) & 0x3F < 64,
        a & 0xFFFF_FFF8 <= a,
        a < (a & 0xFFFF_FFF8) + 8,
        ((a & !m) | (b & m)) & !m == a & !m,
        (a | m) & !m == a & !m,
        a & 0x8 == 0 ==> (a & !0x4u32) & (0x4u32 | 0x8u32) == 0,
        (a | 0x8000_0000u32) & 0x8000_0000 != 0 && (a | 0x8000_0000u32) & 0x3F == a & 0x3F,
        (a & 0x13F) & 0x8000_0000 == 0 && 0x1u32 & 0x8000_0000 == 0,
        (a | 0x1_0000) & 0x1 == a & 0x1,
        2u32 & 0x3 == 2 && 2u32 & 2 != 0 && 0u32 & 0x3 == 0 && 0u32 & 2 == 0,
        (a | b) & !b == a & !b && (a ^ b) ^ b == a && (a & !b) | b == a | b,
{
}

/// Facts about the parts of an address.
pub proof fn lemma_address_facts(a: u32)
    by (bit_vector)
    ensures
        a >> 28 == 4 ==> a & 0xFFFF_C000 >= 0x4000_0000,
        (a & 0xFFFF_FFFC) >> 28 == a >> 28,
        (a & 0xFFFF_FFFC) % 4 == 0,
        ((a & 0xFFFF_FFFC) & 0xFFF) % 4 == 0,
        a >> 28 == 2 <==> 0x2000_0000 <= a < 0x3000_0000,
        0xE000_E100 <= a < 0xE000_E420 ==> (a & 0xFFF) % 4 == a % 4,
        a & 0xFFF <= 0xFFF,
        a >> 28 == a / 0x1000_0000,
        a >> 24 == a / 0x100_0000,
        a & 0x00FF_FFFF == a % 0x100_0000,
        a & 0xFFFF_FFFE == a - a % 2,
        (a & 0xFFFF_FFFC) & 0xFFFF_C000 == a & 0xFFFF_C000,
        (a & 0xFFFF_C000) >> 28 == a >> 28,
{
}

/// What setting and clearing bit `i` does to bit `j`.
pub proof fn lemma_set_clear_bit(x: u32, i: u32, j: u32)
    requires
        i < 32,
        j < 32,
    ensures
        ((x | (1u32 << i)) >> j) & 1 == 1 <==> (i == j || (x >> j) & 1 == 1),
        ((x & !(1u32 << i)) >> j) & 1 == 1 <==> (i != j && (x >> j) & 1 == 1),
{
    lemma_bit_ops(x, 0, j, i);
}

/// What masks and shifts make of the empty word.
pub proof fn lemma_empty_word(x: u32, i: u32)
    requires
        i < 32,
    ensures
        0u32 & x == 0,
        x & 0u32 == 0,
        0u32 | 0u32 == 0,
        0u32 >> i == 0,
        (0u32 >> i) & 1 != 1,
{
    lemma_bit_ops(x, 0, i, 0);
}

/// A bitset write followed by a bitclear write of the same mask leaves the
/// mask's bits clear and all others as they were, and two XOR writes of one
/// mask cancel.
pub proof fn law_alias_ports(cur: u32, val: u32)
    ensures
        aliased(aliased(cur, val, 2), val, 3) == cur & !val,
        aliased(aliased(cur, val, 1), val, 1) == cur,
        aliased(aliased(cur, val, 3), val, 2) == cur | val,
{
    lemma_word_facts(cur, val, 0);
}

} // verus!
