//! The text form of the access trace.
use vstd::prelude::*;

use crate::bus::TraceEntry;

verus! {

/// A hexadecimal digit as a character.
pub open spec fn digit(n: int) -> u8 {
    (if n < 10 {
        0x30 + n
    } else {
        0x37 + n
    }) as u8
}

/// The lowest `n` hexadecimal digits of a number, the highest first.
pub open spec fn digits(x: int, n: nat) -> Seq<u8>
    decreases n,
{
    if n == 0 {
        Seq::empty()
    } else {
        digits(x / 16, (n - 1) as nat).push(digit(x % 16))
    }
}

impl TraceEntry {
    /// The line that reports an access: its direction, its width in bytes,
    /// the address and the value.
    pub open spec fn text(self) -> Seq<u8> {
        seq![0x54u8, 0x52, 0x41, 0x43, 0x45, 0x20].push(
            if self.write {
                0x57
            } else {
                0x52
            },
        ).push(0x20).push(digit(self.width.bytes() as int)).push(0x20) + digits(self.addr as int, 8)
            + seq![0x20u8] + digits(self.value as int, 8) + seq![0x0Au8]
    }

    /// Writes the line that reports this access.
    pub fn line(&self) -> (out: Vec<u8>)
        ensures
            out@ == self.text(),
    {
        let mut out: Vec<u8> = vec![0x54, 0x52, 0x41, 0x43, 0x45, 0x20];
        out.push(
            if self.write {
                0x57
            } else {
                0x52
            },
        );
        out.push(0x20);
        out.push(digit_of(self.width.len() as u32));
        out.push(0x20);
        let ghost head = out@;
        assert(head == seq![0x54u8, 0x52, 0x41, 0x43, 0x45, 0x20].push(
            if self.write {
                0x57
            } else {
                0x52
            },
        ).push(0x20).push(digit(self.width.bytes() as int)).push(0x20));
        put_digits(&mut out, self.addr);
        out.push(0x20);
        put_digits(&mut out, self.value);
        out.push(0x0A);
        assert(out@ == self.text());
        out
    }
}

fn digit_of(n: u32) -> (c: u8)
    requires
        n < 16,
    ensures
        c == digit(n as int),
{
    if n < 10 {
        0x30 + n as u8
    } else {
        0x37 + n as u8
    }
}

/// Appends the eight digits of a word.
fn put_digits(out: &mut Vec<u8>, x: u32)
    ensures
        final(out)@ == old(out)@ + digits(x as int, 8),
{
    let ghost before = out@;
    reveal_with_fuel(digits, 9);
    out.push(digit_of(x / 0x1000_0000 % 16));
    out.push(digit_of(x / 0x100_0000 % 16));
    out.push(digit_of(x / 0x10_0000 % 16));
    out.push(digit_of(x / 0x1_0000 % 16));
    out.push(digit_of(x / 0x1000 % 16));
    out.push(digit_of(x / 0x100 % 16));
    out.push(digit_of(x / 0x10 % 16));
    out.push(digit_of(x % 16));
    assert(out@ == before + digits(x as int, 8));
}

} // verus!
