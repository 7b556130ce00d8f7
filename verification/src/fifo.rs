//! A small first-in first-out queue of words, held in a ring of sixteen
//! slots. How many entries a queue takes is up to each push.
use vstd::array::{spec_array_fill_for_copy_type, spec_array_update};
use vstd::prelude::*;

verus! {

#[derive(Clone, Copy, Debug, PartialEq, Eq)]
pub struct Fifo {
    pub slots: [u32; 16],
    pub head: u8,
    pub count: u8,
}

impl Fifo {
    pub open spec fn empty() -> Fifo {
        Fifo { slots: spec_array_fill_for_copy_type::<u32, 16>(0), head: 0, count: 0 }
    }

    /// The queued words, oldest first.
    pub open spec fn items(self) -> Seq<u32> {
        Seq::new(self.count as nat, |i: int| self.slots[(self.head + i) % 16])
    }

    /// The queue after a push into a queue that takes `cap` entries; a full
    /// queue drops the word.
    pub open spec fn pushed(self, v: u32, cap: u8) -> Fifo {
        if self.count < cap && self.count < 16 {
            Fifo {
                slots: spec_array_update(self.slots, (self.head + self.count) % 16, v),
                head: self.head,
                count: (self.count + 1) as u8,
            }
        } else {
            self
        }
    }

    /// The queue without its `n` oldest words.
    pub open spec fn dropped(self, n: u8) -> Fifo {
        if n >= self.count {
            Fifo { head: ((self.head + self.count) % 16) as u8, count: 0, ..self }
        } else {
            Fifo { head: ((self.head + n) % 16) as u8, count: (self.count - n) as u8, ..self }
        }
    }

    /// The queue cut down to its `n` oldest words.
    pub open spec fn truncated(self, n: u8) -> Fifo {
        if n < self.count {
            Fifo { count: n, ..self }
        } else {
            self
        }
    }

    /// The oldest word; zero when there is none.
    pub open spec fn front(self) -> u32 {
        if self.count == 0 {
            0
        } else {
            self.slots[(self.head % 16) as int]
        }
    }

    pub fn new() -> (f: Fifo)
        ensures
            f == Fifo::empty(),
    {
        Fifo { slots: [0;16], head: 0, count: 0 }
    }

    pub fn len(&self) -> (n: usize)
        ensures
            n == self.count,
            n == self.items().len(),
    {
        self.count as usize
    }

    pub fn is_empty(&self) -> (out: bool)
        ensures
            out == (self.count == 0),
    {
        self.count == 0
    }

    pub fn push(&mut self, v: u32, cap: u8)
        ensures
            *final(self) == old(self).pushed(v, cap),
    {
        if self.count < cap && self.count < 16 {
            let at: usize = (self.head as usize + self.count as usize) % 16;
            self.slots[at] = v;
            self.count = self.count + 1;
        }
    }

    pub fn drop_front(&mut self, n: u8)
        ensures
            *final(self) == old(self).dropped(n),
    {
        if n >= self.count {
            self.head = ((self.head as u32 + self.count as u32) % 16) as u8;
            self.count = 0;
        } else {
            self.head = ((self.head as u32 + n as u32) % 16) as u8;
            self.count = self.count - n;
        }
    }

    pub fn truncate(&mut self, n: u8)
        ensures
            *final(self) == old(self).truncated(n),
    {
        if n < self.count {
            self.count = n;
        }
    }

    pub fn peek(&self) -> (v: u32)
        ensures
            v == self.front(),
    {
        if self.count == 0 {
            0
        } else {
            self.slots[(self.head % 16) as usize]
        }
    }

    /// Takes the oldest word, if there is one.
    pub fn pop(&mut self) -> (out: Option<u32>)
        ensures
            out == (if old(self).count == 0 {
                None
            } else {
                Some(old(self).front())
            }),
            *final(self) == (if old(self).count == 0 {
                *old(self)
            } else {
                old(self).dropped(1)
            }),
    {
        if self.count == 0 {
            None
        } else {
            let v: u32 = self.peek();
            self.drop_front(1);
            Some(v)
        }
    }
}

/// A place in the ring, counted from one that was wrapped.
proof fn lemma_wrapped(a: int, i: int)
    ensures
        ((a % 16) + i) % 16 == (a + i) % 16,
{
}

/// Places in the ring that are less than a turn apart are different.
proof fn lemma_apart(a: int, i: int, j: int)
    requires
        i < j < i + 16,
    ensures
        (a + i) % 16 != (a + j) % 16,
{
}

/// A push with room appends its word; without room it changes nothing.
#[verifier::rlimit(40)]
pub proof fn law_fifo_push_appends(f: Fifo, v: u32, cap: u8)
    requires
        f.count <= 16,
        cap <= 16,
    ensures
        f.count < cap ==> f.pushed(v, cap).items() == f.items().push(v),
        f.count >= cap ==> f.pushed(v, cap).items() == f.items(),
        f.pushed(v, cap).count <= 16,
{
    if f.count < cap {
        let g = f.pushed(v, cap);
        assert forall|i: int| 0 <= i < g.count implies g.items()[i] == f.items().push(v)[i] by {
            if i < f.count {
                lemma_apart(f.head as int, i, f.count as int);
            }
        }
        assert(g.items() =~= f.items().push(v));
    }
}

/// Dropping from the front removes the oldest words and keeps the order of
/// the rest, so words leave in the order in which they were pushed.
#[verifier::rlimit(40)]
pub proof fn law_fifo_drop_front(f: Fifo, n: u8)
    requires
        n <= f.count <= 16,
    ensures
        f.dropped(n).items() == f.items().skip(n as int),
        f.count > 0 ==> f.front() == f.items()[0],
{
    let g = f.dropped(n);
    if n < f.count {
        assert forall|i: int| 0 <= i < g.count implies g.items()[i] == f.items().skip(n as int)[i] by {
            lemma_wrapped(f.head + n, i);
            assert(g.head == (f.head + n) % 16);
            assert((g.head + i) % 16 == (f.head + (n + i)) % 16);
        }
    }
    assert(g.items() =~= f.items().skip(n as int));
}

/// Dropping words in two goes is dropping them in one.
pub proof fn law_fifo_drops_add_up(f: Fifo, a: u8, b: u8)
    requires
        a + b <= 255,
    ensures
        f.dropped(a).dropped(b) == f.dropped((a + b) as u8),
{
    let h = f.head as int;
    if a >= f.count {
        lemma_wrap(h, f.count as int, 0);
    } else if a + b >= f.count {
        lemma_wrap(h, a as int, f.count - a);
    } else {
        lemma_wrap(h, a as int, b as int);
    }
}

proof fn lemma_wrap(h: int, a: int, b: int)
    requires
        0 <= h,
        0 <= a,
        0 <= b,
    ensures
        ((h + a) % 16 + b) % 16 == (h + a + b) % 16,
{
}

} // verus!
