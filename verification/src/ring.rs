//! Single-producer single-consumer ring from the keyboard hook to the worker:
//! sixteen FIFO slots of command bytes, no heap.
//!
//! The head and tail are free-running `u32` sequence numbers that wrap; the
//! slot of sequence number `s` is `s % 16`, and the number of queued bytes is
//! `head - tail` taken modulo 2^32.

use vstd::prelude::*;

verus! {

/// Number of slots in the ring.
pub const RING_BUFFER_CAPACITY: usize = 16;

/// The fixed-capacity command ring.
pub struct CommandRing {
    slots: [u8; 16],
    head: u32,
    tail: u32,
}

/// The sequence number `k` steps after `seq`, wrapping at 2^32.
pub open spec fn advance(seq: u32, k: int) -> u32 {
    ((seq as int + k) % 0x1_0000_0000) as u32
}

impl CommandRing {
    /// Number of queued bytes: `head - tail` modulo 2^32.
    pub closed spec fn queued(&self) -> int {
        (self.head as int - self.tail as int) % 0x1_0000_0000
    }

    /// The ring never holds more than its capacity.
    pub closed spec fn wf(&self) -> bool {
        self.queued() <= 16
    }

    /// The queued bytes, oldest first.
    pub closed spec fn contents(&self) -> Seq<u8> {
        Seq::new(self.queued() as nat, |k: int| self.slots@[(advance(self.tail, k) % 16) as int])
    }

    /// An empty ring.
    pub fn new() -> (r: Self)
        ensures
            r.wf(),
            r.contents() == Seq::<u8>::empty(),
    {
        let r = CommandRing { slots: [0u8; 16], head: 0, tail: 0 };
        assert(r.contents() =~= Seq::<u8>::empty());
        r
    }
}

impl View for CommandRing {
    type V = Seq<u8>;

    open spec fn view(&self) -> Seq<u8> {
        self.contents()
    }
}

proof fn lemma_slots_distinct(t: u32, k: int, l: int)
    requires
        0 <= k < l < 16,
    ensures
        advance(t, k) % 16 != advance(t, l) % 16,
{
}

proof fn lemma_head_is_tail_advanced(head: u32, tail: u32)
    ensures
        head == advance(tail, (head as int - tail as int) % 0x1_0000_0000),
{
}

proof fn lemma_advance_step(t: u32, k: int)
    requires
        0 <= k,
    ensures
        advance(advance(t, 1), k) == advance(t, k + 1),
{
}

/// Producer: append one command byte. Returns `false`, leaving the ring
/// unchanged, when all sixteen slots hold unread bytes.
pub fn push(ring: &mut CommandRing, value: u8) -> (ok: bool)
    requires
        old(ring).wf(),
    ensures
        final(ring).wf(),
        ok == (old(ring)@.len() < RING_BUFFER_CAPACITY),
        ok ==> final(ring)@ == old(ring)@.push(value),
        !ok ==> final(ring)@ == old(ring)@,
{
    let head = ring.head;
    let tail = ring.tail;
    let used = head.wrapping_sub(tail);
    assert(used as int == ring.queued());
    if used >= 16 {
        return false;
    }
    let ghost before = ring@;
    let idx = (head % 16) as usize;
    ring.slots.set(idx, value);
    ring.head = head.wrapping_add(1);
    proof {
        lemma_head_is_tail_advanced(head, tail);
        assert(ring.queued() == used + 1);
        assert forall|k: int| 0 <= k < used implies #[trigger] ring@[k] == before[k] by {
            lemma_slots_distinct(tail, k, used as int);
        }
        assert(ring@ =~= before.push(value));
    }
    true
}

/// Consumer: remove and return the oldest command byte, or `None` when the
/// ring is empty.
pub fn pop(ring: &mut CommandRing) -> (r: Option<u8>)
    requires
        old(ring).wf(),
    ensures
        final(ring).wf(),
        old(ring)@.len() == 0 ==> r is None && final(ring)@ == old(ring)@,
        old(ring)@.len() > 0 ==> r == Some(old(ring)@[0]) && final(ring)@ == old(ring)@.drop_first(),
{
    let tail = ring.tail;
    let head = ring.head;
    if tail == head {
        return None;
    }
    let ghost before = ring@;
    let idx = (tail % 16) as usize;
    let value = ring.slots[idx];
    ring.tail = tail.wrapping_add(1);
    proof {
        assert(advance(tail, 0) == tail);
        assert(ring.queued() == before.len() - 1);
        assert forall|k: int| 0 <= k < before.len() - 1 implies #[trigger] ring@[k] == before[k
            + 1] by {
            lemma_advance_step(tail, k);
        }
        assert(ring@ =~= before.drop_first());
    }
    Some(value)
}

} // verus!
