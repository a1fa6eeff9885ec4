//! The ring of previously submitted lines, kept in a `heapless::HistoryBuffer`.

use vstd::prelude::*;

verus! {

#[verifier::external_type_specification]
#[verifier::external_body]
#[verifier::reject_recursive_types(T)]
pub struct ExHistoryBuffer<T, const N: usize>(heapless::HistoryBuffer<T, N>);

/// The lines the buffer holds, oldest first, as `oldest_ordered` hands them out.
pub uninterp spec fn ring_entries(h: heapless::HistoryBuffer<Vec<u8>, 8>) -> Seq<Seq<u8>>;

/// Relies on `HistoryBuffer::new`: a buffer with no slot in use.
#[verifier::external_body]
fn ring_new() -> (r: heapless::HistoryBuffer<Vec<u8>, 8>)
    ensures
        ring_entries(r) == Seq::<Seq<u8>>::empty(),
{
    heapless::HistoryBuffer::new()
}

/// Relies on `HistoryBuffer::len`: the number of slots in use.
#[verifier::external_body]
fn ring_len(h: &heapless::HistoryBuffer<Vec<u8>, 8>) -> (r: usize)
    ensures
        r as int == ring_entries(*h).len(),
        r <= 8,
{
    h.len()
}

/// Relies on `HistoryBuffer::oldest_ordered`: the `i`-th line, oldest first.
#[verifier::external_body]
fn ring_get(h: &heapless::HistoryBuffer<Vec<u8>, 8>, i: usize) -> (r: Vec<u8>)
    requires
        i < ring_entries(*h).len(),
    ensures
        r@ == ring_entries(*h)[i as int],
{
    h.oldest_ordered().nth(i).cloned().unwrap_or_default()
}

/// Relies on `HistoryBuffer::write`: while slots are free the line is
/// added as the newest; once all eight are in use it overwrites the oldest.
#[verifier::external_body]
fn ring_write(h: &mut heapless::HistoryBuffer<Vec<u8>, 8>, line: Vec<u8>)
    ensures
        ring_entries(*final(h)) == ring_after(ring_entries(*old(h)), line@),
{
    h.write(line)
}

/// The lines of a ring of eight, oldest first, after `line` was written.
pub open spec fn ring_after(entries: Seq<Seq<u8>>, line: Seq<u8>) -> Seq<Seq<u8>> {
    if entries.len() < 8 {
        entries.push(line)
    } else {
        entries.drop_first().push(line)
    }
}

/// Submitted lines and the recall cursor.
pub struct History {
    ring: heapless::HistoryBuffer<Vec<u8>, 8>,
    cursor: usize,
}

impl History {
    pub closed spec fn entries(&self) -> Seq<Seq<u8>> {
        ring_entries(self.ring)
    }

    pub closed spec fn cursor(&self) -> int {
        self.cursor as int
    }

    /// Entries hold at most 32 bytes; the cursor points at an entry, or is 0
    /// while there is none.
    pub open spec fn wf(&self) -> bool {
        &&& self.entries().len() <= 8
        &&& forall|i: int| 0 <= i < self.entries().len() ==> (#[trigger] self.entries()[i]).len() <= 32
        &&& if self.entries().len() == 0 { self.cursor() == 0 } else { 0 <= self.cursor() < self.entries().len() }
    }

    pub fn new() -> (r: History)
        ensures
            r.wf(),
            r.entries() == Seq::<Seq<u8>>::empty(),
            r.cursor() == 0,
    {
        History { ring: ring_new(), cursor: 0 }
    }

    pub fn len(&self) -> (r: usize)
        ensures
            r as int == self.entries().len(),
    {
        ring_len(&self.ring)
    }

    /// Index of the entry that the next recall hands out.
    pub fn cursor_index(&self) -> (r: usize)
        ensures
            r as int == self.cursor(),
    {
        self.cursor
    }

    /// The entry at index `i`.
    pub fn get(&self, i: usize) -> (r: Vec<u8>)
        requires
            i < self.entries().len(),
        ensures
            r@ == self.entries()[i as int],
    {
        ring_get(&self.ring, i)
    }

    /// Points the cursor at entry `i`.
    pub fn move_to(&mut self, i: usize)
        requires
            old(self).wf(),
            i < old(self).entries().len(),
        ensures
            final(self).wf(),
            final(self).entries() == old(self).entries(),
            final(self).cursor() == i,
    {
        self.cursor = i;
    }

    /// Stores `line` as the newest entry and points the cursor at it.
    pub fn push(&mut self, line: Vec<u8>)
        requires
            old(self).wf(),
            line@.len() <= 32,
        ensures
            final(self).wf(),
            final(self).entries() == ring_after(old(self).entries(), line@),
            final(self).cursor() == final(self).entries().len() - 1,
    {
        let ghost seen = line@;
        ring_write(&mut self.ring, line);
        let n = ring_len(&self.ring);
        self.cursor = n - 1;
        assert forall|i: int| 0 <= i < self.entries().len() implies (#[trigger] self.entries()[i]).len() <= 32 by {
            if i < self.entries().len() - 1 {
                if old(self).entries().len() >= 8 {
                    assert(self.entries()[i] == old(self).entries()[i + 1]);
                } else {
                    assert(self.entries()[i] == old(self).entries()[i]);
                }
            }
        }
    }
}

} // verus!
