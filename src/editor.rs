//! The line-editing rules as functions on plain values.

use vstd::prelude::*;

verus! {

/// Capacity of the raw and the filtered line buffers.
pub const LINE_CAP: usize = 32;

pub const BACKSPACE: u8 = 0x08;

pub const LINE_FEED: u8 = 0x0A;

pub const CARRIAGE_RETURN: u8 = 0x0D;

pub const ESCAPE: u8 = 0x1B;

pub const LEFT_BRACKET: u8 = 0x5B;

pub const SPACE: u8 = 0x20;

pub const KEY_UP: u8 = 0x41;

pub const KEY_DOWN: u8 = 0x42;

/// An ASCII letter or digit.
pub open spec fn is_alnum(b: u8) -> bool {
    (0x30 <= b && b <= 0x39) || (0x41 <= b && b <= 0x5A) || (0x61 <= b && b <= 0x7A)
}

/// Number of ASCII letters and digits in `s`.
pub open spec fn alnum_count(s: Seq<u8>) -> nat
    decreases s.len(),
{
    if s.len() == 0 {
        0
    } else {
        alnum_count(s.drop_last()) + if is_alnum(s.last()) {
            1nat
        } else {
            0nat
        }
    }
}

/// `s` ends with the cursor-key prefix `ESC [`.
pub open spec fn ends_with_csi(s: Seq<u8>) -> bool {
    s.len() >= 2 && s[s.len() - 2] == ESCAPE && s[s.len() - 1] == LEFT_BRACKET
}

/// A newline followed by the prompt.
pub open spec fn prompt_line(prompt: Seq<u8>) -> Seq<u8> {
    seq![CARRIAGE_RETURN, LINE_FEED] + prompt
}

/// `n` backspaces.
pub open spec fn erasure(n: nat) -> Seq<u8> {
    Seq::new(n, |i: int| BACKSPACE)
}

/// What the editor holds: the raw line, the filtered line, the history
/// entries and the recall cursor.
pub struct EditState {
    pub raw: Seq<u8>,
    pub filtered: Seq<u8>,
    pub entries: Seq<Seq<u8>>,
    pub cursor: int,
}

/// A byte typed as itself: kept and echoed while the raw line has room, and
/// then kept in the filtered line too when it is a letter or digit and that
/// has room; dropped without a trace when the raw line is full.
pub open spec fn type_byte(s: EditState, b: u8) -> (EditState, Seq<u8>) {
    let raw = if s.raw.len() < LINE_CAP { s.raw.push(b) } else { s.raw };
    let filtered = if s.raw.len() < LINE_CAP && is_alnum(b) && s.filtered.len() < LINE_CAP {
        s.filtered.push(b)
    } else {
        s.filtered
    };
    let echo = if s.raw.len() < LINE_CAP { seq![b] } else { Seq::<u8>::empty() };
    (EditState { raw, filtered, ..s }, echo)
}

/// Backspace: drops the last raw byte with an erase sequence, if there is
/// one, and the last filtered byte, if there is one.
pub open spec fn backspace(s: EditState) -> (EditState, Seq<u8>) {
    let raw = if s.raw.len() > 0 { s.raw.drop_last() } else { s.raw };
    let filtered = if s.filtered.len() > 0 { s.filtered.drop_last() } else { s.filtered };
    let echo = if s.raw.len() > 0 { seq![BACKSPACE, SPACE, BACKSPACE] } else { Seq::<u8>::empty() };
    (EditState { raw, filtered, ..s }, echo)
}

/// Cursor after an up key: one entry older, floored at the first.
pub open spec fn cursor_up(c: int) -> int {
    if c > 0 { c - 1 } else { 0 }
}

/// Cursor after a down key: one entry newer, capped at the last of `len`.
pub open spec fn cursor_down(c: int, len: int) -> int {
    if c < len - 1 { c + 1 } else { len - 1 }
}

/// Recall: the entry under the cursor replaces both lines and the cursor
/// moves to `to`; the output erases one column per letter or digit of the
/// old raw line, writes a space and then the entry.
pub open spec fn recall(s: EditState, to: int) -> (EditState, Seq<u8>) {
    if s.entries.len() == 0 {
        (s, Seq::<u8>::empty())
    } else {
        let line = s.entries[s.cursor];
        (
            EditState { raw: line, filtered: line, entries: s.entries, cursor: to },
            erasure(alnum_count(s.raw)) + seq![SPACE] + line,
        )
    }
}

/// The new state and the output for one byte other than a carriage return.
pub open spec fn react(s: EditState, prompt: Seq<u8>, b: u8) -> (EditState, Seq<u8>) {
    if b == LINE_FEED {
        (s, prompt_line(prompt))
    } else if b == BACKSPACE {
        backspace(s)
    } else if b == KEY_UP && ends_with_csi(s.raw) {
        recall(s, cursor_up(s.cursor))
    } else if b == KEY_DOWN && ends_with_csi(s.raw) {
        recall(s, cursor_down(s.cursor, s.entries.len() as int))
    } else {
        type_byte(s, b)
    }
}

/// The state after the bytes of `bs`, none a carriage return, one by one.
pub open spec fn react_all(s: EditState, prompt: Seq<u8>, bs: Seq<u8>) -> EditState
    decreases bs.len(),
{
    if bs.len() == 0 {
        s
    } else {
        react(react_all(s, prompt, bs.drop_last()), prompt, bs.last()).0
    }
}

/// The lines cleared, the history kept.
pub open spec fn cleared(s: EditState) -> EditState {
    EditState { raw: Seq::<u8>::empty(), filtered: Seq::<u8>::empty(), ..s }
}

/// Limits that every reachable state keeps.
pub open spec fn state_wf(s: EditState) -> bool {
    &&& s.raw.len() <= LINE_CAP
    &&& s.filtered.len() <= LINE_CAP
    &&& s.entries.len() <= 8
    &&& forall|i: int| 0 <= i < s.entries.len() ==> (#[trigger] s.entries[i]).len() <= LINE_CAP
    &&& if s.entries.len() == 0 { s.cursor == 0 } else { 0 <= s.cursor < s.entries.len() }
}

/// Letters and digits typed on empty lines fill both lines verbatim, up to
/// their capacity, and leave the history as it was.
pub proof fn lemma_type_alnum_line(s: EditState, prompt: Seq<u8>, line: Seq<u8>)
    requires
        s.raw.len() == 0,
        s.filtered.len() == 0,
        line.len() <= LINE_CAP,
        forall|i: int| 0 <= i < line.len() ==> is_alnum(#[trigger] line[i]),
    ensures
        react_all(s, prompt, line).raw == line,
        react_all(s, prompt, line).filtered == line,
        react_all(s, prompt, line).entries == s.entries,
        react_all(s, prompt, line).cursor == s.cursor,
    decreases line.len(),
{
    if line.len() > 0 {
        let init = line.drop_last();
        assert forall|i: int| 0 <= i < init.len() implies is_alnum(#[trigger] init[i]) by {
            assert(init[i] == line[i]);
        }
        lemma_type_alnum_line(s, prompt, init);
        let t = react_all(s, prompt, init);
        let b = line.last();
        assert(is_alnum(line[line.len() - 1]));
        if t.raw.len() >= 2 {
            assert(is_alnum(init[init.len() - 1]));
        }
        assert(!ends_with_csi(t.raw));
        assert(init.push(b) =~= line);
    } else {
        assert(line =~= Seq::<u8>::empty());
        assert(s.raw =~= line);
        assert(s.filtered =~= line);
    }
}

/// Backspace on an empty raw line writes nothing and leaves the raw line empty.
pub proof fn lemma_backspace_on_empty(s: EditState, prompt: Seq<u8>)
    requires
        s.raw.len() == 0,
    ensures
        react(s, prompt, BACKSPACE).1 == Seq::<u8>::empty(),
        react(s, prompt, BACKSPACE).0.raw == Seq::<u8>::empty(),
        react(s, prompt, BACKSPACE).0.entries == s.entries,
{
    assert(s.raw =~= Seq::<u8>::empty());
}

/// The three bytes of the up key: `ESC [ A`.
pub open spec fn up_key(s: EditState, prompt: Seq<u8>) -> EditState {
    react(react(react(s, prompt, ESCAPE).0, prompt, LEFT_BRACKET).0, prompt, KEY_UP).0
}

/// The three bytes of the down key: `ESC [ B`.
pub open spec fn down_key(s: EditState, prompt: Seq<u8>) -> EditState {
    react(react(react(s, prompt, ESCAPE).0, prompt, LEFT_BRACKET).0, prompt, KEY_DOWN).0
}

/// The state after `j` up keys.
pub open spec fn press_up(s: EditState, prompt: Seq<u8>, j: nat) -> EditState
    decreases j,
{
    if j == 0 {
        s
    } else {
        up_key(press_up(s, prompt, (j - 1) as nat), prompt)
    }
}

/// The state after `j` down keys.
pub open spec fn press_down(s: EditState, prompt: Seq<u8>, j: nat) -> EditState
    decreases j,
{
    if j == 0 {
        s
    } else {
        down_key(press_down(s, prompt, (j - 1) as nat), prompt)
    }
}

/// The entries hold at most 30 bytes each, so that `ESC [` still fits
/// behind a recalled line.
pub open spec fn short_entries(entries: Seq<Seq<u8>>) -> bool {
    forall|i: int| 0 <= i < entries.len() ==> (#[trigger] entries[i]).len() <= LINE_CAP - 2
}

/// One up or down key on a raw line with room for `ESC [`: the entry under
/// the cursor fills both lines, and the cursor moves one entry.
pub proof fn lemma_arrow_key(s: EditState, prompt: Seq<u8>)
    requires
        state_wf(s),
        s.entries.len() > 0,
        s.raw.len() <= LINE_CAP - 2,
    ensures
        up_key(s, prompt).raw == s.entries[s.cursor],
        up_key(s, prompt).filtered == s.entries[s.cursor],
        up_key(s, prompt).entries == s.entries,
        up_key(s, prompt).cursor == cursor_up(s.cursor),
        down_key(s, prompt).raw == s.entries[s.cursor],
        down_key(s, prompt).filtered == s.entries[s.cursor],
        down_key(s, prompt).entries == s.entries,
        down_key(s, prompt).cursor == cursor_down(s.cursor, s.entries.len() as int),
{
    let t1 = react(s, prompt, ESCAPE).0;
    let t2 = react(t1, prompt, LEFT_BRACKET).0;
    assert(t1.raw == s.raw.push(ESCAPE));
    assert(t2.raw == t1.raw.push(LEFT_BRACKET));
    assert(ends_with_csi(t2.raw));
}

/// History recall: with lines `L1..Lk` stored (at most 30 bytes each) and the
/// cursor on `Lk`, as submitting them leaves it, the `j`-th up key recalls
/// `L(k-j+1)` and holds at `L1`; from wherever the up keys left the cursor,
/// the `j`-th down key recalls the entry one short of `j` steps newer and
/// holds at `Lk`.
pub proof fn lemma_history_walk(s: EditState, prompt: Seq<u8>, j: nat)
    requires
        state_wf(s),
        s.entries.len() > 0,
        short_entries(s.entries),
        s.raw.len() <= LINE_CAP - 2,
    ensures
        s.cursor == s.entries.len() - 1 && j > 0 ==> {
            let t = press_up(s, prompt, j);
            let i = if s.entries.len() - j >= 0 { s.entries.len() - j } else { 0 };
            &&& t.raw == s.entries[i]
            &&& t.filtered == s.entries[i]
            &&& t.cursor == cursor_up(i)
        },
        j > 0 ==> {
            let t = press_down(s, prompt, j);
            let i = if s.cursor + j - 1 < s.entries.len() - 1 {
                s.cursor + j - 1
            } else {
                s.entries.len() - 1
            };
            &&& t.raw == s.entries[i]
            &&& t.filtered == s.entries[i]
            &&& t.cursor == cursor_down(i, s.entries.len() as int)
        },
    decreases j,
{
    if j > 0 {
        lemma_walk_keeps_shape(s, prompt, (j - 1) as nat);
        lemma_arrow_key(press_up(s, prompt, (j - 1) as nat), prompt);
        lemma_arrow_key(press_down(s, prompt, (j - 1) as nat), prompt);
        if j > 1 {
            lemma_history_walk(s, prompt, (j - 1) as nat);
        }
    }
}

/// Arrow keys keep the entries, a valid cursor and a raw line of at most 30
/// bytes.
proof fn lemma_walk_keeps_shape(s: EditState, prompt: Seq<u8>, j: nat)
    requires
        state_wf(s),
        s.entries.len() > 0,
        short_entries(s.entries),
        s.raw.len() <= LINE_CAP - 2,
    ensures
        state_wf(press_up(s, prompt, j)),
        press_up(s, prompt, j).entries == s.entries,
        press_up(s, prompt, j).raw.len() <= LINE_CAP - 2,
        state_wf(press_down(s, prompt, j)),
        press_down(s, prompt, j).entries == s.entries,
        press_down(s, prompt, j).raw.len() <= LINE_CAP - 2,
    decreases j,
{
    if j > 0 {
        lemma_walk_keeps_shape(s, prompt, (j - 1) as nat);
        let u = press_up(s, prompt, (j - 1) as nat);
        let d = press_down(s, prompt, (j - 1) as nat);
        lemma_arrow_key(u, prompt);
        lemma_arrow_key(d, prompt);
        assert(u.entries[u.cursor].len() <= LINE_CAP - 2);
        assert(d.entries[d.cursor].len() <= LINE_CAP - 2);
    }
}

/// Exec form of `is_alnum`.
pub fn is_ascii_alnum(b: u8) -> (r: bool)
    ensures
        r == is_alnum(b),
{
    (0x30 <= b && b <= 0x39) || (0x41 <= b && b <= 0x5A) || (0x61 <= b && b <= 0x7A)
}

/// Exec form of `alnum_count`.
pub fn count_alnum(s: &Vec<u8>) -> (r: usize)
    ensures
        r as int == alnum_count(s@),
{
    let mut n: usize = 0;
    let mut i: usize = 0;
    while i < s.len()
        invariant
            i <= s@.len(),
            n as int == alnum_count(s@.subrange(0, i as int)),
            n <= i,
        decreases s@.len() - i,
    {
        assert(s@.subrange(0, i + 1).drop_last() =~= s@.subrange(0, i as int));
        if is_ascii_alnum(s[i]) {
            n = n + 1;
        }
        i = i + 1;
    }
    assert(s@.subrange(0, s@.len() as int) =~= s@);
    n
}

} // verus!
