//! The shell session: line buffers, history, registry and the byte handler.

use vstd::prelude::*;

use crate::editor::{
    alnum_count, backspace, cleared, count_alnum, cursor_down, cursor_up, ends_with_csi,
    erasure, is_alnum, is_ascii_alnum, lemma_type_alnum_line, prompt_line, react, react_all,
    recall, type_byte, EditState, BACKSPACE, CARRIAGE_RETURN, ESCAPE, KEY_DOWN, KEY_UP,
    LEFT_BRACKET, LINE_CAP, LINE_FEED, SPACE,
};
use crate::history::{ring_after, History};
use crate::io::{CommandProcessorError, Handler, ReadFault, ReturnCode, Transport};
use crate::registry::{add_error, added, remove_error, string_bytes, Command, Registry};

verus! {

/// Errors that a session step reports.
#[derive(PartialEq, Eq, Structural, Clone, Copy, Debug)]
pub enum CliError {
    /// The submitted line names no registered command.
    CommandNotFound,
    /// The handler of the submitted line reported this error.
    CommandProcessorError(CommandProcessorError),
    /// The transport failed on a read; the line in progress is kept.
    ReadError,
    /// The transport failed on a write.
    WriteError,
}

/// What a finished step hands back: `Ok(None)` when no byte was waiting,
/// `Ok(Some(code))` for a dispatched line.
pub type RunResult = Result<Option<ReturnCode>, CliError>;

/// The prompt the shell starts with: `cli> `.
pub open spec fn default_prompt() -> Seq<u8> {
    seq![0x63u8, 0x6Cu8, 0x69u8, 0x3Eu8, 0x20u8]
}

/// After a carriage return: `r` and `new` are what submitting the line of
/// `old` can leave. Either the first prompt failed and the lines were
/// cleared, or the filtered line went in the history as its newest entry,
/// the cursor points at it, the lines were cleared and, unless the last
/// prompt failed, `CommandNotFound` came back exactly when no command has
/// that name.
pub open spec fn submitted(old: EditState, names: Seq<Seq<u8>>, new: EditState, r: RunResult) -> bool {
    &&& r != Ok::<Option<ReturnCode>, CliError>(None)
    &&& r != Err::<Option<ReturnCode>, CliError>(CliError::ReadError)
    &&& {
        ||| r == Err::<Option<ReturnCode>, CliError>(CliError::WriteError) && new == cleared(old)
        ||| {
            &&& new.raw == Seq::<u8>::empty()
            &&& new.filtered == Seq::<u8>::empty()
            &&& new.entries == ring_after(old.entries, old.filtered)
            &&& new.cursor == new.entries.len() - 1
            &&& r != Err::<Option<ReturnCode>, CliError>(CliError::WriteError) ==> (r == Err::<
                Option<ReturnCode>,
                CliError,
            >(CliError::CommandNotFound) <==> !names.contains(old.filtered))
        }
    }
}

/// The outcome of a step that read no byte.
pub open spec fn read_fault_result(f: ReadFault) -> RunResult {
    match f {
        ReadFault::NoData => Ok(None),
        ReadFault::Failed => Err(CliError::ReadError),
    }
}

/// Exec form of `read_fault_result`.
pub fn read_outcome(f: ReadFault) -> (r: RunResult)
    ensures
        r == read_fault_result(f),
{
    match f {
        ReadFault::NoData => Ok(None),
        ReadFault::Failed => Err(CliError::ReadError),
    }
}

/// One byte handled: a carriage return submits the line; any other byte
/// changes the state as `react` says and, when its echo is not empty and
/// could not be written, the lines are cleared and `WriteError` comes back.
pub open spec fn handled(
    old: EditState,
    prompt: Seq<u8>,
    names: Seq<Seq<u8>>,
    byte: u8,
    new: EditState,
    r: Option<RunResult>,
) -> bool {
    if byte == CARRIAGE_RETURN {
        r matches Some(res) && submitted(old, names, new, res)
    } else {
        let (next, echo) = react(old, prompt, byte);
        ||| r is None && new == next
        ||| echo.len() > 0 && r == Some(Err::<Option<ReturnCode>, CliError>(CliError::WriteError))
            && new == cleared(next)
    }
}

/// A line of up to 32 letters and digits typed on empty lines, then a
/// carriage return: the dispatch key is that line exactly, and (but for a
/// prompt that could not be written) `CommandNotFound` comes back exactly
/// when no command has that name. Whatever the outcome the session goes on,
/// with empty lines and the line as the newest history entry.
pub proof fn lemma_alnum_line_dispatch(
    s: EditState,
    prompt: Seq<u8>,
    names: Seq<Seq<u8>>,
    line: Seq<u8>,
    new: EditState,
    r: Option<RunResult>,
)
    requires
        s.raw.len() == 0,
        s.filtered.len() == 0,
        line.len() <= LINE_CAP,
        forall|i: int| 0 <= i < line.len() ==> is_alnum(#[trigger] line[i]),
        handled(react_all(s, prompt, line), prompt, names, CARRIAGE_RETURN, new, r),
    ensures
        react_all(s, prompt, line).filtered == line,
        r matches Some(res) && (res != Err::<Option<ReturnCode>, CliError>(CliError::WriteError) ==> {
            &&& new.raw == Seq::<u8>::empty()
            &&& new.filtered == Seq::<u8>::empty()
            &&& new.entries == ring_after(s.entries, line)
            &&& (res == Err::<Option<ReturnCode>, CliError>(CliError::CommandNotFound) <==> !names.contains(
                line,
            ))
        }),
{
    lemma_type_alnum_line(s, prompt, line);
}

/// Submitting a line while the history has a free slot, unless a prompt
/// could not be written: the line is appended as the newest entry, the
/// cursor points at it and both lines are empty, ready for the up key.
pub proof fn lemma_submit_appends(old: EditState, names: Seq<Seq<u8>>, new: EditState, r: RunResult)
    requires
        old.entries.len() < 8,
        submitted(old, names, new, r),
        r != Err::<Option<ReturnCode>, CliError>(CliError::WriteError),
    ensures
        new.entries == old.entries.push(old.filtered),
        new.cursor == old.entries.len(),
        new.raw.len() == 0,
{
}

/// Where an up (`up`) or down key moves the cursor.
pub open spec fn arrow_target(s: EditState, up: bool) -> int {
    if up {
        cursor_up(s.cursor)
    } else {
        cursor_down(s.cursor, s.entries.len() as int)
    }
}

/// A copy of `v`.
pub fn copy_bytes(v: &Vec<u8>) -> (r: Vec<u8>)
    ensures
        r@ == v@,
{
    let mut r: Vec<u8> = Vec::new();
    let mut i: usize = 0;
    while i < v.len()
        invariant
            i <= v@.len(),
            r@ == v@.subrange(0, i as int),
        decreases v@.len() - i,
    {
        r.push(v[i]);
        assert(r@ =~= v@.subrange(0, i + 1));
        i = i + 1;
    }
    assert(v@.subrange(0, v@.len() as int) =~= v@);
    r
}

/// An interactive shell over a serial transport, with up to `NUM_COMMANDS`
/// commands whose help texts hold up to `HELP_STR_SIZE` bytes.
pub struct Cli<H, const NUM_COMMANDS: usize, const HELP_STR_SIZE: usize> {
    command_processor: Registry<H, NUM_COMMANDS, HELP_STR_SIZE>,
    prompt: Vec<u8>,
    read_buffer: Vec<u8>,
    command_buffer: Vec<u8>,
    history: History,
}

impl<H, const NUM_COMMANDS: usize, const HELP_STR_SIZE: usize> Cli<H, NUM_COMMANDS, HELP_STR_SIZE> {
    /// The editing state.
    pub closed spec fn state(&self) -> EditState {
        EditState {
            raw: self.read_buffer@,
            filtered: self.command_buffer@,
            entries: self.history.entries(),
            cursor: self.history.cursor(),
        }
    }

    pub closed spec fn prompt(&self) -> Seq<u8> {
        self.prompt@
    }

    /// The registered commands, in order of addition.
    pub closed spec fn commands(&self) -> Seq<Command<H, HELP_STR_SIZE>> {
        self.command_processor.commands()
    }

    /// The names of the registered commands.
    pub open spec fn names(&self) -> Seq<Seq<u8>> {
        self.commands().map_values(|c: Command<H, HELP_STR_SIZE>| c.name@)
    }

    pub closed spec fn wf(&self) -> bool {
        &&& self.read_buffer@.len() <= LINE_CAP
        &&& self.command_buffer@.len() <= LINE_CAP
        &&& self.history.wf()
        &&& self.command_processor.wf()
    }

    /// A session with no command, empty lines and history, and the prompt `cli> `.
    pub fn new() -> (r: Self)
        ensures
            r.wf(),
            r.state() == (EditState {
                raw: Seq::<u8>::empty(),
                filtered: Seq::<u8>::empty(),
                entries: Seq::<Seq<u8>>::empty(),
                cursor: 0,
            }),
            r.prompt() == default_prompt(),
            r.commands() == Seq::<Command<H, HELP_STR_SIZE>>::empty(),
    {
        let prompt: Vec<u8> = vec![0x63u8, 0x6Cu8, 0x69u8, 0x3Eu8, 0x20u8];
        assert(prompt@ =~= default_prompt());
        let r = Cli {
            command_processor: Registry::new(),
            prompt,
            read_buffer: Vec::new(),
            command_buffer: Vec::new(),
            history: History::new(),
        };
        assert(r.state().raw =~= Seq::<u8>::empty());
        assert(r.state().filtered =~= Seq::<u8>::empty());
        r
    }

    /// Registers a command; see `Registry::add_command`.
    pub fn add_command(
        &mut self,
        command: heapless::String<32>,
        callback: H,
        help: Option<heapless::String<HELP_STR_SIZE>>,
    ) -> (r: Result<(), CommandProcessorError>)
        requires
            old(self).wf(),
        ensures
            final(self).wf(),
            final(self).state() == old(self).state(),
            final(self).prompt() == old(self).prompt(),
            match add_error(old(self).names(), NUM_COMMANDS as nat, string_bytes(command)) {
                Some(e) => r == Err::<(), CommandProcessorError>(e) && *final(self) == *old(self),
                None => r is Ok && added(
                    old(self).commands(),
                    final(self).commands(),
                    string_bytes(command),
                    callback,
                    help,
                ),
            },
    {
        self.command_processor.add_command(command, callback, help)
    }

    /// Removes a command; see `Registry::remove_command`.
    pub fn remove_command(&mut self, command: heapless::String<32>) -> (r: Result<
        (),
        CommandProcessorError,
    >)
        requires
            old(self).wf(),
        ensures
            final(self).wf(),
            final(self).state() == old(self).state(),
            final(self).prompt() == old(self).prompt(),
            match remove_error(old(self).names(), string_bytes(command)) {
                Some(e) => r == Err::<(), CommandProcessorError>(e) && *final(self) == *old(self),
                None => r is Ok && exists|i: int|
                    0 <= i < old(self).names().len() && old(self).names()[i] == string_bytes(command)
                        && final(self).commands() == old(self).commands().remove(i),
            },
            !final(self).names().contains(string_bytes(command)),
    {
        self.command_processor.remove_command(command)
    }

    /// A newline followed by the prompt.
    pub fn greeting(&self) -> (r: Vec<u8>)
        ensures
            r@ == prompt_line(self.prompt()),
    {
        let mut r: Vec<u8> = vec![CARRIAGE_RETURN, LINE_FEED];
        let mut i: usize = 0;
        while i < self.prompt.len()
            invariant
                i <= self.prompt@.len(),
                r@ == seq![CARRIAGE_RETURN, LINE_FEED] + self.prompt@.subrange(0, i as int),
            decreases self.prompt@.len() - i,
        {
            r.push(self.prompt[i]);
            assert(r@ =~= seq![CARRIAGE_RETURN, LINE_FEED] + self.prompt@.subrange(0, i + 1));
            i = i + 1;
        }
        assert(self.prompt@.subrange(0, self.prompt@.len() as int) =~= self.prompt@);
        r
    }

    /// Starts the session: writes a newline and the prompt.
    pub fn init<T: Transport>(&mut self, serial: &mut T) -> (r: Result<(), CliError>)
        requires
            old(self).wf(),
        ensures
            *final(self) == *old(self),
            r is Err ==> r == Err::<(), CliError>(CliError::WriteError),
    {
        let line = self.greeting();
        match serial.write_text(line.as_slice()) {
            Ok(()) => Ok(()),
            Err(()) => Err(CliError::WriteError),
        }
    }

    /// Empties both line buffers.
    fn clear_line(&mut self)
        requires
            old(self).wf(),
        ensures
            final(self).wf(),
            final(self).state() == cleared(old(self).state()),
            final(self).prompt() == old(self).prompt(),
            final(self).commands() == old(self).commands(),
    {
        self.read_buffer.clear();
        self.command_buffer.clear();
        assert(self.state() =~= cleared(old(self).state()));
    }

    /// A byte typed as itself; returns its echo.
    fn handle_default_byte(&mut self, byte: u8) -> (out: Vec<u8>)
        requires
            old(self).wf(),
        ensures
            final(self).wf(),
            final(self).prompt() == old(self).prompt(),
            final(self).commands() == old(self).commands(),
            final(self).state() == type_byte(old(self).state(), byte).0,
            out@ == type_byte(old(self).state(), byte).1,
    {
        let mut out: Vec<u8> = Vec::new();
        if self.read_buffer.len() < LINE_CAP {
            self.read_buffer.push(byte);
            out.push(byte);
            if is_ascii_alnum(byte) && self.command_buffer.len() < LINE_CAP {
                self.command_buffer.push(byte);
            }
        }
        assert(out@ =~= type_byte(old(self).state(), byte).1);
        assert(self.state() =~= type_byte(old(self).state(), byte).0);
        out
    }

    /// Backspace; returns the erase sequence, if any.
    fn handle_backspace(&mut self) -> (out: Vec<u8>)
        requires
            old(self).wf(),
        ensures
            final(self).wf(),
            final(self).prompt() == old(self).prompt(),
            final(self).commands() == old(self).commands(),
            final(self).state() == backspace(old(self).state()).0,
            out@ == backspace(old(self).state()).1,
    {
        let mut out: Vec<u8> = Vec::new();
        if self.read_buffer.pop().is_some() {
            out = vec![BACKSPACE, SPACE, BACKSPACE];
        }
        self.command_buffer.pop();
        assert(out@ =~= backspace(old(self).state()).1);
        assert(self.state() =~= backspace(old(self).state()).0);
        out
    }

    /// An up (`up`) or down key: recalls the entry under the cursor and moves
    /// the cursor one entry older or newer; returns the erase-and-redraw
    /// output. Nothing happens while the history is empty.
    fn handle_history(&mut self, up: bool) -> (out: Vec<u8>)
        requires
            old(self).wf(),
        ensures
            final(self).wf(),
            final(self).prompt() == old(self).prompt(),
            final(self).commands() == old(self).commands(),
            final(self).state() == recall(old(self).state(), arrow_target(old(self).state(), up)).0,
            out@ == recall(old(self).state(), arrow_target(old(self).state(), up)).1,
    {
        let len = self.history.len();
        if len == 0 {
            return Vec::new();
        }
        let cur = self.history.cursor_index();
        let new_idx = if up {
            if cur > 0 {
                cur - 1
            } else {
                0
            }
        } else {
            if cur < len - 1 {
                cur + 1
            } else {
                len - 1
            }
        };
        let prev = self.history.get(cur);
        self.history.move_to(new_idx);
        let n = count_alnum(&self.read_buffer);
        let mut out: Vec<u8> = Vec::new();
        let mut i: usize = 0;
        while i < n
            invariant
                i <= n,
                out@ == erasure(i as nat),
            decreases n - i,
        {
            out.push(BACKSPACE);
            assert(out@ =~= erasure((i + 1) as nat));
            i = i + 1;
        }
        out.push(SPACE);
        let ghost head = out@;
        let mut j: usize = 0;
        while j < prev.len()
            invariant
                j <= prev@.len(),
                out@ == head + prev@.subrange(0, j as int),
            decreases prev@.len() - j,
        {
            out.push(prev[j]);
            assert(out@ =~= head + prev@.subrange(0, j + 1));
            j = j + 1;
        }
        assert(prev@.subrange(0, prev@.len() as int) =~= prev@);
        assert(head =~= erasure(alnum_count(old(self).read_buffer@)) + seq![SPACE]);
        self.read_buffer = copy_bytes(&prev);
        self.command_buffer = prev;
        out
    }

    /// Handles one byte other than a carriage return: updates the lines or
    /// the history cursor and returns what to echo.
    pub fn feed(&mut self, byte: u8) -> (out: Vec<u8>)
        requires
            old(self).wf(),
            byte != CARRIAGE_RETURN,
        ensures
            final(self).wf(),
            final(self).prompt() == old(self).prompt(),
            final(self).commands() == old(self).commands(),
            final(self).state() == react(old(self).state(), old(self).prompt(), byte).0,
            out@ == react(old(self).state(), old(self).prompt(), byte).1,
    {
        if byte == LINE_FEED {
            return self.greeting();
        }
        if byte == BACKSPACE {
            return self.handle_backspace();
        }
        let n = self.read_buffer.len();
        let csi = n >= 2 && self.read_buffer[n - 2] == ESCAPE && self.read_buffer[n - 1] == LEFT_BRACKET;
        assert(csi == ends_with_csi(self.state().raw));
        if (byte == KEY_UP || byte == KEY_DOWN) && csi {
            return self.handle_history(byte == KEY_UP);
        }
        self.handle_default_byte(byte)
    }

    /// A carriage return: writes the prompt line, dispatches the filtered
    /// line with `serial` as the handler's output, stores it in the history,
    /// writes the prompt line again and clears both lines.
    fn submit<T: Transport>(&mut self, serial: &mut T) -> (r: RunResult)
        where
            H: Handler,
        requires
            old(self).wf(),
        ensures
            final(self).wf(),
            final(self).prompt() == old(self).prompt(),
            final(self).commands() == old(self).commands(),
            submitted(old(self).state(), old(self).names(), final(self).state(), r),
    {
        let line = self.greeting();
        if serial.write_text(line.as_slice()).is_err() {
            self.clear_line();
            return Err(CliError::WriteError);
        }
        let d = self.command_processor.process_command(&self.command_buffer, serial);
        let snapshot = copy_bytes(&self.command_buffer);
        self.history.push(snapshot);
        let r = match d {
            Err(_) => Err(CliError::CommandNotFound),
            Ok(Ok(c)) => Ok(Some(c)),
            Ok(Err(e)) => Err(CliError::CommandProcessorError(e)),
        };
        let w = serial.write_text(line.as_slice());
        self.clear_line();
        if w.is_err() {
            return Err(CliError::WriteError);
        }
        r
    }

    /// Handles one byte that came from `serial`. `None`: the line goes on.
    /// `Some(r)`: the step is over with outcome `r`.
    pub fn handle_byte<T: Transport>(&mut self, serial: &mut T, byte: u8) -> (r: Option<RunResult>)
        where
            H: Handler,
        requires
            old(self).wf(),
        ensures
            final(self).wf(),
            final(self).prompt() == old(self).prompt(),
            final(self).commands() == old(self).commands(),
            handled(old(self).state(), old(self).prompt(), old(self).names(), byte, final(self).state(), r),
    {
        if byte == CARRIAGE_RETURN {
            return Some(self.submit(serial));
        }
        let out = self.feed(byte);
        if out.len() > 0 && serial.write_text(out.as_slice()).is_err() {
            self.clear_line();
            return Some(Err(CliError::WriteError));
        }
        None
    }

    /// Reads one byte from `serial` and handles it. With no byte waiting it
    /// returns `Some(Ok(None))`, and on a failed read `Some(Err(ReadError))`,
    /// the session unchanged in both cases.
    pub fn poll<T: Transport>(&mut self, serial: &mut T) -> (r: Option<RunResult>)
        where
            H: Handler,
        requires
            old(self).wf(),
        ensures
            final(self).wf(),
            final(self).prompt() == old(self).prompt(),
            final(self).commands() == old(self).commands(),
            (r == Some(Ok::<Option<ReturnCode>, CliError>(None)) || r == Some(
                Err::<Option<ReturnCode>, CliError>(CliError::ReadError),
            )) ==> *final(self) == *old(self),
            !(r == Some(Ok::<Option<ReturnCode>, CliError>(None)) || r == Some(
                Err::<Option<ReturnCode>, CliError>(CliError::ReadError),
            )) ==> exists|b: u8|
                handled(old(self).state(), old(self).prompt(), old(self).names(), b, final(self).state(), r),
    {
        match serial.read_byte() {
            Err(fault) => Some(read_outcome(fault)),
            Ok(byte) => self.handle_byte(serial, byte),
        }
    }
}

impl<H, const NUM_COMMANDS: usize, const HELP_STR_SIZE: usize> Default for Cli<
    H,
    NUM_COMMANDS,
    HELP_STR_SIZE,
> {
    /// The same session as `new`.
    fn default() -> (r: Self)
        ensures
            r.wf(),
            r.state() == (EditState {
                raw: Seq::<u8>::empty(),
                filtered: Seq::<u8>::empty(),
                entries: Seq::<Seq<u8>>::empty(),
                cursor: 0,
            }),
            r.prompt() == default_prompt(),
            r.commands() == Seq::<Command<H, HELP_STR_SIZE>>::empty(),
    {
        Self::new()
    }
}

} // verus!
