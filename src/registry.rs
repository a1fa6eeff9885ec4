//! The bounded table of named commands.

use vstd::prelude::*;

use crate::io::{CommandProcessorError, Handler, ReturnCode, Transport};

verus! {

#[verifier::external_type_specification]
#[verifier::external_body]
pub struct ExString<const N: usize>(heapless::String<N>);

/// The bytes that a `heapless::String<32>` holds.
pub uninterp spec fn string_bytes(s: heapless::String<32>) -> Seq<u8>;

/// Relies on `heapless::String::as_str`: the bytes held, at most the capacity.
#[verifier::external_body]
fn name_bytes(s: &heapless::String<32>) -> (r: Vec<u8>)
    ensures
        r@ == string_bytes(*s),
        r@.len() <= 32,
{
    s.as_str().as_bytes().to_vec()
}

/// A registered command: its name, optional help text and handler.
pub struct Command<H, const HELP_STR_SIZE: usize> {
    pub name: Vec<u8>,
    pub help: Option<heapless::String<HELP_STR_SIZE>>,
    pub handler: H,
}

/// No two entries of `s` are equal.
pub open spec fn distinct(s: Seq<Seq<u8>>) -> bool {
    forall|i: int, j: int| 0 <= i < s.len() && 0 <= j < s.len() && i != j ==> s[i] != s[j]
}

/// The error that adding `name` to a registry holding `names`, with room
/// for `cap` commands, meets; `None` when the addition goes through.
pub open spec fn add_error(names: Seq<Seq<u8>>, cap: nat, name: Seq<u8>) -> Option<CommandProcessorError> {
    if names.contains(name) {
        Some(CommandProcessorError::DuplicateName)
    } else if names.len() >= cap {
        Some(CommandProcessorError::CapacityExceeded)
    } else {
        None
    }
}

/// The error that removing `name` from a registry holding `names` meets;
/// `None` when the removal goes through.
pub open spec fn remove_error(names: Seq<Seq<u8>>, name: Seq<u8>) -> Option<CommandProcessorError> {
    if names.contains(name) {
        None
    } else {
        Some(CommandProcessorError::NotFound)
    }
}

/// At most `NUM_COMMANDS` commands with distinct names, in order of addition.
pub struct Registry<H, const NUM_COMMANDS: usize, const HELP_STR_SIZE: usize> {
    commands: Vec<Command<H, HELP_STR_SIZE>>,
}

impl<H, const NUM_COMMANDS: usize, const HELP_STR_SIZE: usize> Registry<H, NUM_COMMANDS, HELP_STR_SIZE> {
    /// The registered commands, in order of addition.
    pub closed spec fn commands(&self) -> Seq<Command<H, HELP_STR_SIZE>> {
        self.commands@
    }

    /// The names of the registered commands.
    pub open spec fn names(&self) -> Seq<Seq<u8>> {
        self.commands().map_values(|c: Command<H, HELP_STR_SIZE>| c.name@)
    }

    pub open spec fn wf(&self) -> bool {
        &&& self.names().len() <= NUM_COMMANDS
        &&& distinct(self.names())
    }

    pub fn new() -> (r: Self)
        ensures
            r.wf(),
            r.commands() == Seq::<Command<H, HELP_STR_SIZE>>::empty(),
    {
        let r = Registry { commands: Vec::new() };
        assert(r.names() =~= Seq::<Seq<u8>>::empty());
        r
    }

    /// Number of registered commands.
    pub fn len(&self) -> (r: usize)
        ensures
            r as int == self.names().len(),
    {
        self.commands.len()
    }

    /// Index of the command named `name`, if there is one.
    pub fn find(&self, name: &Vec<u8>) -> (r: Option<usize>)
        requires
            self.wf(),
        ensures
            r matches Some(i) ==> i < self.names().len() && self.names()[i as int] == name@,
            r is None <==> !self.names().contains(name@),
    {
        let mut i: usize = 0;
        while i < self.commands.len()
            invariant
                i <= self.commands@.len(),
                forall|k: int| 0 <= k < i ==> self.names()[k] != name@,
            decreases self.commands@.len() - i,
        {
            if bytes_eq(&self.commands[i].name, name) {
                assert(self.names()[i as int] == name@);
                return Some(i);
            }
            i = i + 1;
        }
        proof {
            if self.names().contains(name@) {
                let k = choose|k: int| 0 <= k < self.names().len() && self.names()[k] == name@;
                assert(self.names()[k] != name@);
            }
        }
        None
    }

    /// Registers `command` with its handler and help text.
    pub fn add_command(
        &mut self,
        command: heapless::String<32>,
        callback: H,
        help: Option<heapless::String<HELP_STR_SIZE>>,
    ) -> (r: Result<(), CommandProcessorError>)
        requires
            old(self).wf(),
        ensures
            final(self).wf(),
            match add_error(old(self).names(), NUM_COMMANDS as nat, string_bytes(command)) {
                Some(e) => r == Err::<(), CommandProcessorError>(e) && *final(self) == *old(self),
                None => r is Ok && added(old(self).commands(), final(self).commands(), string_bytes(command), callback, help),
            },
    {
        let name = name_bytes(&command);
        if self.find(&name).is_some() {
            return Err(CommandProcessorError::DuplicateName);
        }
        if self.commands.len() >= NUM_COMMANDS {
            return Err(CommandProcessorError::CapacityExceeded);
        }
        let ghost before = self.names();
        self.commands.push(Command { name, help, handler: callback });
        assert(self.names() =~= before.push(name@));
        Ok(())
    }

    /// Removes the command named `command`.
    pub fn remove_command(&mut self, command: heapless::String<32>) -> (r: Result<
        (),
        CommandProcessorError,
    >)
        requires
            old(self).wf(),
        ensures
            final(self).wf(),
            match remove_error(old(self).names(), string_bytes(command)) {
                Some(e) => r == Err::<(), CommandProcessorError>(e) && *final(self) == *old(self),
                None => r is Ok && exists|i: int|
                    0 <= i < old(self).names().len() && old(self).names()[i] == string_bytes(command)
                        && final(self).commands() == old(self).commands().remove(i),
            },
            !final(self).names().contains(string_bytes(command)),
    {
        let name = name_bytes(&command);
        match self.find(&name) {
            None => Err(CommandProcessorError::NotFound),
            Some(i) => {
                let ghost before = self.names();
                let ghost cmds = self.commands();
                self.commands.remove(i);
                assert(self.commands() == cmds.remove(i as int));
                assert(self.names() =~= before.remove(i as int));
                assert forall|k: int| 0 <= k < self.names().len() implies self.names()[k] != name@ by {
                    if k < i {
                        assert(before[k] != before[i as int]);
                    } else {
                        assert(before[k + 1] != before[i as int]);
                    }
                }
                Ok(())
            }
        }
    }

    /// Looks up the command named `token`: `Err(CommandNotFound)` when none
    /// is registered, else `Ok` of what its handler, handed `out`, returned.
    pub fn process_command<T: Transport>(&self, token: &Vec<u8>, out: &mut T) -> (r: Result<
        Result<ReturnCode, CommandProcessorError>,
        CommandProcessorError,
    >)
        where H: Handler,
        requires
            self.wf(),
        ensures
            r is Err <==> !self.names().contains(token@),
            r is Err ==> r == Err::<Result<ReturnCode, CommandProcessorError>, CommandProcessorError>(
                CommandProcessorError::CommandNotFound,
            ),
    {
        match self.find(token) {
            None => Err(CommandProcessorError::CommandNotFound),
            Some(i) => Ok(self.commands[i].handler.call(out)),
        }
    }
}

/// `new` is `old` with a command of that name, handler and help text added
/// at the end, the other commands as they were.
pub open spec fn added<H, const HELP_STR_SIZE: usize>(
    old: Seq<Command<H, HELP_STR_SIZE>>,
    new: Seq<Command<H, HELP_STR_SIZE>>,
    name: Seq<u8>,
    handler: H,
    help: Option<heapless::String<HELP_STR_SIZE>>,
) -> bool {
    &&& new.len() == old.len() + 1
    &&& forall|i: int| 0 <= i < old.len() ==> #[trigger] new[i] == old[i]
    &&& new.last().name@ == name
    &&& new.last().handler == handler
    &&& new.last().help == help
}

/// Filling a registry built for `names.len()` commands: adding the distinct
/// `names` one by one from empty succeeds every time, each addition leaving
/// the names added so far in order, and one more addition of a new name then
/// fails with `CapacityExceeded`.
pub proof fn lemma_fill_registry(names: Seq<Seq<u8>>, extra: Seq<u8>)
    requires
        distinct(names),
    ensures
        forall|k: int|
            0 <= k < names.len() ==> add_error(names.take(k), names.len(), #[trigger] names[k]) is None
                && names.take(k).push(names[k]) == names.take(k + 1),
        !names.contains(extra) ==> add_error(names, names.len(), extra) == Some(
            CommandProcessorError::CapacityExceeded,
        ),
{
    assert forall|k: int| 0 <= k < names.len() implies add_error(names.take(k), names.len(), #[trigger] names[k]) is None
        && names.take(k).push(names[k]) == names.take(k + 1) by {
        if names.take(k).contains(names[k]) {
            let j = choose|j: int| 0 <= j < names.take(k).len() && names.take(k)[j] == names[k];
            assert(names[j] == names[k]);
        }
        assert(names.take(k).push(names[k]) =~= names.take(k + 1));
    }
}

/// Adding a name that is registered already fails with `DuplicateName`,
/// whatever room the registry has left.
pub proof fn lemma_duplicate_refused(names: Seq<Seq<u8>>, cap: nat, name: Seq<u8>)
    requires
        names.contains(name),
    ensures
        add_error(names, cap, name) == Some(CommandProcessorError::DuplicateName),
{
}

/// Removing a name that is not registered fails with `NotFound`.
pub proof fn lemma_remove_absent(names: Seq<Seq<u8>>, name: Seq<u8>)
    requires
        !names.contains(name),
    ensures
        remove_error(names, name) == Some(CommandProcessorError::NotFound),
{
}

/// Byte-wise equality of two buffers.
pub fn bytes_eq(a: &Vec<u8>, b: &Vec<u8>) -> (r: bool)
    ensures
        r <==> a@ == b@,
{
    if a.len() != b.len() {
        return false;
    }
    let mut i: usize = 0;
    while i < a.len()
        invariant
            a@.len() == b@.len(),
            i <= a@.len(),
            forall|k: int| 0 <= k < i ==> a@[k] == b@[k],
        decreases a@.len() - i,
    {
        if a[i] != b[i] {
            return false;
        }
        i = i + 1;
    }
    assert(a@ =~= b@);
    true
}

} // verus!
