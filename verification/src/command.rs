//! Commands: named actions that can be registered once and run by name.

use vstd::prelude::*;

use crate::text::{chars_of, same_chars};

verus! {

/// Whether two strings hold the same characters.
pub(crate) fn str_equal(a: &str, b: &str) -> (r: bool)
    ensures
        r == (a@ == b@),
{
    same_chars(&chars_of(a), &chars_of(b))
}

/// The name under which a command is registered, and its title.
#[derive(Debug, Clone, Copy, PartialEq, Eq)]
pub struct CommandDescriptor {
    id: &'static str,
    title: &'static str,
}

impl CommandDescriptor {
    pub closed spec fn spec_id(&self) -> Seq<char> {
        self.id@
    }

    pub closed spec fn spec_title(&self) -> Seq<char> {
        self.title@
    }

    pub fn new(id: &'static str, title: &'static str) -> (r: CommandDescriptor)
        ensures
            r.spec_id() == id@,
            r.spec_title() == title@,
    {
        CommandDescriptor { id, title }
    }

    pub fn id(&self) -> (r: &'static str)
        ensures
            r@ == self.spec_id(),
    {
        self.id
    }

    pub fn title(&self) -> (r: &'static str)
        ensures
            r@ == self.spec_title(),
    {
        self.title
    }
}

/// What can go wrong with commands.
#[derive(Debug)]
pub enum CommandError {
    DuplicateCommandId { command_id: &'static str },
    CommandNotFound { command_id: String },
    ExecutionFailed(String),
}

impl CommandError {
    /// The text of this error's message.
    pub open spec fn spec_message(&self) -> Seq<char> {
        match self {
            CommandError::DuplicateCommandId { command_id } => "command `"@ + command_id@
                + "` is already registered"@,
            CommandError::CommandNotFound { command_id } => "command `"@ + command_id@
                + "` was not found"@,
            CommandError::ExecutionFailed(reason) => "command execution failed: "@ + reason@,
        }
    }

    /// The message that describes this error.
    pub fn message(&self) -> (r: String)
        ensures
            r@ == self.spec_message(),
    {
        match self {
            CommandError::DuplicateCommandId { command_id } => {
                let mut m = String::from_str("command `");
                m.append(command_id);
                m.append("` is already registered");
                m
            },
            CommandError::CommandNotFound { command_id } => {
                let mut m = String::from_str("command `");
                m.append(command_id.as_str());
                m.append("` was not found");
                m
            },
            CommandError::ExecutionFailed(reason) => {
                let mut m = String::from_str("command execution failed: ");
                m.append(reason.as_str());
                m
            },
        }
    }
}

/// An action that can be registered under the name its descriptor gives and
/// run by that name.
pub trait Command: Send + Sync {
    fn descriptor(&self) -> &'static CommandDescriptor;

    fn execute(&self) -> Result<(), CommandError>;
}

/// The commands, at most one under each name, in the order they were
/// registered. Each is found by the name its descriptor gave when it was
/// registered.
pub struct CommandRegistry<C: Command> {
    ids: Vec<&'static str>,
    commands: Vec<C>,
}

impl<C: Command> CommandRegistry<C> {
    /// The names of the registered commands, in the order they were
    /// registered.
    pub closed spec fn ids(&self) -> Seq<Seq<char>> {
        self.ids@.map_values(|id: &'static str| id@)
    }

    /// The registered commands, in the same order.
    pub closed spec fn commands(&self) -> Seq<C> {
        self.commands@
    }

    /// Names are distinct and each command has one.
    pub open spec fn well_formed(&self) -> bool {
        &&& self.ids().len() == self.commands().len()
        &&& self.ids().no_duplicates()
    }

    pub fn new() -> (r: CommandRegistry<C>)
        ensures
            r.well_formed(),
            r.ids() == Seq::<Seq<char>>::empty(),
            r.commands() == Seq::<C>::empty(),
    {
        let r = CommandRegistry { ids: Vec::new(), commands: Vec::new() };
        assert(r.ids() =~= Seq::<Seq<char>>::empty());
        r
    }

    /// Where the command registered under `id` stands, if any.
    fn find(&self, id: &str) -> (r: Option<usize>)
        requires
            self.well_formed(),
        ensures
            match r {
                Some(i) => i < self.ids().len() && self.ids()[i as int] == id@,
                None => !self.ids().contains(id@),
            },
    {
        let mut i: usize = 0;
        while i < self.ids.len()
            invariant
                i <= self.ids.len(),
                forall|j: int| 0 <= j < i ==> self.ids()[j] != id@,
            decreases self.ids.len() - i,
        {
            if str_equal(self.ids[i], id) {
                return Some(i);
            }
            i += 1;
        }
        None
    }

    /// What registering a command under `id` does: where no command is
    /// registered under `id`, it is added at the end under that name; where
    /// one is, the result is `DuplicateCommandId` naming `id` and nothing
    /// changes.
    pub open spec fn registered_under(
        before: &Self,
        id: Seq<char>,
        command: C,
        r: Result<(), CommandError>,
        after: &Self,
    ) -> bool {
        if before.ids().contains(id) {
            &&& *after == *before
            &&& r matches Err(CommandError::DuplicateCommandId { command_id })
            &&& command_id@ == id
        } else {
            &&& r is Ok
            &&& after.ids() == before.ids().push(id)
            &&& after.commands() == before.commands().push(command)
        }
    }

    /// Registers `command` under the name its descriptor gives, as
    /// `register_as` does with that name. The descriptor is asked once.
    pub fn register(&mut self, command: C) -> (r: Result<(), CommandError>)
        requires
            old(self).well_formed(),
        ensures
            final(self).well_formed(),
            exists|d: &'static CommandDescriptor|
                call_ensures(C::descriptor, (&command,), d) && #[trigger] Self::registered_under(
                    old(self),
                    d.spec_id(),
                    command,
                    r,
                    final(self),
                ),
    {
        let d = command.descriptor();
        let id = d.id();
        self.register_as(id, command)
    }

    /// Registers `command` under `id`; fails with `DuplicateCommandId`,
    /// changing nothing, where a command is registered under `id` already.
    pub fn register_as(&mut self, id: &'static str, command: C) -> (r: Result<(), CommandError>)
        requires
            old(self).well_formed(),
        ensures
            final(self).well_formed(),
            Self::registered_under(old(self), id@, command, r, final(self)),
    {
        if self.find(id).is_some() {
            return Err(CommandError::DuplicateCommandId { command_id: id });
        }
        let ghost before = self.ids();
        self.ids.push(id);
        self.commands.push(command);
        assert(self.ids() =~= before.push(id@));
        Ok(())
    }

    /// Runs the command registered under `id`; fails with `CommandNotFound`
    /// naming `id` where none is.
    pub fn execute(&self, id: &str) -> (r: Result<(), CommandError>)
        requires
            self.well_formed(),
        ensures
            !self.ids().contains(id@) ==> (r matches Err(CommandError::CommandNotFound { command_id })
                && command_id@ == id@),
            self.ids().contains(id@) ==> exists|i: int|
                0 <= i < self.ids().len() && self.ids()[i] == id@ && call_ensures(
                    C::execute,
                    (&self.commands()[i],),
                    r,
                ),
    {
        match self.find(id) {
            None => Err(CommandError::CommandNotFound { command_id: id.to_owned() }),
            Some(i) => self.commands[i].execute(),
        }
    }

    /// Whether a command is registered under `id`.
    pub fn contains(&self, id: &str) -> (r: bool)
        requires
            self.well_formed(),
        ensures
            r == self.ids().contains(id@),
    {
        self.find(id).is_some()
    }

    /// The number of registered commands.
    pub fn len(&self) -> (r: usize)
        requires
            self.well_formed(),
        ensures
            r == self.ids().len(),
    {
        self.ids.len()
    }

    /// Whether no command is registered.
    pub fn is_empty(&self) -> (r: bool)
        requires
            self.well_formed(),
        ensures
            r == (self.ids().len() == 0),
    {
        self.ids.len() == 0
    }

    /// The descriptors of the registered commands, in the order they were
    /// registered, as the commands give them now.
    pub fn descriptors(&self) -> (r: Vec<&'static CommandDescriptor>)
        requires
            self.well_formed(),
        ensures
            r.len() == self.ids().len(),
            forall|i: int|
                0 <= i < r.len() ==> call_ensures(C::descriptor, (&self.commands()[i],), #[trigger] r[i]),
    {
        let mut r: Vec<&'static CommandDescriptor> = Vec::new();
        let mut i: usize = 0;
        while i < self.commands.len()
            invariant
                i <= self.commands.len(),
                self.well_formed(),
                r.len() == i,
                forall|j: int|
                    0 <= j < i ==> call_ensures(C::descriptor, (&self.commands()[j],), #[trigger] r[j]),
            decreases self.commands.len() - i,
        {
            r.push(self.commands[i].descriptor());
            i += 1;
        }
        r
    }

    /// The command registered under `id`; fails with `CommandNotFound` naming
    /// `id` where none is.
    pub fn get(&self, id: &str) -> (r: Result<&C, CommandError>)
        requires
            self.well_formed(),
        ensures
            r is Ok <==> self.ids().contains(id@),
            r matches Ok(c) ==> exists|i: int|
                0 <= i < self.ids().len() && self.ids()[i] == id@ && *c == #[trigger] self.commands()[i],
            r matches Err(e) ==> (e matches CommandError::CommandNotFound { command_id } && command_id@
                == id@),
    {
        match self.find(id) {
            None => Err(CommandError::CommandNotFound { command_id: id.to_owned() }),
            Some(i) => {
                let c = &self.commands[i];
                assert(*c == self.commands()[i as int]);
                Ok(c)
            },
        }
    }
}

impl<C: Command> Default for CommandRegistry<C> {
    /// No command registered.
    fn default() -> (r: CommandRegistry<C>)
        ensures
            r.well_formed(),
            r.ids() == Seq::<Seq<char>>::empty(),
            r.commands() == Seq::<C>::empty(),
    {
        CommandRegistry::new()
    }
}

} // verus!
