//! Routing of a verified interaction to its handler, and the response
//! envelopes that wrap what handlers produce.
use vstd::prelude::*;
use crate::token::string_views;

verus! {

/// A verified interaction, reduced to what routing reads.
pub enum Interaction {
    Ping,
    Command { name: String },
    Autocomplete { name: String },
    Component { custom_id: String },
    /// Any other kind, by its numeric tag.
    Unsupported { kind: u8 },
}

/// The handler chosen for an interaction.
#[derive(Clone, Copy, Debug, PartialEq, Eq, Structural)]
pub enum Route {
    /// Answer with the pong envelope; no handler is involved.
    Pong,
    /// Call the respond operation of the command at this index.
    Command(usize),
    /// Call the autocomplete operation of the command at this index.
    Autocomplete(usize),
    /// Call the component handler at this index.
    Component(usize),
}

/// Why an interaction could not be routed.
#[derive(Debug, PartialEq, Eq)]
pub enum DispatchError {
    UnknownCommand(String),
    UnknownComponent(String),
    NotImplemented(u8),
}

/// Why a handler could not be registered.
#[derive(Clone, Copy, Debug, PartialEq, Eq, Structural)]
pub enum RegistryError {
    EmptyName,
}

/// Registered command names and component prefixes, in registration order.
pub struct Registry {
    commands: Vec<String>,
    components: Vec<String>,
}

pub open spec fn starts_with(s: Seq<char>, p: Seq<char>) -> bool {
    p.len() <= s.len() && s.subrange(0, p.len() as int) == p
}

impl Registry {
    pub closed spec fn command_names(&self) -> Seq<Seq<char>> {
        string_views(self.commands@)
    }

    pub closed spec fn component_prefixes(&self) -> Seq<Seq<char>> {
        string_views(self.components@)
    }

    /// No handler is registered under an empty name or prefix.
    pub open spec fn wf(&self) -> bool {
        &&& forall|i: int| 0 <= i < self.command_names().len() ==> #[trigger] self.command_names()[i].len() > 0
        &&& forall|i: int|
            0 <= i < self.component_prefixes().len() ==> #[trigger] self.component_prefixes()[i].len() > 0
    }

    pub fn new() -> (r: Registry)
        ensures
            r.wf(),
            r.command_names() == Seq::<Seq<char>>::empty(),
            r.component_prefixes() == Seq::<Seq<char>>::empty(),
    {
        let r = Registry { commands: Vec::new(), components: Vec::new() };
        assert(r.command_names() =~= Seq::<Seq<char>>::empty());
        assert(r.component_prefixes() =~= Seq::<Seq<char>>::empty());
        r
    }

    /// Registers a command under `name`, after those already there.
    pub fn add_command(&mut self, name: &str) -> (r: Result<(), RegistryError>)
        requires
            old(self).wf(),
        ensures
            final(self).wf(),
            name@.len() == 0 ==> r == Err::<(), RegistryError>(RegistryError::EmptyName)
                && final(self).command_names() == old(self).command_names(),
            name@.len() > 0 ==> r is Ok && final(self).command_names() == old(self).command_names().push(name@),
            final(self).component_prefixes() == old(self).component_prefixes(),
    {
        if name.unicode_len() == 0 {
            return Err(RegistryError::EmptyName);
        }
        let ghost before = self.commands@;
        self.commands.push(String::from_str(name));
        assert(string_views(self.commands@) =~= string_views(before).push(name@));
        assert(self.component_prefixes() == old(self).component_prefixes());
        assert forall|i: int| 0 <= i < self.command_names().len() implies #[trigger] self.command_names()[i].len() > 0 by {
            if i < string_views(before).len() {
                assert(string_views(before) == old(self).command_names());
                assert(self.command_names()[i] == old(self).command_names()[i]);
            }
        }
        Ok(())
    }

    /// Registers a component handler under `prefix`, after those already there.
    pub fn add_component(&mut self, prefix: &str) -> (r: Result<(), RegistryError>)
        requires
            old(self).wf(),
        ensures
            final(self).wf(),
            prefix@.len() == 0 ==> r == Err::<(), RegistryError>(RegistryError::EmptyName)
                && final(self).component_prefixes() == old(self).component_prefixes(),
            prefix@.len() > 0 ==> r is Ok && final(self).component_prefixes()
                == old(self).component_prefixes().push(prefix@),
            final(self).command_names() == old(self).command_names(),
    {
        if prefix.unicode_len() == 0 {
            return Err(RegistryError::EmptyName);
        }
        let ghost before = self.components@;
        self.components.push(String::from_str(prefix));
        assert(string_views(self.components@) =~= string_views(before).push(prefix@));
        assert(self.command_names() == old(self).command_names());
        assert forall|i: int| 0 <= i < self.component_prefixes().len() implies #[trigger] self.component_prefixes()[i].len() > 0 by {
            if i < string_views(before).len() {
                assert(string_views(before) == old(self).component_prefixes());
                assert(self.component_prefixes()[i] == old(self).component_prefixes()[i]);
            }
        }
        Ok(())
    }

    /// The bookmark bot's handlers: commands `help` and `Bookmark`, then
    /// components `delete` and `color`.
    pub fn standard() -> (r: Registry)
        ensures
            r.wf(),
            r.command_names() == seq!["help"@, "Bookmark"@],
            r.component_prefixes() == seq!["delete"@, "color"@],
    {
        let mut r = Registry::new();
        proof {
            reveal_strlit("help");
            reveal_strlit("Bookmark");
            reveal_strlit("delete");
            reveal_strlit("color");
        }
        let _ = r.add_command("help");
        let _ = r.add_command("Bookmark");
        let _ = r.add_component("delete");
        let _ = r.add_component("color");
        assert(r.command_names() =~= seq!["help"@, "Bookmark"@]);
        assert(r.component_prefixes() =~= seq!["delete"@, "color"@]);
        r
    }

    /// Index of the first command registered under exactly `name`.
    pub fn find_command(&self, name: &str) -> (r: Option<usize>)
        ensures
            match r {
                Some(i) => i < self.command_names().len() && self.command_names()[i as int] == name@
                    && forall|j: int| 0 <= j < i ==> self.command_names()[j] != name@,
                None => forall|j: int|
                    0 <= j < self.command_names().len() ==> self.command_names()[j] != name@,
            },
    {
        let wanted = String::from_str(name);
        let mut i: usize = 0;
        while i < self.commands.len()
            invariant
                wanted@ == name@,
                i <= self.commands.len(),
                forall|j: int| 0 <= j < i ==> self.command_names()[j] != name@,
            decreases self.commands.len() - i,
        {
            assert(self.command_names()[i as int] == self.commands@[i as int]@);
            if self.commands[i].eq(&wanted) {
                return Some(i);
            }
            i = i + 1;
        }
        None
    }

    /// Index of the first component handler, in registration order, whose
    /// prefix starts `custom_id`.
    pub fn find_component(&self, custom_id: &str) -> (r: Option<usize>)
        ensures
            match r {
                Some(i) => i < self.component_prefixes().len() && starts_with(
                    custom_id@,
                    self.component_prefixes()[i as int],
                ) && forall|j: int|
                    0 <= j < i ==> !starts_with(custom_id@, #[trigger] self.component_prefixes()[j]),
                None => forall|j: int|
                    0 <= j < self.component_prefixes().len() ==> !starts_with(
                        custom_id@,
                        #[trigger] self.component_prefixes()[j],
                    ),
            },
    {
        let mut i: usize = 0;
        while i < self.components.len()
            invariant
                i <= self.components.len(),
                forall|j: int|
                    0 <= j < i ==> !starts_with(custom_id@, #[trigger] self.component_prefixes()[j]),
            decreases self.components.len() - i,
        {
            assert(self.component_prefixes()[i as int] == self.components@[i as int]@);
            if prefix_of(self.components[i].as_str(), custom_id) {
                return Some(i);
            }
            i = i + 1;
        }
        None
    }
}

/// Whether `s` starts with `p`.
pub fn prefix_of(p: &str, s: &str) -> (r: bool)
    ensures
        r == starts_with(s@, p@),
{
    let pl = p.unicode_len();
    if pl > s.unicode_len() {
        return false;
    }
    let mut i: usize = 0;
    while i < pl
        invariant
            pl == p@.len(),
            pl <= s@.len(),
            i <= pl,
            forall|j: int| 0 <= j < i ==> s@[j] == p@[j],
        decreases pl - i,
    {
        if s.get_char(i) != p.get_char(i) {
            assert(s@.subrange(0, pl as int)[i as int] != p@[i as int]);
            return false;
        }
        i = i + 1;
    }
    assert(s@.subrange(0, pl as int) =~= p@);
    true
}

/// Routes an interaction: a ping to the pong envelope with no lookup; a
/// command or an autocomplete request to the command of exactly that name; a
/// component to the first handler, in registration order, whose prefix starts
/// its identifier; any other kind to an error.
pub fn route(reg: &Registry, interaction: &Interaction) -> (r: Result<Route, DispatchError>)
    ensures
        match interaction {
            Interaction::Ping => r == Ok::<Route, DispatchError>(Route::Pong),
            Interaction::Command { name } => match r {
                Ok(Route::Command(i)) => i < reg.command_names().len()
                    && reg.command_names()[i as int] == name@
                    && forall|j: int| 0 <= j < i ==> reg.command_names()[j] != name@,
                Err(DispatchError::UnknownCommand(n)) => n@ == name@ && forall|j: int|
                    0 <= j < reg.command_names().len() ==> reg.command_names()[j] != name@,
                _ => false,
            },
            Interaction::Autocomplete { name } => match r {
                Ok(Route::Autocomplete(i)) => i < reg.command_names().len()
                    && reg.command_names()[i as int] == name@
                    && forall|j: int| 0 <= j < i ==> reg.command_names()[j] != name@,
                Err(DispatchError::UnknownCommand(n)) => n@ == name@ && forall|j: int|
                    0 <= j < reg.command_names().len() ==> reg.command_names()[j] != name@,
                _ => false,
            },
            Interaction::Component { custom_id } => match r {
                Ok(Route::Component(i)) => i < reg.component_prefixes().len() && starts_with(
                    custom_id@,
                    reg.component_prefixes()[i as int],
                ) && forall|j: int|
                    0 <= j < i ==> !starts_with(custom_id@, #[trigger] reg.component_prefixes()[j]),
                Err(DispatchError::UnknownComponent(id)) => id@ == custom_id@ && forall|j: int|
                    0 <= j < reg.component_prefixes().len() ==> !starts_with(
                        custom_id@,
                        #[trigger] reg.component_prefixes()[j],
                    ),
                _ => false,
            },
            Interaction::Unsupported { kind } => r == Err::<Route, DispatchError>(
                DispatchError::NotImplemented(*kind),
            ),
        },
{
    match interaction {
        Interaction::Ping => Ok(Route::Pong),
        Interaction::Command { name } => match reg.find_command(name.as_str()) {
            Some(i) => Ok(Route::Command(i)),
            None => Err(DispatchError::UnknownCommand(name.clone())),
        },
        Interaction::Autocomplete { name } => match reg.find_command(name.as_str()) {
            Some(i) => Ok(Route::Autocomplete(i)),
            None => Err(DispatchError::UnknownCommand(name.clone())),
        },
        Interaction::Component { custom_id } => match reg.find_component(custom_id.as_str()) {
            Some(i) => Ok(Route::Component(i)),
            None => Err(DispatchError::UnknownComponent(custom_id.clone())),
        },
        Interaction::Unsupported { kind } => Err(DispatchError::NotImplemented(*kind)),
    }
}

/// The kind of a response envelope.
#[derive(Clone, Copy, Debug, PartialEq, Eq, Structural)]
pub enum ResponseKind {
    Pong,
    ChannelMessageWithSource,
    UpdateMessage,
    AutocompleteResult,
}

impl ResponseKind {
    /// The integer that stands for this kind on the wire.
    pub fn tag(&self) -> (r: u8)
        ensures
            r == match *self {
                ResponseKind::Pong => 1u8,
                ResponseKind::ChannelMessageWithSource => 4u8,
                ResponseKind::UpdateMessage => 7u8,
                ResponseKind::AutocompleteResult => 8u8,
            },
    {
        match self {
            ResponseKind::Pong => 1,
            ResponseKind::ChannelMessageWithSource => 4,
            ResponseKind::UpdateMessage => 7,
            ResponseKind::AutocompleteResult => 8,
        }
    }
}

/// A response: its kind and, but for a pong, what handlers produced.
pub struct Envelope<D> {
    pub kind: ResponseKind,
    pub data: Option<D>,
}

/// The answer to a ping.
pub fn pong<D>() -> (r: Envelope<D>)
    ensures
        r.kind == ResponseKind::Pong,
        r.data.is_none(),
{
    Envelope { kind: ResponseKind::Pong, data: None }
}

/// A command's output, sent as a new message.
pub fn command_reply<D>(data: D) -> (r: Envelope<D>)
    ensures
        r.kind == ResponseKind::ChannelMessageWithSource,
        r.data == Some(data),
{
    Envelope { kind: ResponseKind::ChannelMessageWithSource, data: Some(data) }
}

/// An autocomplete operation's output, possibly none.
pub fn autocomplete_reply<D>(data: Option<D>) -> (r: Envelope<D>)
    ensures
        r.kind == ResponseKind::AutocompleteResult,
        r.data == data,
{
    Envelope { kind: ResponseKind::AutocompleteResult, data }
}

} // verus!
