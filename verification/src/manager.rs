//! The collection of open connections, the handles that address them and the
//! commands that change them.
//!
//! A handle is the position that a connection has in the collection. It is
//! given out when the connection is accepted; closing a connection moves
//! every later connection one position down, so a handle names whatever
//! stands at its position when a command is applied.

use vstd::prelude::*;

verus! {

/// How many commands may wait to be applied before a caller that issues
/// another has to wait.
pub const COMMAND_QUEUE_CAPACITY: usize = 32;

/// A request to act on one connection, applied in the order of issue.
#[derive(Debug, PartialEq, Eq)]
pub enum Command<P> {
    /// Write the payload to the connection at the handle.
    SendMessage(usize, P),
    /// Take the connection at the handle out of the collection.
    Close(usize),
}

/// What applying a command amounts to.
#[derive(Debug, PartialEq, Eq)]
pub enum Effect<C, P> {
    /// The payload is to be written to the connection at the handle. What
    /// becomes of the write is not reported to whoever issued the command.
    Write(usize, P),
    /// The connection that stood at the handle has left the collection.
    Closed(usize, C),
    /// The handle addressed nothing: nothing changed and nothing is written.
    Ignored,
}

/// The open connections, in the order in which they were accepted.
pub struct ConnectionManager<C> {
    connections: Vec<C>,
}

/// A handle addresses a connection of the collection.
pub open spec fn is_open<C>(connections: Seq<C>, handle: int) -> bool {
    0 <= handle < connections.len()
}

/// The collection after one command.
pub open spec fn after_command<C, P>(connections: Seq<C>, command: Command<P>) -> Seq<C> {
    match command {
        Command::SendMessage(_, _) => connections,
        Command::Close(handle) => if is_open(connections, handle as int) {
            connections.remove(handle as int)
        } else {
            connections
        },
    }
}

/// The effect of one command on a collection.
pub open spec fn effect_of<C, P>(connections: Seq<C>, command: Command<P>) -> Effect<C, P> {
    match command {
        Command::SendMessage(handle, payload) => if is_open(connections, handle as int) {
            Effect::Write(handle, payload)
        } else {
            Effect::Ignored
        },
        Command::Close(handle) => if is_open(connections, handle as int) {
            Effect::Closed(handle, connections[handle as int])
        } else {
            Effect::Ignored
        },
    }
}

/// The collection after a run of commands, applied from the first on.
pub open spec fn after_commands<C, P>(connections: Seq<C>, commands: Seq<Command<P>>) -> Seq<C>
    decreases commands.len(),
{
    if commands.len() == 0 {
        connections
    } else {
        after_commands(after_command(connections, commands[0]), commands.drop_first())
    }
}

/// The effects of a run of commands, one for each command and in the same
/// order.
pub open spec fn effects_of<C, P>(connections: Seq<C>, commands: Seq<Command<P>>) -> Seq<
    Effect<C, P>,
>
    decreases commands.len(),
{
    if commands.len() == 0 {
        Seq::empty()
    } else {
        seq![effect_of(connections, commands[0])] + effects_of(
            after_command(connections, commands[0]),
            commands.drop_first(),
        )
    }
}

impl<C> View for ConnectionManager<C> {
    type V = Seq<C>;

    closed spec fn view(&self) -> Seq<C> {
        self.connections@
    }
}

impl<C> ConnectionManager<C> {
    /// A manager without connections.
    pub fn new() -> (manager: Self)
        ensures
            manager@ == Seq::<C>::empty(),
    {
        ConnectionManager { connections: Vec::new() }
    }

    /// The number of open connections, which is the handle that the next
    /// accepted connection gets.
    pub fn len(&self) -> (len: usize)
        ensures
            len == self@.len(),
    {
        self.connections.len()
    }

    /// Takes in a connection that has just been opened and gives out its
    /// handle: the position behind every connection that is open now.
    pub fn accept(&mut self, connection: C) -> (handle: usize)
        ensures
            handle == old(self)@.len(),
            final(self)@ == old(self)@.push(connection),
    {
        let handle: usize = self.connections.len();
        self.connections.push(connection);
        handle
    }

    /// Applies one command. A command whose handle addresses nothing is
    /// ignored without an error.
    pub fn apply<P>(&mut self, command: Command<P>) -> (effect: Effect<C, P>)
        ensures
            final(self)@ == after_command(old(self)@, command),
            effect == effect_of(old(self)@, command),
    {
        match command {
            Command::SendMessage(handle, payload) => {
                if handle < self.connections.len() {
                    Effect::Write(handle, payload)
                } else {
                    Effect::Ignored
                }
            },
            Command::Close(handle) => {
                if handle < self.connections.len() {
                    let connection = self.connections.remove(handle);
                    Effect::Closed(handle, connection)
                } else {
                    Effect::Ignored
                }
            },
        }
    }

    /// The open connections as they stand now, by handle.
    pub fn get_connections(&self) -> (connections: &Vec<C>)
        ensures
            connections@ == self@,
    {
        &self.connections
    }

    /// The connection at a handle, to read from it or write to it.
    pub fn connection_mut(&mut self, handle: usize) -> (connection: Option<&mut C>)
        ensures
            is_open(old(self)@, handle as int) <==> connection is Some,
            connection is None ==> final(self)@ == old(self)@,
            connection is Some ==> *connection.unwrap() == old(self)@[handle as int] && final(self)@
                == old(self)@.update(handle as int, *final(connection.unwrap())),
    {
        if handle < self.connections.len() {
            Some(&mut self.connections[handle])
        } else {
            None
        }
    }
}

/// Two connections accepted one after the other get different handles, the
/// earlier one the smaller, and each handle addresses the connection it was
/// given out for.
pub proof fn lemma_handles_follow_acceptance<C>(connections: Seq<C>, first: C, second: C)
    ensures
        ({
            let first_handle = connections.len() as int;
            let second_handle = connections.push(first).len() as int;
            let accepted = connections.push(first).push(second);
            &&& first_handle < second_handle
            &&& is_open(accepted, first_handle) && accepted[first_handle] == first
            &&& is_open(accepted, second_handle) && accepted[second_handle] == second
        }),
{
}

/// Accepting a connection leaves every handle given out before it on the
/// connection that it addressed.
pub proof fn lemma_acceptance_keeps_handles<C>(connections: Seq<C>, connection: C, handle: int)
    requires
        is_open(connections, handle),
    ensures
        is_open(connections.push(connection), handle),
        connections.push(connection)[handle] == connections[handle],
{
}

/// A command with a handle that addresses nothing, whether it never did or
/// no longer does, has no effect and is no error.
pub proof fn lemma_unaddressed_is_ignored<C, P>(connections: Seq<C>, command: Command<P>)
    requires
        match command {
            Command::SendMessage(handle, _) => !is_open(connections, handle as int),
            Command::Close(handle) => !is_open(connections, handle as int),
        },
    ensures
        after_command(connections, command) == connections,
        effect_of(connections, command) == Effect::<C, P>::Ignored,
{
}

/// Closing moves each later connection one handle down and leaves each
/// earlier one where it was.
pub proof fn lemma_close_shifts_later<C, P>(connections: Seq<C>, handle: usize, other: int)
    requires
        is_open(connections, handle as int),
        is_open(connections, other),
        other != handle,
    ensures
        ({
            let closed = after_command(connections, Command::<P>::Close(handle));
            &&& closed.len() == connections.len() - 1
            &&& other < handle ==> closed[other] == connections[other]
            &&& other > handle ==> closed[other - 1] == connections[other]
        }),
{
}

/// Closing a handle a second time has no effect, provided that no later
/// connection was open to move into its place.
pub proof fn lemma_close_again_is_ignored<C, P>(connections: Seq<C>, handle: usize)
    requires
        handle + 1 >= connections.len(),
    ensures
        ({
            let closed = after_command(connections, Command::<P>::Close(handle));
            &&& !is_open(closed, handle as int)
            &&& after_command(closed, Command::<P>::Close(handle)) == closed
            &&& effect_of(closed, Command::<P>::Close(handle)) == Effect::<C, P>::Ignored
        }),
{
}

/// A run of commands has one effect for each command, and the effect at a
/// position is that of the command at that position, applied to the
/// collection as the commands before it have left it.
pub proof fn lemma_effects_in_command_order<C, P>(
    connections: Seq<C>,
    commands: Seq<Command<P>>,
    i: int,
)
    requires
        0 <= i < commands.len(),
    ensures
        effects_of(connections, commands).len() == commands.len(),
        effects_of(connections, commands)[i] == effect_of(
            after_commands(connections, commands.take(i)),
            commands[i],
        ),
    decreases commands.len(),
{
    lemma_effects_len(connections, commands);
    let next = after_command(connections, commands[0]);
    let rest = commands.drop_first();
    if i == 0 {
        assert(commands.take(0) =~= Seq::<Command<P>>::empty());
    } else {
        lemma_effects_in_command_order(next, rest, i - 1);
        assert(commands.take(i).drop_first() =~= rest.take(i - 1));
        assert(commands.take(i)[0] == commands[0]);
    }
}

/// A run of commands has as many effects as commands.
pub proof fn lemma_effects_len<C, P>(connections: Seq<C>, commands: Seq<Command<P>>)
    ensures
        effects_of(connections, commands).len() == commands.len(),
    decreases commands.len(),
{
    if commands.len() > 0 {
        lemma_effects_len(after_command(connections, commands[0]), commands.drop_first());
    }
}

/// Sending never changes the collection, so the handles stay as they are.
pub proof fn lemma_send_keeps_collection<C, P>(connections: Seq<C>, handle: usize, payload: P)
    ensures
        after_command(connections, Command::SendMessage(handle, payload)) == connections,
{
}

/// Two messages sent to an open handle, one after the other, are written to
/// it in the order of sending.
pub proof fn lemma_sends_keep_order<C, P>(
    connections: Seq<C>,
    handle: usize,
    first: P,
    second: P,
)
    requires
        is_open(connections, handle as int),
    ensures
        ({
            let sends = seq![
                Command::SendMessage(handle, first),
                Command::SendMessage(handle, second),
            ];
            &&& effects_of(connections, sends) == seq![
                Effect::<C, P>::Write(handle, first),
                Effect::<C, P>::Write(handle, second),
            ]
            &&& after_commands(connections, sends) == connections
        }),
{
    let sends = seq![Command::SendMessage(handle, first), Command::SendMessage(handle, second)];
    let rest = sends.drop_first();
    assert(rest =~= seq![Command::SendMessage(handle, second)]);
    assert(rest.drop_first() =~= Seq::<Command<P>>::empty());
    reveal_with_fuel(effects_of, 3);
    reveal_with_fuel(after_commands, 3);
    assert(effects_of(connections, sends) =~= seq![
        Effect::<C, P>::Write(handle, first),
        Effect::<C, P>::Write(handle, second),
    ]);
}

} // verus!
