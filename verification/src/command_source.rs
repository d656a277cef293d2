//! A script on the command line.

use vstd::prelude::*;

verus! {

/// A script on the command line as the source of one engine.
#[derive(Debug)]
pub struct CommandSource<'s, E> {
    /// The engine from which that of the script is made.
    pub base: E,
    pub script: &'s String,
}

/// What the source asks for.
#[derive(Debug)]
pub enum CommandAction<'a, E> {
    /// Make an engine of a script, from a base engine.
    Load(&'a E, &'a String),
    /// Send this engine.
    Send(E),
}

/// A [`CommandAction`] as a value.
pub enum CommandEffect<E> {
    Load(E, Seq<char>),
    Send(E),
}

impl<'a, E> View for CommandAction<'a, E> {
    type V = CommandEffect<E>;

    open spec fn view(&self) -> CommandEffect<E> {
        match self {
            CommandAction::Load(base, script) => CommandEffect::Load(**base, script@),
            CommandAction::Send(engine) => CommandEffect::Send(*engine),
        }
    }
}

impl<'s, E> CommandSource<'s, E> {
    /// What the source asks for first.
    pub fn first(&self) -> (action: CommandAction<'_, E>)
        ensures
            action@ == CommandEffect::Load(self.base, self.script@),
    {
        CommandAction::Load(&self.base, self.script)
    }

    /// Takes the engine that was made, or none because the script is no good. An
    /// engine is sent exactly if one was made, and it is that engine.
    pub fn on_made(&self, made: Option<E>) -> (action: Option<CommandAction<'_, E>>)
        ensures
            match made {
                Some(engine) => action matches Some(action) && action@ == CommandEffect::Send(
                    engine,
                ),
                None => action is None,
            },
    {
        match made {
            Some(engine) => Some(CommandAction::Send(engine)),
            None => None,
        }
    }
}

/// What is asked for is seen as it is.
pub proof fn law_actions_are_seen_as_they_are<E>(action: CommandAction<E>)
    ensures
        match (action, action@) {
            (CommandAction::Load(a, script), CommandEffect::Load(b, text)) => *a == b && script@
                == text,
            (CommandAction::Send(a), CommandEffect::Send(b)) => a == b,
            _ => false,
        },
{
}

} // verus!
