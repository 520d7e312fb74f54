//! The command relay: a single-slot, last-write-wins holder of
//! operator valve intent.  Consumers overwrite it, the broadcaster
//! reads it; values are never queued, so only the most recent intent is
//! ever observed.

use vstd::prelude::*;

verus! {

/// Desired operator intent for the two valves — not confirmed device
/// state.
#[derive(Clone, Copy, Debug, PartialEq, Eq, Structural)]
pub struct ValveCommand {
    pub fuel_open: bool,
    pub oxi_open: bool,
}

/// The startup command: both valves closed.
pub open spec fn default_command() -> ValveCommand {
    ValveCommand { fuel_open: false, oxi_open: false }
}

impl Default for ValveCommand {
    /// Both valves closed.
    fn default() -> (r: Self)
        ensures
            r == default_command(),
    {
        ValveCommand { fuel_open: false, oxi_open: false }
    }
}

/// The slot after `cmds` have been written over `init` in order.
pub open spec fn relayed(init: ValveCommand, cmds: Seq<ValveCommand>) -> ValveCommand
    decreases cmds.len(),
{
    if cmds.len() == 0 {
        init
    } else {
        relayed(cmds[0], cmds.skip(1))
    }
}

/// Last write wins: after any non-empty run of writes, the slot holds
/// exactly the last one; earlier values can never be observed again.
pub proof fn lemma_last_write_wins(init: ValveCommand, cmds: Seq<ValveCommand>)
    requires
        cmds.len() > 0,
    ensures
        relayed(init, cmds) == cmds.last(),
    decreases cmds.len(),
{
    if cmds.len() == 1 {
        assert(relayed(cmds[0], cmds.skip(1)) == cmds[0]);
    } else {
        lemma_last_write_wins(cmds[0], cmds.skip(1));
        assert(cmds.skip(1).last() == cmds.last());
    }
}

/// Single current value of operator intent.
pub struct CommandRelay {
    cmd: ValveCommand,
}

impl CommandRelay {
    /// The most recently set command, or the startup default.
    pub closed spec fn current(self) -> ValveCommand {
        self.cmd
    }

    /// A relay holding the startup default: both valves closed.
    pub fn new() -> (r: Self)
        ensures
            r.current() == default_command(),
    {
        CommandRelay { cmd: ValveCommand { fuel_open: false, oxi_open: false } }
    }

    /// Overwrites the single current value; the previous value is
    /// discarded, never queued.
    pub fn set(&mut self, c: ValveCommand)
        ensures
            final(self).current() == c,
    {
        self.cmd = c;
    }

    /// The most recently set value.
    pub fn get(&self) -> (r: ValveCommand)
        ensures
            r == self.current(),
    {
        self.cmd
    }
}

} // verus!
