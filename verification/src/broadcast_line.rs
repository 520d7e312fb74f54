//! The command broadcaster's wire format: on every tick the current
//! command is sent as a two-field, newline-terminated line — fuel flag
//! then oxidizer flag, each rendered `1` or `0` — whether or not it
//! changed since the previous tick, so the device is periodically
//! re-asserted the desired state.

use vstd::prelude::*;

use crate::relay::CommandRelay;
use crate::relay::ValveCommand;

verus! {

/// `1` for open, `0` for closed.
pub open spec fn flag_byte(open: bool) -> u8 {
    if open {
        49
    } else {
        48
    }
}

/// The broadcast line for a command: `fuel,oxi` and a newline.
pub open spec fn command_line(c: ValveCommand) -> Seq<u8> {
    seq![flag_byte(c.fuel_open), 44u8, flag_byte(c.oxi_open), 10u8]
}

/// Renders a command as its broadcast line.
pub fn encode_command(c: ValveCommand) -> (r: Vec<u8>)
    ensures
        r@ == command_line(c),
{
    let mut r: Vec<u8> = Vec::new();
    r.push(if c.fuel_open {
        49
    } else {
        48
    });
    r.push(44);
    r.push(if c.oxi_open {
        49
    } else {
        48
    });
    r.push(10);
    proof {
        assert(r@ =~= command_line(c));
    }
    r
}

/// One broadcast tick: reads the relay's current value and renders the
/// line to send, independent of whether the value changed.
pub fn broadcast_tick(relay: &CommandRelay) -> (r: Vec<u8>)
    ensures
        r@ == command_line(relay.current()),
{
    encode_command(relay.get())
}

/// Writes coalesce before a tick: after any non-empty run of relay
/// writes, the next tick sends exactly the line of the last write;
/// lines for earlier values are never sent.
pub proof fn lemma_tick_sends_last_write(init: ValveCommand, cmds: Seq<ValveCommand>)
    requires
        cmds.len() > 0,
    ensures
        command_line(crate::relay::relayed(init, cmds)) == command_line(cmds.last()),
{
    crate::relay::lemma_last_write_wins(init, cmds);
}

} // verus!
