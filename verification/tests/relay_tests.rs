use groundcontrol::broadcast_line::broadcast_tick;
use groundcontrol::broadcast_line::encode_command;
use groundcontrol::relay::CommandRelay;
use groundcontrol::relay::ValveCommand;

#[test]
fn default_is_both_closed() {
    let relay = CommandRelay::new();
    assert_eq!(
        relay.get(),
        ValveCommand {
            fuel_open: false,
            oxi_open: false
        }
    );
    assert_eq!(
        ValveCommand::default(),
        ValveCommand {
            fuel_open: false,
            oxi_open: false
        }
    );
}

#[test]
fn five_ticks_without_set_all_send_closed() {
    let relay = CommandRelay::new();
    for _ in 0..5 {
        assert_eq!(broadcast_tick(&relay), b"0,0\n".to_vec());
    }
}

#[test]
fn last_write_wins_before_a_tick() {
    let mut relay = CommandRelay::new();
    let writes = [
        ValveCommand {
            fuel_open: true,
            oxi_open: true,
        },
        ValveCommand {
            fuel_open: false,
            oxi_open: true,
        },
        ValveCommand {
            fuel_open: true,
            oxi_open: false,
        },
        ValveCommand {
            fuel_open: false,
            oxi_open: false,
        },
        ValveCommand {
            fuel_open: true,
            oxi_open: true,
        },
    ];
    for w in writes {
        relay.set(w);
    }
    // Only the last of the five writes is observable.
    assert_eq!(
        relay.get(),
        ValveCommand {
            fuel_open: true,
            oxi_open: true
        }
    );
    assert_eq!(broadcast_tick(&relay), b"1,1\n".to_vec());
}

#[test]
fn encodes_every_flag_combination() {
    let cases = [
        (false, false, &b"0,0\n"[..]),
        (true, false, &b"1,0\n"[..]),
        (false, true, &b"0,1\n"[..]),
        (true, true, &b"1,1\n"[..]),
    ];
    for (fuel_open, oxi_open, expected) in cases {
        assert_eq!(
            encode_command(ValveCommand { fuel_open, oxi_open }),
            expected.to_vec()
        );
    }
}

#[test]
fn tick_reflects_latest_set() {
    let mut relay = CommandRelay::new();
    relay.set(ValveCommand {
        fuel_open: true,
        oxi_open: false,
    });
    assert_eq!(broadcast_tick(&relay), b"1,0\n".to_vec());
    // The tick does not consume the value: it is re-sent unchanged.
    assert_eq!(broadcast_tick(&relay), b"1,0\n".to_vec());
}
