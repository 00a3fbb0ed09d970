use olivaw::drive::cmdvel::{encode_frame, parse_frame, DriveCommand, ParseError, Watchdog, ENCODE_MAX};
use olivaw::drive::controller::{DriveConfig, DriveController, DriveOutput};
use olivaw::drive::governor::Governor;
use olivaw::drive::l298n::{L298n, Motor};
use olivaw::drive::motors::{MockMotors, Motors};
use olivaw::drive::slew::Slew;

#[test]
fn parses_plain_and_padded_frames() {
    assert_eq!(
        parse_frame(b"250,-250"),
        Ok(DriveCommand {
            left: 250,
            right: -250
        })
    );
    assert_eq!(
        parse_frame(b" 1000 , 1000 \n"),
        Ok(DriveCommand {
            left: 1000,
            right: 1000
        })
    );
    assert_eq!(
        parse_frame(b"0,0\r\n"),
        Ok(DriveCommand { left: 0, right: 0 })
    );
}

#[test]
fn rejects_garbage() {
    assert_eq!(parse_frame(b"250"), Err(ParseError::Malformed));
    assert_eq!(parse_frame(b"a,b"), Err(ParseError::Malformed));
    assert_eq!(parse_frame(b"250,-250,7"), Err(ParseError::Malformed));
    assert_eq!(parse_frame(b"1001,0"), Err(ParseError::OutOfRange));
    assert_eq!(parse_frame(b"0,-1001"), Err(ParseError::OutOfRange));
    assert_eq!(parse_frame(&[0xFF, 0xFE]), Err(ParseError::NotUtf8));
}

#[test]
fn parse_follows_str_parse_and_unicode_trim() {
    // Leading '+' and zeros are what `str::parse::<i16>` accepts.
    assert_eq!(parse_frame(b"+5,-0005"), Ok(DriveCommand { left: 5, right: -5 }));
    // Unicode whitespace (NBSP, EM SPACE, IDEOGRAPHIC SPACE) is trimmed too.
    assert_eq!(
        parse_frame("\u{a0}12\u{2003},\u{3000}-7\t".as_bytes()),
        Ok(DriveCommand { left: 12, right: -7 })
    );
    // A sign alone, an empty side, or an i16 overflow is malformed.
    assert_eq!(parse_frame(b"-,1"), Err(ParseError::Malformed));
    assert_eq!(parse_frame(b",1"), Err(ParseError::Malformed));
    assert_eq!(parse_frame(b"40000,1"), Err(ParseError::Malformed));
    // In i16 but out of the speed range, including i16::MIN.
    assert_eq!(parse_frame(b"-32768,0"), Err(ParseError::OutOfRange));
    assert_eq!(parse_frame(b"32767,0"), Err(ParseError::OutOfRange));
    // Whitespace inside a number is not trimmed away.
    assert_eq!(parse_frame(b"1 0,0"), Err(ParseError::Malformed));
    assert_eq!(parse_frame(b""), Err(ParseError::Malformed));
    assert_eq!(ParseError::OutOfRange.message(), "speed outside -1000..=1000");
}

#[test]
fn encode_round_trips() {
    let mut buf = [0u8; ENCODE_MAX];
    for cmd in [
        DriveCommand { left: 0, right: 0 },
        DriveCommand {
            left: -1000,
            right: 1000,
        },
        DriveCommand {
            left: 42,
            right: -7,
        },
    ] {
        let len = encode_frame(cmd, &mut buf).expect("buffer is large enough");
        assert_eq!(parse_frame(&buf[..len]), Ok(cmd));
    }
}

#[test]
fn encode_writes_the_canonical_text_and_clamps() {
    let mut buf = [0xAAu8; 16];
    let len = encode_frame(DriveCommand { left: -1000, right: 1000 }, &mut buf).unwrap();
    assert_eq!(&buf[..len], b"-1000,1000");
    assert_eq!(buf[len], 0xAA);
    let len = encode_frame(DriveCommand { left: i16::MIN, right: 5000 }, &mut buf).unwrap();
    assert_eq!(&buf[..len], b"-1000,1000");
    let len = encode_frame(DriveCommand { left: 7, right: -90 }, &mut buf).unwrap();
    assert_eq!(&buf[..len], b"7,-90");
    assert_eq!(parse_frame(&buf[..len]), Ok(DriveCommand { left: 7, right: -90 }));
}

#[test]
fn encode_needs_a_big_enough_buffer() {
    let mut tiny = [0u8; 4];
    assert_eq!(encode_frame(DriveCommand::default(), &mut tiny), None);
    assert_eq!(tiny, [0u8; 4]);
}

#[test]
fn watchdog_zeroes_after_timeout() {
    let mut dog = Watchdog::new(500);
    // Nothing received yet → stopped.
    assert_eq!(dog.command(0), DriveCommand::default());

    let cmd = DriveCommand {
        left: 300,
        right: 300,
    };
    dog.feed(cmd, 1000);
    assert_eq!(dog.command(1400), cmd, "fresh command passes through");
    assert_eq!(dog.command(1501), DriveCommand::default(), "stale → stop");
}

#[test]
fn watchdog_boundary_is_inclusive() {
    let mut dog = Watchdog::new(500);
    let cmd = DriveCommand { left: 1, right: 2 };
    dog.feed(cmd, 1000);
    assert_eq!(dog.command(1500), cmd);
    assert_eq!(dog.command(999), DriveCommand::default(), "a clock before the feed wraps far ahead");
}

#[test]
fn watchdog_trip_stops_immediately() {
    let mut dog = Watchdog::new(500);
    dog.feed(
        DriveCommand {
            left: 500,
            right: 500,
        },
        0,
    );
    dog.trip();
    assert_eq!(dog.command(1), DriveCommand::default());
}

#[test]
fn watchdog_survives_rollover() {
    let mut dog = Watchdog::new(500);
    let near_wrap = u32::MAX - 100;
    dog.feed(
        DriveCommand {
            left: 100,
            right: 100,
        },
        near_wrap,
    );
    assert_ne!(
        dog.command(near_wrap.wrapping_add(400)),
        DriveCommand::default()
    );
    assert_eq!(
        dog.command(near_wrap.wrapping_add(601)),
        DriveCommand::default()
    );
}

fn ctl() -> DriveController {
    DriveController::new(DriveConfig {
        watchdog_ms: 500,
        max_duty_permille: 500,
        slew_step_permille: 0,
    })
}

#[test]
fn caps_and_passes_a_fresh_command() {
    let mut c = ctl();
    c.feed(
        DriveCommand {
            left: 1000,
            right: -1000,
        },
        0,
    );
    assert_eq!(
        c.tick(10),
        DriveOutput::Drive(DriveCommand {
            left: 500,
            right: -500
        })
    );
    assert!(!c.is_stale());
}

#[test]
fn watchdog_coasts_after_timeout() {
    let mut c = ctl();
    c.feed(
        DriveCommand {
            left: 800,
            right: 800,
        },
        0,
    );
    assert_eq!(c.tick(600), DriveOutput::Drive(DriveCommand::default()));
    assert!(c.is_stale());
}

#[test]
fn estop_brakes_until_cleared() {
    let mut c = ctl();
    c.feed(
        DriveCommand {
            left: 800,
            right: 800,
        },
        0,
    );
    c.estop();
    assert_eq!(c.tick(1), DriveOutput::Brake);
    c.feed(
        DriveCommand {
            left: 800,
            right: 800,
        },
        2,
    );
    assert_eq!(
        c.tick(3),
        DriveOutput::Brake,
        "commands are ignored while latched"
    );
    c.clear();
    c.feed(
        DriveCommand {
            left: 800,
            right: 800,
        },
        4,
    );
    assert_eq!(
        c.tick(5),
        DriveOutput::Drive(DriveCommand {
            left: 400,
            right: 400
        })
    );
}

#[test]
fn inhibit_coasts_but_keeps_listening() {
    let mut c = ctl();
    c.set_inhibited(true);
    c.feed(
        DriveCommand {
            left: 800,
            right: 800,
        },
        0,
    );
    assert_eq!(c.tick(1), DriveOutput::Drive(DriveCommand::default()));
    c.set_inhibited(false);
    assert_eq!(
        c.tick(2),
        DriveOutput::Drive(DriveCommand {
            left: 400,
            right: 400
        })
    );
}

#[test]
fn slew_ramps_the_capped_target() {
    let mut c = DriveController::new(DriveConfig {
        watchdog_ms: 500,
        max_duty_permille: 1000,
        slew_step_permille: 100,
    });
    c.feed(
        DriveCommand {
            left: 300,
            right: 300,
        },
        0,
    );
    assert_eq!(
        c.tick(1),
        DriveOutput::Drive(DriveCommand {
            left: 100,
            right: 100
        })
    );
    assert_eq!(
        c.tick(2),
        DriveOutput::Drive(DriveCommand {
            left: 200,
            right: 200
        })
    );
    assert_eq!(
        c.tick(3),
        DriveOutput::Drive(DriveCommand {
            left: 300,
            right: 300
        })
    );
}

#[test]
fn link_lost_stops_without_waiting() {
    let mut c = ctl();
    c.feed(
        DriveCommand {
            left: 800,
            right: 800,
        },
        0,
    );
    c.link_lost();
    assert_eq!(c.tick(1), DriveOutput::Drive(DriveCommand::default()));
}

#[test]
fn max_duty_can_change_at_runtime() {
    let mut c = ctl();
    c.set_max_duty(1000);
    c.feed(
        DriveCommand {
            left: 1000,
            right: 1000,
        },
        0,
    );
    assert_eq!(
        c.tick(1),
        DriveOutput::Drive(DriveCommand {
            left: 1000,
            right: 1000
        })
    );
    assert_eq!(c.max_duty(), 1000);
}

#[test]
fn controller_defaults_and_output_command() {
    let c = DriveController::new(DriveConfig::default());
    assert_eq!(c.max_duty(), 550);
    assert!(c.is_stale());
    assert!(!c.is_estopped());
    assert_eq!(DriveOutput::Brake.command(), DriveCommand::default());
    let cmd = DriveCommand { left: 3, right: -4 };
    assert_eq!(DriveOutput::Drive(cmd).command(), cmd);
    let mut c = ctl();
    c.estop();
    assert!(c.is_estopped());
    c.set_max_duty(4000);
    assert_eq!(c.max_duty(), 1000);
}

#[test]
fn scales_both_sides_by_the_cap() {
    let g = Governor::new(550);
    let out = g.apply(DriveCommand {
        left: 1000,
        right: -500,
    });
    assert_eq!(
        out,
        DriveCommand {
            left: 550,
            right: -275
        }
    );
}

#[test]
fn cap_is_clamped_and_zero_stops() {
    assert_eq!(Governor::new(5000).max_permille(), 1000);
    let out = Governor::new(0).apply(DriveCommand {
        left: 900,
        right: 900,
    });
    assert_eq!(out, DriveCommand::default());
}

#[test]
fn out_of_range_inputs_are_clamped_first() {
    let out = Governor::new(1000).apply(DriveCommand {
        left: i16::MAX,
        right: i16::MIN,
    });
    assert_eq!(
        out,
        DriveCommand {
            left: 1000,
            right: -1000
        }
    );
}

#[test]
fn governor_rounds_towards_zero() {
    let mut g = Governor::new(550);
    assert_eq!(g.apply(DriveCommand { left: 1, right: -1 }), DriveCommand { left: 0, right: 0 });
    assert_eq!(g.apply(DriveCommand { left: 333, right: -333 }), DriveCommand { left: 183, right: -183 });
    g.set_max_permille(2000);
    assert_eq!(g.max_permille(), 1000);
}

fn motor() -> Motor {
    Motor::new(255)
}

#[test]
fn forward_reverse_and_coast_set_the_truth_table() {
    let mut m = motor();
    m.drive(1000);
    assert!(m.in1_high() && !m.in2_high());
    assert_eq!(m.duty(), 255);

    m.drive(-500);
    assert!(!m.in1_high() && m.in2_high());
    assert_eq!(m.duty(), 127); // 500/1000 × 255, truncated

    m.coast();
    assert!(!m.in1_high() && !m.in2_high());
    assert_eq!(m.duty(), 0);
}

#[test]
fn out_of_range_speeds_clamp() {
    let mut m = motor();
    m.drive(i16::MAX);
    assert_eq!(m.duty(), 255);
    m.drive(i16::MIN);
    assert_eq!(m.duty(), 255);
    assert!(!m.in1_high() && m.in2_high());
}

#[test]
fn brake_ties_both_terminals() {
    let mut m = motor();
    m.brake();
    assert!(m.in1_high() && m.in2_high());
    assert_eq!(m.duty(), 255);
    assert_eq!(m.release(), (true, true, 255));
}

#[test]
fn pair_drives_both_sides() {
    let mut pair = L298n::new(motor(), motor());
    pair.drive(250, -250);
    assert!(pair.left.in1_high());
    assert!(pair.right.in2_high());
    pair.stop();
    assert_eq!(pair.left.duty(), 0);
    assert_eq!(pair.right.duty(), 0);
}

#[test]
fn motors_trait_on_the_pair_and_the_mock() {
    let mut pair = L298n::new(Motor::new(1000), Motor::new(1000));
    assert!(pair.set(DriveCommand { left: 300, right: -700 }).is_ok());
    assert_eq!(pair.left.duty(), 300);
    assert_eq!(pair.right.duty(), 700);
    assert!(pair.brake().is_ok());
    assert!(pair.left.in1_high() && pair.left.in2_high() && pair.right.duty() == 1000);
    assert!(pair.coast().is_ok());
    assert_eq!(pair.left.duty(), 0);

    let mut mock = MockMotors::default();
    mock.set(DriveCommand { left: 5, right: 6 }).unwrap();
    assert_eq!(mock.last, DriveCommand { left: 5, right: 6 });
    mock.brake().unwrap();
    assert!(mock.braked);
    assert_eq!(mock.brakes, 1);
    assert_eq!(mock.last, DriveCommand::default());
    mock.coast().unwrap();
    assert!(!mock.braked);
}

#[test]
fn ramps_up_and_down_by_at_most_the_step() {
    let mut s = Slew::new(100);
    let target = DriveCommand {
        left: 350,
        right: -350,
    };
    assert_eq!(
        s.step(target),
        DriveCommand {
            left: 100,
            right: -100
        }
    );
    assert_eq!(
        s.step(target),
        DriveCommand {
            left: 200,
            right: -200
        }
    );
    assert_eq!(
        s.step(target),
        DriveCommand {
            left: 300,
            right: -300
        }
    );
    assert_eq!(s.step(target), target, "lands exactly on the target");
    assert_eq!(
        s.step(DriveCommand::default()),
        DriveCommand {
            left: 250,
            right: -250
        }
    );
}

#[test]
fn zero_step_disables_ramping() {
    let mut s = Slew::new(0);
    let target = DriveCommand {
        left: 1000,
        right: 1000,
    };
    assert_eq!(s.step(target), target);
}

#[test]
fn reset_restarts_from_the_given_value() {
    let mut s = Slew::new(50);
    s.step(DriveCommand {
        left: 50,
        right: 50,
    });
    s.reset_to(DriveCommand::default());
    assert_eq!(s.current(), DriveCommand::default());
}

#[test]
fn negative_and_extreme_steps_use_the_magnitude() {
    let mut s = Slew::new(-100);
    assert_eq!(s.step(DriveCommand { left: 1000, right: -1000 }), DriveCommand { left: 100, right: -100 });
    let mut s = Slew::new(i16::MIN);
    assert_eq!(s.step(DriveCommand { left: i16::MAX, right: i16::MIN }), DriveCommand { left: i16::MAX, right: -32767 });
}

#[test]
fn commands_fed_while_latched_are_not_replayed_after_clear() {
    let mut c = DriveController::new(DriveConfig {
        watchdog_ms: 500,
        max_duty_permille: 500,
        slew_step_permille: 0,
    });
    c.estop();
    c.feed(DriveCommand { left: 800, right: 800 }, 2);
    assert_eq!(c.tick(2), DriveOutput::Brake);
    c.clear();
    assert_eq!(c.tick(3), DriveOutput::Drive(DriveCommand::default()));
    // The feed while latched still showed the link alive.
    assert!(!c.is_stale());
    c.feed(DriveCommand { left: 800, right: 800 }, 4);
    assert_eq!(c.tick(5), DriveOutput::Drive(DriveCommand { left: 400, right: 400 }));
    assert!(!c.is_stale());
}

#[test]
fn link_reads_alive_while_latched() {
    let mut c = DriveController::new(DriveConfig {
        watchdog_ms: 500,
        max_duty_permille: 500,
        slew_step_permille: 0,
    });
    c.estop();
    c.feed(DriveCommand { left: 100, right: 100 }, 0);
    assert_eq!(c.tick(10), DriveOutput::Brake);
    assert!(!c.is_stale());
    assert_eq!(c.tick(600), DriveOutput::Brake);
    assert!(c.is_stale());
}
