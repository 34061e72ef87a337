use serprog::serprog::{run, Action, Dispatcher, Event, Phase, Wait};
use serprog::serprog::{handles, lengths, POWER_SETTLE_MS, SUPPORTED_CMD};
use serprog::spi::Request;
use serprog::SPI_BUF_LEN;

fn command(op: u8) -> (Dispatcher, Vec<Action>) {
    let mut d = Dispatcher::new();
    let actions = run(&mut d, &Event::Bytes(vec![op]));
    (d, actions)
}

#[test]
fn sync_nop_replies_nak_then_ack() {
    let (d, actions) = command(0x10);
    assert_eq!(actions, vec![Action::Reply(vec![0x15, 0x06])]);
    assert_eq!(d.phase, Phase::Command);
}

#[test]
fn sync_nop_after_other_commands_is_unchanged() {
    let mut d = Dispatcher::new();
    for op in [0x00u8, 0x01, 0x42, 0x05] {
        run(&mut d, &Event::Bytes(vec![op]));
    }
    run(&mut d, &Event::Bytes(vec![0x12]));
    run(&mut d, &Event::Bytes(vec![0x01]));
    assert_eq!(d.pending(), Wait::Bytes { len: 1 });
    assert_eq!(
        run(&mut d, &Event::Bytes(vec![0x10])),
        vec![Action::Reply(vec![0x15, 0x06])]
    );
}

#[test]
fn nop_replies_ack() {
    assert_eq!(command(0x00).1, vec![Action::Reply(vec![0x06])]);
}

#[test]
fn query_interface_replies_version_one() {
    assert_eq!(command(0x01).1, vec![Action::Reply(vec![0x06, 0x01, 0x00])]);
}

#[test]
fn query_programmer_name_is_nul_padded() {
    let mut expected = vec![0x06u8];
    expected.extend_from_slice(b"Rust serprog\0\0\0\0");
    assert_eq!(expected.len(), 17);
    assert_eq!(command(0x03).1, vec![Action::Reply(expected)]);
}

#[test]
fn query_serial_buffer_size_is_32() {
    assert_eq!(command(0x04).1, vec![Action::Reply(vec![0x06, 32, 0])]);
}

#[test]
fn query_command_map_lists_supported_opcodes() {
    let mut expected = vec![0x06u8, 0x3f, 0x01, 0x3f, 0x00];
    expected.resize(33, 0);
    assert_eq!(command(0x02).1, vec![Action::Reply(expected)]);
    assert_eq!(SUPPORTED_CMD, 0x003f_013f);
    for op in [0u32, 1, 2, 3, 4, 5, 8, 0x10, 0x11, 0x12, 0x13, 0x14, 0x15] {
        assert_eq!((SUPPORTED_CMD >> op) & 1, 1);
    }
    assert_eq!(SUPPORTED_CMD.count_ones(), 13);
}

#[test]
fn query_bus_types_reports_spi_only() {
    assert_eq!(command(0x05).1, vec![Action::Reply(vec![0x06, 0x08])]);
}

#[test]
fn query_max_lengths_report_half_the_buffer() {
    let half = SPI_BUF_LEN / 2;
    assert_eq!(half, 8192);
    let expected = vec![0x06u8, 0x00, 0x20, 0x00];
    assert_eq!(command(0x08).1, vec![Action::Reply(expected.clone())]);
    assert_eq!(command(0x11).1, vec![Action::Reply(expected)]);
}

#[test]
fn unknown_opcodes_reply_nak() {
    for op in [0x06u8, 0x07, 0x09, 0x0f, 0x14, 0x16, 0x42, 0xff] {
        let (d, actions) = command(op);
        assert_eq!(actions, vec![Action::Reply(vec![0x15])]);
        assert_eq!(d.phase, Phase::Command);
    }
}

#[test]
fn every_command_without_parameters_is_answered_at_once() {
    for op in 0u8..=255 {
        if op == 0x12 || op == 0x13 || op == 0x15 {
            continue;
        }
        let (d, actions) = command(op);
        assert_eq!(d.phase, Phase::Command);
        assert_eq!(actions.len(), 1);
        match &actions[0] {
            Action::Reply(bytes) => {
                let status = if op == 0x10 || !handles(op) { 0x15 } else { 0x06 };
                assert_eq!(bytes[0], status);
            }
            other => panic!("unexpected action {:?}", other),
        }
    }
}

#[test]
fn set_bus_type_accepts_spi_only() {
    let (mut d, actions) = command(0x12);
    assert_eq!(actions, vec![]);
    assert_eq!(d.phase, Phase::BusType);
    assert_eq!(d.pending(), Wait::Bytes { len: 1 });
    assert_eq!(
        run(&mut d, &Event::Bytes(vec![8])),
        vec![Action::Reply(vec![0x06])]
    );
    assert_eq!(d.phase, Phase::Command);

    for bus in [0u8, 1, 9, 0xff] {
        let (mut d, _) = command(0x12);
        assert_eq!(
            run(&mut d, &Event::Bytes(vec![bus])),
            vec![Action::Reply(vec![0x15])]
        );
        assert_eq!(d.phase, Phase::Command);
    }
}

#[test]
fn pin_state_enable_powers_before_enabling() {
    let (mut d, actions) = command(0x15);
    assert_eq!(actions, vec![]);
    assert_eq!(d.phase, Phase::PinState);
    assert_eq!(POWER_SETTLE_MS, 100);
    assert_eq!(
        run(&mut d, &Event::Bytes(vec![1])),
        vec![
            Action::PowerOn,
            Action::Send(Request::Enable),
            Action::Settle { millis: 100 },
            Action::Reply(vec![0x06]),
        ]
    );
    assert_eq!(d.phase, Phase::Command);
}

#[test]
fn pin_state_disable_quiesces_before_cutting_power() {
    let (mut d, _) = command(0x15);
    assert_eq!(
        run(&mut d, &Event::Bytes(vec![0])),
        vec![
            Action::Send(Request::Disable),
            Action::PowerOff,
            Action::Reply(vec![0x06]),
        ]
    );
    assert_eq!(d.phase, Phase::Command);
}

#[test]
fn lengths_are_24_bit_little_endian() {
    assert_eq!(lengths(&vec![2, 0, 0, 3, 0, 0]), (2, 3));
    assert_eq!(lengths(&vec![0x34, 0x12, 0x00, 0x00, 0x40, 0x00]), (0x1234, 0x4000));
    assert_eq!(
        lengths(&vec![0xff, 0xff, 0xff, 0x01, 0x02, 0x03]),
        (0xff_ffff, 0x03_0201)
    );
}

#[test]
fn spi_operation_reads_payload_then_sends_transfer() {
    let (mut d, actions) = command(0x13);
    assert_eq!(actions, vec![]);
    assert_eq!(d.pending(), Wait::Bytes { len: 6 });

    let params = Event::Bytes(vec![2, 0, 0, 3, 0, 0]);
    assert!(d.accepts(&params));
    assert_eq!(run(&mut d, &params), vec![]);
    assert_eq!(d.phase, Phase::Payload { txlen: 2, rxlen: 3 });
    assert_eq!(d.pending(), Wait::Payload { len: 2 });

    assert_eq!(
        run(&mut d, &Event::Stored),
        vec![Action::Send(Request::Transfer { txlen: 2, rxlen: 3 })]
    );
    assert_eq!(d.pending(), Wait::Outcome);

    let done = Event::Completed { ok: true };
    assert!(d.accepts(&done));
    assert_eq!(
        run(&mut d, &done),
        vec![
            Action::Reply(vec![0x06]),
            Action::ReplyFromBuffer { start: 2, len: 3 },
        ]
    );
    assert_eq!(d.phase, Phase::Command);
}

#[test]
fn spi_operation_without_payload_sends_at_once() {
    let (mut d, _) = command(0x13);
    assert_eq!(
        run(&mut d, &Event::Bytes(vec![0, 0, 0, 4, 0, 0])),
        vec![Action::Send(Request::Transfer { txlen: 0, rxlen: 4 })]
    );
    assert_eq!(d.phase, Phase::Outcome { txlen: 0, rxlen: 4 });
}

#[test]
fn spi_operation_without_response_replies_ack_alone() {
    let (mut d, _) = command(0x13);
    run(&mut d, &Event::Bytes(vec![1, 0, 0, 0, 0, 0]));
    run(&mut d, &Event::Stored);
    assert_eq!(
        run(&mut d, &Event::Completed { ok: true }),
        vec![Action::Reply(vec![0x06])]
    );
}

#[test]
fn failed_transfer_replies_nak_alone() {
    let (mut d, _) = command(0x13);
    run(&mut d, &Event::Bytes(vec![2, 0, 0, 3, 0, 0]));
    run(&mut d, &Event::Stored);
    assert_eq!(
        run(&mut d, &Event::Completed { ok: false }),
        vec![Action::Reply(vec![0x15])]
    );
    assert_eq!(d.phase, Phase::Command);
    assert_eq!(
        run(&mut d, &Event::Bytes(vec![0x00])),
        vec![Action::Reply(vec![0x06])]
    );
}

#[test]
fn lengths_beyond_the_buffer_are_fatal() {
    let (d, _) = command(0x13);
    // 0x4000 is the capacity, 0x4001 is one more.
    assert!(d.accepts(&Event::Bytes(vec![0x00, 0x40, 0x00, 0x00, 0x40, 0x00])));
    assert!(!d.accepts(&Event::Bytes(vec![0x01, 0x40, 0x00, 0x00, 0x00, 0x00])));
    assert!(!d.accepts(&Event::Bytes(vec![0x00, 0x00, 0x00, 0x01, 0x40, 0x00])));
    assert!(!d.accepts(&Event::Bytes(vec![0xff, 0xff, 0xff, 0xff, 0xff, 0xff])));
}

#[test]
fn reply_region_beyond_the_buffer_is_fatal() {
    let (mut d, _) = command(0x13);
    run(&mut d, &Event::Bytes(vec![0x00, 0x40, 0x00, 0x01, 0x00, 0x00]));
    run(&mut d, &Event::Stored);
    assert_eq!(d.phase, Phase::Outcome { txlen: 0x4000, rxlen: 1 });
    assert!(!d.accepts(&Event::Completed { ok: true }));
    assert!(d.accepts(&Event::Completed { ok: false }));
}

#[test]
fn unexpected_events_change_nothing() {
    let mut d = Dispatcher::new();
    assert_eq!(run(&mut d, &Event::Stored), vec![]);
    assert_eq!(run(&mut d, &Event::Completed { ok: true }), vec![]);
    assert_eq!(run(&mut d, &Event::Bytes(vec![])), vec![]);
    assert_eq!(run(&mut d, &Event::Bytes(vec![0x10, 0x10])), vec![]);
    assert_eq!(d.phase, Phase::Command);

    let (mut d, _) = command(0x13);
    assert_eq!(run(&mut d, &Event::Bytes(vec![0x10])), vec![]);
    assert_eq!(d.phase, Phase::Lengths);
}

#[test]
fn handled_opcodes_are_the_advertised_ones_but_spi_frequency() {
    for op in 0u8..=255 {
        let advertised = op < 32 && (SUPPORTED_CMD >> op) & 1 == 1;
        assert_eq!(handles(op), advertised && op != 0x14);
    }
}
