use serprog::spi::{admits, worker, Hardware, Operation, Request};

#[test]
fn enable_acquires_once() {
    let mut hw = Hardware::Disabled;
    let mut buf = vec![0u8; 8];
    assert_eq!(worker(&mut hw, Request::Enable, &mut buf), vec![Operation::Acquire]);
    assert_eq!(hw, Hardware::Enabled);
    assert_eq!(worker(&mut hw, Request::Enable, &mut buf), vec![]);
    assert_eq!(hw, Hardware::Enabled);
}

#[test]
fn disable_releases_chip_select_when_enabled() {
    let mut hw = Hardware::Enabled;
    let mut buf = vec![0u8; 8];
    assert_eq!(
        worker(&mut hw, Request::Disable, &mut buf),
        vec![Operation::Release, Operation::DisconnectChipSelect]
    );
    assert_eq!(hw, Hardware::Disabled);
}

#[test]
fn disable_releases_chip_select_when_never_enabled() {
    let mut hw = Hardware::Disabled;
    let mut buf = vec![0u8; 8];
    assert_eq!(
        worker(&mut hw, Request::Disable, &mut buf),
        vec![Operation::DisconnectChipSelect]
    );
    assert_eq!(hw, Hardware::Disabled);
}

#[test]
fn enable_after_disable_acquires_again() {
    let mut hw = Hardware::Disabled;
    let mut buf = vec![0u8; 8];
    worker(&mut hw, Request::Enable, &mut buf);
    worker(&mut hw, Request::Disable, &mut buf);
    assert_eq!(worker(&mut hw, Request::Enable, &mut buf), vec![Operation::Acquire]);
}

#[test]
fn transfer_zero_fills_the_receive_region() {
    let mut hw = Hardware::Enabled;
    let mut buf = vec![0xeeu8; 8];
    buf[0] = 0xaa;
    buf[1] = 0xbb;
    let ops = worker(&mut hw, Request::Transfer { txlen: 2, rxlen: 3 }, &mut buf);
    assert_eq!(
        ops,
        vec![
            Operation::Select,
            Operation::Exchange { len: 5 },
            Operation::Deselect,
            Operation::Report,
        ]
    );
    assert_eq!(buf, vec![0xaa, 0xbb, 0, 0, 0, 0xee, 0xee, 0xee]);
    assert_eq!(hw, Hardware::Enabled);
}

#[test]
fn transfer_leaves_the_buffer_when_not_receiving_more() {
    let mut hw = Hardware::Enabled;
    let mut buf = vec![1u8, 2, 3, 4, 5, 6, 7, 8];
    let ops = worker(&mut hw, Request::Transfer { txlen: 3, rxlen: 3 }, &mut buf);
    assert_eq!(ops[1], Operation::Exchange { len: 6 });
    assert_eq!(buf, vec![1, 2, 3, 4, 5, 6, 7, 8]);

    let ops = worker(&mut hw, Request::Transfer { txlen: 4, rxlen: 0 }, &mut buf);
    assert_eq!(ops[1], Operation::Exchange { len: 4 });
    assert_eq!(buf, vec![1, 2, 3, 4, 5, 6, 7, 8]);
}

#[test]
fn transfer_may_fill_the_whole_buffer() {
    let mut hw = Hardware::Enabled;
    let mut buf = vec![9u8; 4];
    assert!(admits(hw, Request::Transfer { txlen: 0, rxlen: 4 }, buf.len()));
    let ops = worker(&mut hw, Request::Transfer { txlen: 0, rxlen: 4 }, &mut buf);
    assert_eq!(ops[1], Operation::Exchange { len: 4 });
    assert_eq!(buf, vec![0, 0, 0, 0]);
}

#[test]
fn transfer_while_disabled_is_not_admitted() {
    assert!(!admits(
        Hardware::Disabled,
        Request::Transfer { txlen: 2, rxlen: 3 },
        16384
    ));
    assert!(admits(
        Hardware::Enabled,
        Request::Transfer { txlen: 2, rxlen: 3 },
        16384
    ));
}

#[test]
fn transfer_beyond_the_buffer_is_not_admitted() {
    let hw = Hardware::Enabled;
    assert!(admits(hw, Request::Transfer { txlen: 8000, rxlen: 8384 }, 16384));
    assert!(!admits(hw, Request::Transfer { txlen: 8001, rxlen: 8384 }, 16384));
    assert!(!admits(hw, Request::Transfer { txlen: usize::MAX, rxlen: 1 }, 16384));
    assert!(!admits(hw, Request::Transfer { txlen: 16385, rxlen: 0 }, 16384));
}

#[test]
fn enable_and_disable_are_always_admitted() {
    for hw in [Hardware::Disabled, Hardware::Enabled] {
        assert!(admits(hw, Request::Enable, 0));
        assert!(admits(hw, Request::Disable, 0));
    }
}
