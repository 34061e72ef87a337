//! The serprog command dispatcher.
//!
//! The dispatcher handles one command at a time. It is a state machine: its
//! [`Phase`] says what input it waits for ([`Dispatcher::pending`]), and
//! [`run`] takes that input and returns the side effects that are due, in
//! order. Between commands it is always in [`Phase::Command`], so a reply
//! never depends on the commands that came before.

use vstd::prelude::*;
use crate::spi::Request;
use crate::SPI_BUF_LEN;

verus! {

/// Status byte of a positive reply.
pub const S_ACK: u8 = 0x06;
/// Status byte of a negative reply.
pub const S_NAK: u8 = 0x15;
/// No operation.
pub const S_CMD_NOP: u8 = 0x00;
/// Query interface version.
pub const S_CMD_Q_IFACE: u8 = 0x01;
/// Query supported commands bitmap.
pub const S_CMD_Q_CMDMAP: u8 = 0x02;
/// Query programmer name.
pub const S_CMD_Q_PGMNAME: u8 = 0x03;
/// Query serial buffer size.
pub const S_CMD_Q_SERBUF: u8 = 0x04;
/// Query supported bus types.
pub const S_CMD_Q_BUSTYPE: u8 = 0x05;
/// Query maximum write-n length.
pub const S_CMD_Q_WRNMAXLEN: u8 = 0x08;
/// Special no-operation that returns NAK then ACK.
pub const S_CMD_SYNCNOP: u8 = 0x10;
/// Query maximum read-n length.
pub const S_CMD_Q_RDNMAXLEN: u8 = 0x11;
/// Set used bus type(s).
pub const S_CMD_S_BUSTYPE: u8 = 0x12;
/// Perform SPI operation.
pub const S_CMD_O_SPIOP: u8 = 0x13;
/// Set SPI clock frequency.
pub const S_CMD_S_SPI_FREQ: u8 = 0x14;
/// Enable or disable the output drivers.
pub const S_CMD_S_PIN_STATE: u8 = 0x15;

/// Bitmap of the advertised opcodes: bit `n` stands for opcode `n`.
pub const SUPPORTED_CMD: u32 = 0x003F_013F;

/// Bus type mask with only the SPI bit set.
pub const BUS_SPI: u8 = 8;

/// Serial buffer size reported to the host.
pub const SERIAL_BUFFER_SIZE: u16 = 32;

/// Time in milliseconds that the flash chip is given to power on.
pub const POWER_SETTLE_MS: u64 = 100;

/// Whether `op` is one of the advertised opcodes.
pub open spec fn is_supported(op: u8) -> bool {
    op == S_CMD_NOP || op == S_CMD_Q_IFACE || op == S_CMD_Q_CMDMAP || op == S_CMD_Q_PGMNAME
        || op == S_CMD_Q_SERBUF || op == S_CMD_Q_BUSTYPE || op == S_CMD_Q_WRNMAXLEN
        || op == S_CMD_SYNCNOP || op == S_CMD_Q_RDNMAXLEN || op == S_CMD_S_BUSTYPE
        || op == S_CMD_O_SPIOP || op == S_CMD_S_SPI_FREQ || op == S_CMD_S_PIN_STATE
}

/// Whether the dispatcher knows the command `op`. Every other opcode is
/// answered with NAK; set-spi-frequency is advertised and yet not known.
pub open spec fn is_handled(op: u8) -> bool {
    is_supported(op) && op != S_CMD_S_SPI_FREQ
}

/// Whether `op` is followed by parameter bytes that the dispatcher reads.
pub open spec fn takes_parameters(op: u8) -> bool {
    op == S_CMD_S_BUSTYPE || op == S_CMD_O_SPIOP || op == S_CMD_S_PIN_STATE
}

/// The lowest `n` bytes of `v`, least significant first, for `n <= 4`.
pub open spec fn le_bytes(v: nat, n: nat) -> Seq<u8> {
    seq![
        (v % 256) as u8,
        (v / 256 % 256) as u8,
        (v / 65536 % 256) as u8,
        (v / 16777216 % 256) as u8,
    ].take(n as int)
}

/// The number that three bytes hold, least significant first.
pub open spec fn le24(b: Seq<u8>) -> nat
    recommends
        b.len() == 3,
{
    (b[0] + 256 * b[1] + 65536 * b[2]) as nat
}

/// The programmer's name, NUL-padded to 16 bytes.
pub open spec fn programmer_name() -> Seq<u8> {
    seq![
        0x52u8, 0x75u8, 0x73u8, 0x74u8, 0x20u8, 0x73u8, 0x65u8, 0x72u8,
        0x70u8, 0x72u8, 0x6fu8, 0x67u8, 0x00u8, 0x00u8, 0x00u8, 0x00u8,
    ]
}

/// The 32-byte command map: the bitmap, least significant byte first,
/// padded with zeros.
pub open spec fn command_map() -> Seq<u8> {
    le_bytes(SUPPORTED_CMD as nat, 4) + Seq::new(28, |i: int| 0u8)
}

/// The whole reply to a command that takes no parameters.
pub open spec fn reply(op: u8) -> Seq<u8>
    recommends
        !takes_parameters(op),
{
    if op == S_CMD_NOP {
        seq![S_ACK]
    } else if op == S_CMD_Q_IFACE {
        seq![S_ACK, 1u8, 0u8]
    } else if op == S_CMD_Q_PGMNAME {
        seq![S_ACK] + programmer_name()
    } else if op == S_CMD_Q_SERBUF {
        seq![S_ACK] + le_bytes(SERIAL_BUFFER_SIZE as nat, 2)
    } else if op == S_CMD_Q_CMDMAP {
        seq![S_ACK] + command_map()
    } else if op == S_CMD_SYNCNOP {
        seq![S_NAK, S_ACK]
    } else if op == S_CMD_Q_BUSTYPE {
        seq![S_ACK, BUS_SPI]
    } else if op == S_CMD_Q_WRNMAXLEN || op == S_CMD_Q_RDNMAXLEN {
        seq![S_ACK] + le_bytes((SPI_BUF_LEN / 2) as nat, 3)
    } else {
        seq![S_NAK]
    }
}

/// What the dispatcher is waiting for.
#[derive(Clone, Copy, Debug, PartialEq, Eq, Structural)]
pub enum Phase {
    /// The next command byte.
    Command,
    /// The bus type byte of set-bus-type.
    BusType,
    /// The six length bytes of spi-operation.
    Lengths,
    /// The outgoing payload of spi-operation, read into the shared buffer.
    Payload { txlen: usize, rxlen: usize },
    /// The worker's result for the transfer.
    Outcome { txlen: usize, rxlen: usize },
    /// The boolean byte of set-pin-state.
    PinState,
}

/// The input that the dispatcher suspends on.
#[derive(Clone, Copy, Debug, PartialEq, Eq, Structural)]
pub enum Wait {
    /// Exactly `len` bytes from the transport.
    Bytes { len: usize },
    /// Exactly `len` bytes from the transport, stored at the start of the shared buffer.
    Payload { len: usize },
    /// The worker's result signal.
    Outcome,
}

/// An input handed to the dispatcher.
#[derive(Clone, Debug, PartialEq, Eq)]
pub enum Event {
    /// The bytes asked for by [`Wait::Bytes`].
    Bytes(Vec<u8>),
    /// The payload asked for by [`Wait::Payload`] is in the shared buffer.
    Stored,
    /// The worker has signalled the result of the transfer.
    Completed { ok: bool },
}

/// The mathematical value of an [`Event`].
pub enum EventView {
    Bytes(Seq<u8>),
    Stored,
    Completed { ok: bool },
}

impl View for Event {
    type V = EventView;

    open spec fn view(&self) -> EventView {
        match self {
            Event::Bytes(b) => EventView::Bytes(b@),
            Event::Stored => EventView::Stored,
            Event::Completed { ok } => EventView::Completed { ok: *ok },
        }
    }
}

/// A side effect that the dispatcher asks its caller to perform.
#[derive(Clone, Debug, PartialEq, Eq)]
pub enum Action {
    /// Write these bytes to the transport.
    Reply(Vec<u8>),
    /// Write bytes `[start, start + len)` of the shared buffer to the transport.
    ReplyFromBuffer { start: usize, len: usize },
    /// Drive the power pin active (low).
    PowerOn,
    /// Drive the power pin inactive (high).
    PowerOff,
    /// Send a request to the SPI worker.
    Send(Request),
    /// Suspend for the given time.
    Settle { millis: u64 },
}

/// The mathematical value of an [`Action`].
pub enum ActionView {
    Reply(Seq<u8>),
    ReplyFromBuffer { start: usize, len: usize },
    PowerOn,
    PowerOff,
    Send(Request),
    Settle { millis: u64 },
}

impl View for Action {
    type V = ActionView;

    open spec fn view(&self) -> ActionView {
        match self {
            Action::Reply(b) => ActionView::Reply(b@),
            Action::ReplyFromBuffer { start, len } => ActionView::ReplyFromBuffer {
                start: *start,
                len: *len,
            },
            Action::PowerOn => ActionView::PowerOn,
            Action::PowerOff => ActionView::PowerOff,
            Action::Send(r) => ActionView::Send(*r),
            Action::Settle { millis } => ActionView::Settle { millis: *millis },
        }
    }
}

/// The values of a list of actions.
pub open spec fn views(actions: Seq<Action>) -> Seq<ActionView> {
    actions.map_values(|a: Action| a@)
}

/// The input that the dispatcher waits for in `phase`.
pub open spec fn awaited(phase: Phase) -> Wait {
    match phase {
        Phase::Command | Phase::BusType | Phase::PinState => Wait::Bytes { len: 1 },
        Phase::Lengths => Wait::Bytes { len: 6 },
        Phase::Payload { txlen, .. } => Wait::Payload { len: txlen },
        Phase::Outcome { .. } => Wait::Outcome,
    }
}

/// Whether `event` is the input that the dispatcher waits for in `phase`.
pub open spec fn answers(phase: Phase, event: EventView) -> bool {
    match (awaited(phase), event) {
        (Wait::Bytes { len }, EventView::Bytes(b)) => b.len() == len,
        (Wait::Payload { .. }, EventView::Stored) => true,
        (Wait::Outcome, EventView::Completed { .. }) => true,
        _ => false,
    }
}

/// Whether handling `event` in `phase` is a fatal fault: a length parameter
/// beyond the shared buffer's capacity, or a reply region that does not lie
/// within the shared buffer.
pub open spec fn fatal(phase: Phase, event: EventView) -> bool {
    match (phase, event) {
        (Phase::Lengths, EventView::Bytes(b)) => b.len() == 6 && (le24(b.subrange(0, 3))
            > SPI_BUF_LEN || le24(b.subrange(3, 6)) > SPI_BUF_LEN),
        (Phase::Outcome { txlen, rxlen }, EventView::Completed { ok }) => ok && rxlen > 0 && txlen
            + rxlen > SPI_BUF_LEN,
        _ => false,
    }
}

/// The phase that follows `phase` once `event` is handled. An event that is
/// not the awaited input changes nothing.
pub open spec fn next_phase(phase: Phase, event: EventView) -> Phase {
    if !answers(phase, event) {
        phase
    } else {
        match (phase, event) {
            (Phase::Command, EventView::Bytes(b)) => if b[0] == S_CMD_S_BUSTYPE {
                Phase::BusType
            } else if b[0] == S_CMD_O_SPIOP {
                Phase::Lengths
            } else if b[0] == S_CMD_S_PIN_STATE {
                Phase::PinState
            } else {
                Phase::Command
            },
            (Phase::Lengths, EventView::Bytes(b)) => {
                let txlen = le24(b.subrange(0, 3)) as usize;
                let rxlen = le24(b.subrange(3, 6)) as usize;
                if txlen > 0 {
                    Phase::Payload { txlen, rxlen }
                } else {
                    Phase::Outcome { txlen, rxlen }
                }
            },
            (Phase::Payload { txlen, rxlen }, _) => Phase::Outcome { txlen, rxlen },
            _ => Phase::Command,
        }
    }
}

/// The side effects due when `event` is handled in `phase`, in order. An
/// event that is not the awaited input has none.
pub open spec fn effects(phase: Phase, event: EventView) -> Seq<ActionView> {
    if !answers(phase, event) {
        Seq::empty()
    } else {
        match (phase, event) {
            (Phase::Command, EventView::Bytes(b)) => if takes_parameters(b[0]) {
                Seq::empty()
            } else {
                seq![ActionView::Reply(reply(b[0]))]
            },
            (Phase::BusType, EventView::Bytes(b)) => seq![
                ActionView::Reply(seq![if b[0] == BUS_SPI { S_ACK } else { S_NAK }]),
            ],
            (Phase::Lengths, EventView::Bytes(b)) => {
                let txlen = le24(b.subrange(0, 3)) as usize;
                let rxlen = le24(b.subrange(3, 6)) as usize;
                if txlen > 0 {
                    Seq::empty()
                } else {
                    seq![ActionView::Send(Request::Transfer { txlen, rxlen })]
                }
            },
            (Phase::Payload { txlen, rxlen }, _) => seq![
                ActionView::Send(Request::Transfer { txlen, rxlen }),
            ],
            (Phase::Outcome { txlen, rxlen }, EventView::Completed { ok }) => if !ok {
                seq![ActionView::Reply(seq![S_NAK])]
            } else if rxlen > 0 {
                seq![
                    ActionView::Reply(seq![S_ACK]),
                    ActionView::ReplyFromBuffer { start: txlen, len: rxlen },
                ]
            } else {
                seq![ActionView::Reply(seq![S_ACK])]
            },
            (Phase::PinState, EventView::Bytes(b)) => if b[0] != 0 {
                seq![
                    ActionView::PowerOn,
                    ActionView::Send(Request::Enable),
                    ActionView::Settle { millis: POWER_SETTLE_MS },
                    ActionView::Reply(seq![S_ACK]),
                ]
            } else {
                seq![
                    ActionView::Send(Request::Disable),
                    ActionView::PowerOff,
                    ActionView::Reply(seq![S_ACK]),
                ]
            },
            _ => Seq::empty(),
        }
    }
}

/// The phase of a dispatcher that started between two commands and has
/// handled the events of `history`, oldest first.
pub open spec fn phase_after(history: Seq<EventView>) -> Phase
    decreases history.len(),
{
    if history.len() == 0 {
        Phase::Command
    } else {
        next_phase(phase_after(history.drop_last()), history.last())
    }
}

/// The dispatcher's state.
#[derive(Clone, Copy, Debug)]
pub struct Dispatcher {
    pub phase: Phase,
}

impl Dispatcher {
    /// A dispatcher that waits for its first command.
    pub fn new() -> (d: Dispatcher)
        ensures
            d.phase == Phase::Command,
    {
        Dispatcher { phase: Phase::Command }
    }

    /// The input that the dispatcher suspends on next.
    pub fn pending(&self) -> (w: Wait)
        ensures
            w == awaited(self.phase),
    {
        match self.phase {
            Phase::Command => Wait::Bytes { len: 1 },
            Phase::BusType => Wait::Bytes { len: 1 },
            Phase::PinState => Wait::Bytes { len: 1 },
            Phase::Lengths => Wait::Bytes { len: 6 },
            Phase::Payload { txlen, rxlen } => Wait::Payload { len: txlen },
            Phase::Outcome { txlen, rxlen } => Wait::Outcome,
        }
    }

    /// Tells whether [`run`] can handle `event`: the caller halts where it
    /// cannot.
    pub fn accepts(&self, event: &Event) -> (r: bool)
        ensures
            r == !fatal(self.phase, event@),
    {
        match (self.phase, event) {
            (Phase::Lengths, Event::Bytes(b)) => {
                if b.len() != 6 {
                    true
                } else {
                    let (txlen, rxlen) = lengths(b);
                    txlen <= SPI_BUF_LEN && rxlen <= SPI_BUF_LEN
                }
            },
            (Phase::Outcome { txlen, rxlen }, Event::Completed { ok }) => {
                !(*ok && rxlen > 0 && (txlen > SPI_BUF_LEN || rxlen > SPI_BUF_LEN - txlen))
            },
            _ => true,
        }
    }
}

/// Tells whether the dispatcher knows the command `op`.
pub fn handles(op: u8) -> (r: bool)
    ensures
        r == is_handled(op),
{
    op <= S_CMD_Q_BUSTYPE || op == S_CMD_Q_WRNMAXLEN || op == S_CMD_SYNCNOP || op
        == S_CMD_Q_RDNMAXLEN || op == S_CMD_S_BUSTYPE || op == S_CMD_O_SPIOP || op
        == S_CMD_S_PIN_STATE
}

/// Decodes the two 24-bit little-endian lengths of an spi-operation.
pub fn lengths(params: &Vec<u8>) -> (r: (usize, usize))
    requires
        params@.len() == 6,
    ensures
        r.0 == le24(params@.subrange(0, 3)),
        r.1 == le24(params@.subrange(3, 6)),
        r.0 < 0x100_0000 && r.1 < 0x100_0000,
{
    let txlen: usize = params[0] as usize + 256 * (params[1] as usize) + 65536 * (params[2] as usize);
    let rxlen: usize = params[3] as usize + 256 * (params[4] as usize) + 65536 * (params[5] as usize);
    (txlen, rxlen)
}

/// The lowest `n` bytes of `v`, least significant first.
fn le_vec(v: u32, n: usize) -> (r: Vec<u8>)
    requires
        n <= 4,
    ensures
        r@ == le_bytes(v as nat, n as nat),
{
    let all: [u8; 4] = [
        (v % 256) as u8,
        (v / 256 % 256) as u8,
        (v / 65536 % 256) as u8,
        (v / 16777216 % 256) as u8,
    ];
    let mut r: Vec<u8> = Vec::new();
    let mut i: usize = 0;
    while i < n
        invariant
            i <= n <= 4,
            r@ =~= all@.take(i as int),
        decreases n - i,
    {
        r.push(all[i]);
        i += 1;
    }
    assert(all@ =~= seq![
        (v % 256) as u8,
        (v / 256 % 256) as u8,
        (v / 65536 % 256) as u8,
        (v / 16777216 % 256) as u8,
    ]);
    r
}

/// Appends `tail` to `head`.
fn append(head: &mut Vec<u8>, tail: &Vec<u8>)
    ensures
        final(head)@ == old(head)@ + tail@,
{
    let mut i: usize = 0;
    while i < tail.len()
        invariant
            i <= tail.len(),
            head@ =~= old(head)@ + tail@.take(i as int),
        decreases tail.len() - i,
    {
        head.push(tail[i]);
        i += 1;
    }
    assert(tail@.take(tail@.len() as int) =~= tail@);
}

/// A reply that holds the status byte alone.
fn status_byte(status: u8) -> (r: Vec<u8>)
    ensures
        r@ == seq![status],
{
    let mut r: Vec<u8> = Vec::new();
    r.push(status);
    assert(r@ =~= seq![status]);
    r
}

/// The whole reply to the command `op`, which takes no parameters.
fn reply_to(op: u8) -> (r: Vec<u8>)
    requires
        !takes_parameters(op),
    ensures
        r@ == reply(op),
{
    let mut r: Vec<u8> = Vec::new();
    if op == S_CMD_SYNCNOP {
        r.push(S_NAK);
        r.push(S_ACK);
    } else if op == S_CMD_NOP {
        r.push(S_ACK);
    } else if op == S_CMD_Q_IFACE {
        r.push(S_ACK);
        r.push(1);
        r.push(0);
    } else if op == S_CMD_Q_PGMNAME {
        r.push(S_ACK);
        let name: Vec<u8> = vec![
            0x52u8, 0x75u8, 0x73u8, 0x74u8, 0x20u8, 0x73u8, 0x65u8, 0x72u8,
            0x70u8, 0x72u8, 0x6fu8, 0x67u8, 0x00u8, 0x00u8, 0x00u8, 0x00u8,
        ];
        append(&mut r, &name);
    } else if op == S_CMD_Q_SERBUF {
        r.push(S_ACK);
        let size = le_vec(SERIAL_BUFFER_SIZE as u32, 2);
        append(&mut r, &size);
    } else if op == S_CMD_Q_CMDMAP {
        r.push(S_ACK);
        let map = le_vec(SUPPORTED_CMD, 4);
        append(&mut r, &map);
        let mut i: usize = 0;
        while i < 28
            invariant
                i <= 28,
                r@ =~= seq![S_ACK] + le_bytes(SUPPORTED_CMD as nat, 4) + Seq::new(i as nat, |k: int| 0u8),
            decreases 28 - i,
        {
            r.push(0);
            i += 1;
        }
        assert(r@ =~= seq![S_ACK] + command_map());
    } else if op == S_CMD_Q_BUSTYPE {
        r.push(S_ACK);
        r.push(BUS_SPI);
    } else if op == S_CMD_Q_WRNMAXLEN || op == S_CMD_Q_RDNMAXLEN {
        r.push(S_ACK);
        let max = le_vec((SPI_BUF_LEN / 2) as u32, 3);
        append(&mut r, &max);
    } else {
        r.push(S_NAK);
    }
    assert(r@ =~= reply(op));
    r
}

/// Handles one input: moves the dispatcher to its next phase and returns
/// the side effects to perform, in order.
///
/// In [`Phase::Command`] the input is the command byte. A command without
/// parameters is answered at once; set-bus-type, spi-operation and
/// set-pin-state first read their parameters. Enabling the drivers powers
/// the chip before the worker is told to enable, and acknowledges after the
/// settle time; disabling tells the worker first and cuts power after.
pub fn run(dispatcher: &mut Dispatcher, event: &Event) -> (actions: Vec<Action>)
    requires
        !fatal(old(dispatcher).phase, event@),
    ensures
        final(dispatcher).phase == next_phase(old(dispatcher).phase, event@),
        views(actions@) == effects(old(dispatcher).phase, event@),
{
    let mut actions: Vec<Action> = Vec::new();
    match (dispatcher.phase, event) {
        (Phase::Command, Event::Bytes(b)) => {
            if b.len() == 1 {
                let op = b[0];
                if op == S_CMD_S_BUSTYPE {
                    dispatcher.phase = Phase::BusType;
                } else if op == S_CMD_O_SPIOP {
                    dispatcher.phase = Phase::Lengths;
                } else if op == S_CMD_S_PIN_STATE {
                    dispatcher.phase = Phase::PinState;
                } else {
                    actions.push(Action::Reply(reply_to(op)));
                }
            }
        },
        (Phase::BusType, Event::Bytes(b)) => {
            if b.len() == 1 {
                let status = if b[0] == BUS_SPI { S_ACK } else { S_NAK };
                actions.push(Action::Reply(status_byte(status)));
                dispatcher.phase = Phase::Command;
            }
        },
        (Phase::Lengths, Event::Bytes(b)) => {
            if b.len() == 6 {
                let (txlen, rxlen) = lengths(b);
                if txlen > 0 {
                    dispatcher.phase = Phase::Payload { txlen, rxlen };
                } else {
                    actions.push(Action::Send(Request::Transfer { txlen, rxlen }));
                    dispatcher.phase = Phase::Outcome { txlen, rxlen };
                }
            }
        },
        (Phase::Payload { txlen, rxlen }, Event::Stored) => {
            actions.push(Action::Send(Request::Transfer { txlen, rxlen }));
            dispatcher.phase = Phase::Outcome { txlen, rxlen };
        },
        (Phase::Outcome { txlen, rxlen }, Event::Completed { ok }) => {
            if *ok {
                actions.push(Action::Reply(status_byte(S_ACK)));
                if rxlen > 0 {
                    actions.push(Action::ReplyFromBuffer { start: txlen, len: rxlen });
                }
            } else {
                actions.push(Action::Reply(status_byte(S_NAK)));
            }
            dispatcher.phase = Phase::Command;
        },
        (Phase::PinState, Event::Bytes(b)) => {
            if b.len() == 1 {
                if b[0] != 0 {
                    actions.push(Action::PowerOn);
                    actions.push(Action::Send(Request::Enable));
                    actions.push(Action::Settle { millis: POWER_SETTLE_MS });
                } else {
                    actions.push(Action::Send(Request::Disable));
                    actions.push(Action::PowerOff);
                }
                actions.push(Action::Reply(status_byte(S_ACK)));
                dispatcher.phase = Phase::Command;
            }
        },
        _ => {},
    }
    assert(views(actions@) =~~= effects(old(dispatcher).phase, event@));
    actions
}

/// The status byte that opens the reply to a command without parameters.
pub open spec fn status_of(op: u8) -> u8 {
    if op == S_CMD_NOP || op == S_CMD_Q_IFACE || op == S_CMD_Q_CMDMAP || op == S_CMD_Q_PGMNAME
        || op == S_CMD_Q_SERBUF || op == S_CMD_Q_BUSTYPE || op == S_CMD_Q_WRNMAXLEN || op
        == S_CMD_Q_RDNMAXLEN {
        S_ACK
    } else {
        S_NAK
    }
}

/// The number of bytes that follow the status byte in the reply to a
/// command without parameters.
pub open spec fn payload_len(op: u8) -> nat {
    if op == S_CMD_Q_IFACE || op == S_CMD_Q_SERBUF {
        2
    } else if op == S_CMD_Q_PGMNAME {
        16
    } else if op == S_CMD_Q_CMDMAP {
        32
    } else if op == S_CMD_Q_BUSTYPE || op == S_CMD_SYNCNOP {
        1
    } else if op == S_CMD_Q_WRNMAXLEN || op == S_CMD_Q_RDNMAXLEN {
        3
    } else {
        0
    }
}

/// Whatever the history that left it between two commands, a dispatcher
/// answers a command without parameters with one reply, whose status byte
/// and length are those of the command, and is between two commands again.
pub proof fn lemma_reply_table(history: Seq<EventView>, op: u8)
    requires
        phase_after(history) == Phase::Command,
        !takes_parameters(op),
    ensures
        effects(phase_after(history), EventView::Bytes(seq![op])) == seq![
            ActionView::Reply(reply(op)),
        ],
        phase_after(history.push(EventView::Bytes(seq![op]))) == Phase::Command,
        reply(op).len() == 1 + payload_len(op),
        reply(op)[0] == status_of(op),
        !is_handled(op) ==> reply(op) == seq![S_NAK],
        is_handled(op) && op != S_CMD_SYNCNOP ==> status_of(op) == S_ACK,
{
    let event = EventView::Bytes(seq![op]);
    assert(seq![op][0] == op);
    assert(history.push(event).drop_last() =~= history);
    assert(!is_handled(op) ==> reply(op) =~= seq![S_NAK]);
}

/// A command with parameters is answered only once they are read:
/// set-bus-type with ACK where the byte selects SPI alone and NAK
/// otherwise, set-pin-state always with ACK, each by a single status byte.
pub proof fn lemma_parameter_replies(op: u8, parameter: u8)
    requires
        takes_parameters(op),
    ensures
        effects(Phase::Command, EventView::Bytes(seq![op])) == Seq::<ActionView>::empty(),
        next_phase(Phase::Command, EventView::Bytes(seq![op])) != Phase::Command,
        effects(Phase::BusType, EventView::Bytes(seq![parameter])) == seq![
            ActionView::Reply(seq![if parameter == BUS_SPI { S_ACK } else { S_NAK }]),
        ],
        effects(Phase::PinState, EventView::Bytes(seq![parameter])).last() == ActionView::Reply(
            seq![S_ACK],
        ),
        next_phase(Phase::BusType, EventView::Bytes(seq![parameter])) == Phase::Command,
        next_phase(Phase::PinState, EventView::Bytes(seq![parameter])) == Phase::Command,
{
    assert(seq![op][0] == op);
    assert(seq![parameter][0] == parameter);
}

/// A dispatcher between two commands answers sync-no-op with exactly NAK
/// then ACK, whatever the history that left it there, and is between two
/// commands again.
pub proof fn lemma_sync_nop(history: Seq<EventView>)
    requires
        phase_after(history) == Phase::Command,
    ensures
        effects(phase_after(history), EventView::Bytes(seq![S_CMD_SYNCNOP])) == seq![
            ActionView::Reply(seq![S_NAK, S_ACK]),
        ],
        phase_after(history.push(EventView::Bytes(seq![S_CMD_SYNCNOP]))) == Phase::Command,
{
    let event = EventView::Bytes(seq![S_CMD_SYNCNOP]);
    assert(seq![S_CMD_SYNCNOP][0] == S_CMD_SYNCNOP);
    assert(history.push(event).drop_last() =~= history);
}

/// An spi-operation whose regions lie within the shared buffer reads
/// exactly `txlen` payload bytes, sends one transfer request of these
/// lengths, and on success replies ACK followed by exactly the `rxlen`
/// bytes of the receive region; on failure it replies NAK alone.
pub proof fn lemma_transfer_exchange(params: Seq<u8>)
    requires
        params.len() == 6,
        le24(params.subrange(0, 3)) + le24(params.subrange(3, 6)) <= SPI_BUF_LEN,
    ensures
        ({
            let txlen = le24(params.subrange(0, 3)) as usize;
            let rxlen = le24(params.subrange(3, 6)) as usize;
            let request = ActionView::Send(Request::Transfer { txlen, rxlen });
            let reading = Phase::Payload { txlen, rxlen };
            let waiting = Phase::Outcome { txlen, rxlen };
            &&& !fatal(Phase::Lengths, EventView::Bytes(params))
            &&& !fatal(waiting, EventView::Completed { ok: true })
            &&& txlen > 0 ==> {
                &&& next_phase(Phase::Lengths, EventView::Bytes(params)) == reading
                &&& effects(Phase::Lengths, EventView::Bytes(params)) == Seq::<ActionView>::empty()
                &&& awaited(reading) == Wait::Payload { len: txlen }
                &&& next_phase(reading, EventView::Stored) == waiting
                &&& effects(reading, EventView::Stored) == seq![request]
            }
            &&& txlen == 0 ==> {
                &&& next_phase(Phase::Lengths, EventView::Bytes(params)) == waiting
                &&& effects(Phase::Lengths, EventView::Bytes(params)) == seq![request]
            }
            &&& awaited(waiting) == Wait::Outcome
            &&& effects(waiting, EventView::Completed { ok: true }) == if rxlen > 0 {
                seq![
                    ActionView::Reply(seq![S_ACK]),
                    ActionView::ReplyFromBuffer { start: txlen, len: rxlen },
                ]
            } else {
                seq![ActionView::Reply(seq![S_ACK])]
            }
            &&& effects(waiting, EventView::Completed { ok: false }) == seq![
                ActionView::Reply(seq![S_NAK]),
            ]
            &&& next_phase(waiting, EventView::Completed { ok: true }) == Phase::Command
            &&& next_phase(waiting, EventView::Completed { ok: false }) == Phase::Command
        }),
{
}

/// One transfer is in flight at most. A transfer request is the only side
/// effect of its step and leaves the dispatcher waiting for the result of
/// that transfer; while it waits, it sends no request.
pub proof fn lemma_one_transfer_in_flight(phase: Phase, event: EventView, txlen: usize, rxlen: usize)
    ensures
        effects(phase, event).contains(ActionView::Send(Request::Transfer { txlen, rxlen })) ==> {
            &&& effects(phase, event) == seq![ActionView::Send(Request::Transfer { txlen, rxlen })]
            &&& next_phase(phase, event) == Phase::Outcome { txlen, rxlen }
        },
        phase is Outcome ==> forall|j: int|
            0 <= j < effects(phase, event).len() ==> !(#[trigger] effects(phase, event)[j] is Send),
{
    let acts = effects(phase, event);
    let request = ActionView::Send(Request::Transfer { txlen, rxlen });
    if acts.contains(request) {
        let j = choose|j: int| 0 <= j < acts.len() && acts[j] == request;
        assert(acts[j] == request);
        assert(acts =~= seq![request]);
    }
}

/// Power sequencing. In every list of side effects, a request to enable
/// the SPI hardware comes strictly after the power pin was driven active,
/// and the power pin is driven inactive strictly after the request to
/// disable the SPI hardware.
pub proof fn lemma_power_sequencing(phase: Phase, event: EventView)
    ensures
        forall|j: int|
            0 <= j < effects(phase, event).len() && #[trigger] effects(phase, event)[j]
                == ActionView::Send(Request::Enable) ==> exists|i: int|
                0 <= i < j && #[trigger] effects(phase, event)[i] == ActionView::PowerOn,
        forall|j: int|
            0 <= j < effects(phase, event).len() && #[trigger] effects(phase, event)[j]
                == ActionView::PowerOff ==> exists|i: int|
                0 <= i < j && #[trigger] effects(phase, event)[i] == ActionView::Send(
                    Request::Disable,
                ),
{
    let acts = effects(phase, event);
    assert forall|j: int| 0 <= j < acts.len() && #[trigger] acts[j] == ActionView::Send(
        Request::Enable,
    ) implies exists|i: int| 0 <= i < j && #[trigger] acts[i] == ActionView::PowerOn by {
        assert(acts[0] == ActionView::PowerOn);
    }
    assert forall|j: int| 0 <= j < acts.len() && #[trigger] acts[j]
        == ActionView::PowerOff implies exists|i: int|
        0 <= i < j && #[trigger] acts[i] == ActionView::Send(Request::Disable) by {
        assert(acts[0] == ActionView::Send(Request::Disable));
    }
}

/// Setting the pin state powers the chip, then enables the SPI hardware,
/// then waits for the chip to settle before it acknowledges; or disables the
/// SPI hardware, then cuts power, then acknowledges.
pub proof fn lemma_pin_state(enable: u8)
    ensures
        effects(Phase::PinState, EventView::Bytes(seq![enable])) == if enable != 0 {
            seq![
                ActionView::PowerOn,
                ActionView::Send(Request::Enable),
                ActionView::Settle { millis: POWER_SETTLE_MS },
                ActionView::Reply(seq![S_ACK]),
            ]
        } else {
            seq![
                ActionView::Send(Request::Disable),
                ActionView::PowerOff,
                ActionView::Reply(seq![S_ACK]),
            ]
        },
{
    assert(seq![enable][0] == enable);
}

/// Bit `op` of the advertised bitmap is set exactly where `op` is one of
/// the advertised opcodes, and the command map holds that bitmap, least
/// significant byte first, in its first four bytes and zeros in the rest.
pub proof fn lemma_command_map(op: u8)
    requires
        op < 32,
    ensures
        ((SUPPORTED_CMD >> (op as u32)) & 1 == 1) <==> is_supported(op),
        command_map().len() == 32,
        command_map()[0] + 256 * command_map()[1] + 65536 * command_map()[2] + 16777216
            * command_map()[3] == SUPPORTED_CMD,
        forall|i: int| 4 <= i < 32 ==> #[trigger] command_map()[i] == 0,
{
    assert(((0x003F_013Fu32 >> (op as u32)) & 1 == 1) <==> (op == 0 || op == 1 || op == 2 || op
        == 3 || op == 4 || op == 5 || op == 8 || op == 0x10 || op == 0x11 || op == 0x12 || op
        == 0x13 || op == 0x14 || op == 0x15)) by (bit_vector)
        requires
            op < 32,
    ;
}

/// Three bytes, least significant first, hold every number below 2^24:
/// decoding what was encoded gives the number back.
pub proof fn lemma_le24_round_trip(v: nat)
    requires
        v < 0x100_0000,
    ensures
        le_bytes(v, 3).len() == 3,
        le24(le_bytes(v, 3)) == v,
{
}

} // verus!
