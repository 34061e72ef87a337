//! The SPI worker: lifecycle of the SPI hardware and the transfer procedure.
//!
//! The worker handles one [`Request`] at a time. For each it decides which
//! hardware operations are due and in which order, and prepares the shared
//! buffer; the caller carries the operations out.

use vstd::prelude::*;

verus! {

/// A request sent from the dispatcher to the worker.
#[derive(Clone, Copy, Debug, PartialEq, Eq, Structural)]
pub enum Request {
    /// Acquire the SPI hardware.
    Enable,
    /// Release the SPI hardware.
    Disable,
    /// Clock `txlen` bytes out of the shared buffer, then `rxlen` bytes into it.
    Transfer { txlen: usize, rxlen: usize },
}

/// Whether the worker currently holds the SPI hardware.
#[derive(Clone, Copy, Debug, PartialEq, Eq, Structural)]
pub enum Hardware {
    /// No peripheral session exists and chip-select is not driven.
    Disabled,
    /// The peripheral session and the chip-select output exist.
    Enabled,
}

/// One hardware operation that the worker asks its caller to perform.
#[derive(Clone, Copy, Debug, PartialEq, Eq, Structural)]
pub enum Operation {
    /// Construct the peripheral session and the chip-select output (driven high).
    Acquire,
    /// Destroy the peripheral session, which floats the pins it was driving.
    Release,
    /// Disconnect the chip-select pin.
    DisconnectChipSelect,
    /// Drive chip-select low.
    Select,
    /// Transfer the first `len` bytes of the shared buffer in place.
    Exchange { len: usize },
    /// Drive chip-select high.
    Deselect,
    /// Deliver the outcome of the exchange through the result signal.
    Report,
}

/// The hardware state after `request` was handled in state `hw`.
pub open spec fn next_hardware(hw: Hardware, request: Request) -> Hardware {
    match request {
        Request::Enable => Hardware::Enabled,
        Request::Disable => Hardware::Disabled,
        Request::Transfer { .. } => hw,
    }
}

/// The hardware operations that `request` calls for in state `hw`, in order.
pub open spec fn operations(hw: Hardware, request: Request) -> Seq<Operation> {
    match request {
        Request::Enable => if hw == Hardware::Enabled {
            Seq::empty()
        } else {
            seq![Operation::Acquire]
        },
        Request::Disable => if hw == Hardware::Enabled {
            seq![Operation::Release, Operation::DisconnectChipSelect]
        } else {
            seq![Operation::DisconnectChipSelect]
        },
        Request::Transfer { txlen, rxlen } => seq![
            Operation::Select,
            Operation::Exchange { len: (txlen + rxlen) as usize },
            Operation::Deselect,
            Operation::Report,
        ],
    }
}

/// The shared buffer as the worker leaves it for the hardware: when more is
/// to be received than sent, the receive region `[txlen, txlen + rxlen)` is
/// zero; every other byte is as it was.
pub open spec fn prepared(buf: Seq<u8>, request: Request) -> Seq<u8> {
    match request {
        Request::Transfer { txlen, rxlen } if rxlen > txlen => Seq::new(
            buf.len(),
            |i: int| if txlen <= i < txlen + rxlen { 0u8 } else { buf[i] },
        ),
        _ => buf,
    }
}

/// Whether the worker can handle `request` in state `hw` with a shared
/// buffer of `capacity` bytes. A transfer needs the hardware and a buffer
/// that holds both regions; everything else is always handled.
pub open spec fn admissible(hw: Hardware, request: Request, capacity: nat) -> bool {
    match request {
        Request::Transfer { txlen, rxlen } => hw == Hardware::Enabled && txlen + rxlen <= capacity,
        _ => true,
    }
}

/// Tells whether [`worker`] can handle `request`: the caller halts where it
/// cannot.
pub fn admits(hw: Hardware, request: Request, capacity: usize) -> (r: bool)
    ensures
        r == admissible(hw, request, capacity as nat),
{
    match request {
        Request::Transfer { txlen, rxlen } => {
            hw == Hardware::Enabled && txlen <= capacity && rxlen <= capacity - txlen
        },
        _ => true,
    }
}

/// Sets `buf[from..to]` to zero.
fn zero_fill(buf: &mut Vec<u8>, from: usize, to: usize)
    requires
        from <= to <= old(buf).len(),
    ensures
        final(buf)@ == Seq::new(
            old(buf)@.len(),
            |i: int| if from <= i < to { 0u8 } else { old(buf)@[i] },
        ),
{
    let mut i: usize = from;
    while i < to
        invariant
            from <= i <= to <= buf.len(),
            buf.len() == old(buf).len(),
            forall|j: int| 0 <= j < buf.len() ==> buf@[j] == (if from <= j < i { 0u8 } else { old(buf)@[j] }),
        decreases to - i,
    {
        buf.set(i, 0u8);
        i += 1;
    }
    assert(buf@ =~= Seq::new(
        old(buf)@.len(),
        |i: int| if from <= i < to { 0u8 } else { old(buf)@[i] },
    ));
}

/// Handles one request: updates the hardware state, prepares the shared
/// buffer and returns the hardware operations to perform, in order.
///
/// `Enable` acquires the hardware only where it is not held. `Disable`
/// always ends with chip-select disconnected. A transfer selects the chip,
/// exchanges `txlen + rxlen` bytes in place, deselects and reports once.
pub fn worker(hw: &mut Hardware, request: Request, buf: &mut Vec<u8>) -> (ops: Vec<Operation>)
    requires
        admissible(*old(hw), request, old(buf)@.len()),
    ensures
        *final(hw) == next_hardware(*old(hw), request),
        ops@ == operations(*old(hw), request),
        final(buf)@ == prepared(old(buf)@, request),
{
    let mut ops: Vec<Operation> = Vec::new();
    match request {
        Request::Enable => {
            if *hw != Hardware::Enabled {
                ops.push(Operation::Acquire);
                *hw = Hardware::Enabled;
            }
        },
        Request::Disable => {
            if *hw == Hardware::Enabled {
                ops.push(Operation::Release);
                *hw = Hardware::Disabled;
            }
            ops.push(Operation::DisconnectChipSelect);
        },
        Request::Transfer { txlen, rxlen } => {
            assert(txlen + rxlen <= buf.len());
            ops.push(Operation::Select);
            if rxlen > txlen {
                zero_fill(buf, txlen, txlen + rxlen);
            }
            ops.push(Operation::Exchange { len: txlen + rxlen });
            ops.push(Operation::Deselect);
            ops.push(Operation::Report);
        },
    }
    assert(ops@ =~= operations(*old(hw), request));
    ops
}

/// Enabling twice acquires the hardware once: after one `Enable` the
/// hardware is held, and a second `Enable` calls for no operation and
/// leaves the state as it is.
pub proof fn lemma_enable_idempotent(hw: Hardware)
    ensures
        next_hardware(hw, Request::Enable) == Hardware::Enabled,
        operations(next_hardware(hw, Request::Enable), Request::Enable) == Seq::<Operation>::empty(),
        next_hardware(next_hardware(hw, Request::Enable), Request::Enable) == next_hardware(
            hw,
            Request::Enable,
        ),
        operations(Hardware::Disabled, Request::Enable) + operations(
            next_hardware(Hardware::Disabled, Request::Enable),
            Request::Enable,
        ) == seq![Operation::Acquire],
{
    assert(operations(Hardware::Disabled, Request::Enable) + operations(
        Hardware::Enabled,
        Request::Enable,
    ) =~= seq![Operation::Acquire]);
}

/// Disabling always releases chip-select, whether or not the hardware was
/// held: the last operation disconnects the pin, no operation acquires or
/// drives anything, and the hardware is not held afterwards.
pub proof fn lemma_disable_releases(hw: Hardware)
    ensures
        next_hardware(hw, Request::Disable) == Hardware::Disabled,
        operations(hw, Request::Disable).len() > 0,
        operations(hw, Request::Disable).last() == Operation::DisconnectChipSelect,
        forall|i: int|
            0 <= i < operations(hw, Request::Disable).len() ==> {
                let op = #[trigger] operations(hw, Request::Disable)[i];
                op == Operation::Release || op == Operation::DisconnectChipSelect
            },
{
}

/// Only a transfer reports a result, and it reports exactly one.
pub proof fn lemma_one_report_per_transfer(hw: Hardware, request: Request)
    ensures
        operations(hw, request).filter(|op: Operation| op == Operation::Report).len() == (
        if request is Transfer {
            1nat
        } else {
            0nat
        }),
{
    let reports = |op: Operation| op == Operation::Report;
    let ops = operations(hw, request);
    reveal_with_fuel(Seq::filter, 5);
    match request {
        Request::Transfer { txlen, rxlen } => {
            assert(ops.drop_last().drop_last().drop_last().drop_last() =~= Seq::<Operation>::empty());
        },
        Request::Enable => {
            if hw != Hardware::Enabled {
                assert(ops.drop_last() =~= Seq::<Operation>::empty());
            }
        },
        Request::Disable => {
            if hw == Hardware::Enabled {
                assert(ops.drop_last().drop_last() =~= Seq::<Operation>::empty());
            } else {
                assert(ops.drop_last() =~= Seq::<Operation>::empty());
            }
        },
    }
}

/// A transfer whose regions lie within the buffer can be handled once the
/// hardware was enabled. It clocks exactly `txlen + rxlen` bytes between
/// selecting and deselecting the chip, keeps the outgoing payload, and,
/// where more is received than sent, clocks out zeros over the whole
/// receive region.
pub proof fn lemma_transfer_prepared(hw: Hardware, buf: Seq<u8>, txlen: usize, rxlen: usize)
    requires
        txlen + rxlen <= buf.len(),
    ensures
        admissible(
            next_hardware(hw, Request::Enable),
            Request::Transfer { txlen, rxlen },
            buf.len(),
        ),
        operations(Hardware::Enabled, Request::Transfer { txlen, rxlen }) == seq![
            Operation::Select,
            Operation::Exchange { len: (txlen + rxlen) as usize },
            Operation::Deselect,
            Operation::Report,
        ],
        prepared(buf, Request::Transfer { txlen, rxlen }).len() == buf.len(),
        prepared(buf, Request::Transfer { txlen, rxlen }).take(txlen as int) == buf.take(
            txlen as int,
        ),
        rxlen > txlen ==> forall|i: int|
            txlen <= i < txlen + rxlen ==> #[trigger] prepared(
                buf,
                Request::Transfer { txlen, rxlen },
            )[i] == 0u8,
{
    assert(prepared(buf, Request::Transfer { txlen, rxlen }).take(txlen as int) =~= buf.take(
        txlen as int,
    ));
}

} // verus!
