//! The transfer coordinator: the link between the dispatcher and the SPI
//! worker.
//!
//! It pairs a request channel that holds one request with a single-slot
//! result signal. Neither side blocks here: a side that cannot proceed is
//! told so and suspends until the other has made its move.

use vstd::prelude::*;
use embassy_sync::blocking_mutex::raw::NoopRawMutex;
use embassy_sync::channel::Channel;
use embassy_sync::signal::Signal;
use crate::spi::Request;

verus! {

/// An `embassy_sync::channel::Channel` made for one request. Verus sees
/// nothing inside it: [`queued`] names what it holds.
#[verifier::external_body]
pub struct RequestChannel {
    inner: Channel<NoopRawMutex, Request, 1>,
}

/// An `embassy_sync::signal::Signal` that carries whether a transfer
/// succeeded. Verus sees nothing inside it: [`signalled`] names what it
/// holds.
#[verifier::external_body]
pub struct ResultSignal {
    inner: Signal<NoopRawMutex, bool>,
}

/// The requests that a channel holds, oldest first.
pub uninterp spec fn queued(channel: RequestChannel) -> Seq<Request>;

/// The value that a signal holds, if it has been signalled and not taken.
pub uninterp spec fn signalled(signal: ResultSignal) -> Option<bool>;

/// `embassy_sync::channel::Channel::new`: a channel that holds nothing.
#[verifier::external_body]
fn channel_new() -> (channel: RequestChannel)
    ensures
        queued(channel) == Seq::<Request>::empty(),
{
    RequestChannel { inner: Channel::new() }
}

/// `embassy_sync::channel::Channel::try_send`, on a channel made for one
/// message: where the channel is empty, the message is queued and the call
/// succeeds; else the channel is full, stays as it is, and the call fails.
#[verifier::external_body]
fn channel_try_send(channel: &mut RequestChannel, request: Request) -> (sent: bool)
    ensures
        sent == (queued(*old(channel)).len() < 1),
        sent ==> queued(*final(channel)) == queued(*old(channel)).push(request),
        !sent ==> queued(*final(channel)) == queued(*old(channel)),
{
    channel.inner.try_send(request).is_ok()
}

/// `embassy_sync::channel::Channel::try_receive`: removes and returns the
/// oldest message, or returns nothing and leaves the channel as it is where
/// it is empty.
#[verifier::external_body]
fn channel_try_receive(channel: &mut RequestChannel) -> (request: Option<Request>)
    ensures
        queued(*old(channel)).len() == 0 ==> request is None && queued(*final(channel)) == queued(
            *old(channel),
        ),
        queued(*old(channel)).len() > 0 ==> request == Some(queued(*old(channel))[0]) && queued(
            *final(channel),
        ) == queued(*old(channel)).skip(1),
{
    channel.inner.try_receive().ok()
}

/// `embassy_sync::signal::Signal::new`: a signal that holds nothing.
#[verifier::external_body]
fn signal_new() -> (signal: ResultSignal)
    ensures
        signalled(signal) is None,
{
    ResultSignal { inner: Signal::new() }
}

/// `embassy_sync::signal::Signal::signal`: the signal holds the new value,
/// whatever it held.
#[verifier::external_body]
fn signal_signal(signal: &mut ResultSignal, value: bool)
    ensures
        signalled(*final(signal)) == Some(value),
{
    signal.inner.signal(value)
}

/// `embassy_sync::signal::Signal::try_take`: returns the value that the
/// signal holds, if any, and leaves it holding nothing.
#[verifier::external_body]
fn signal_try_take(signal: &mut ResultSignal) -> (value: Option<bool>)
    ensures
        value == signalled(*old(signal)),
        signalled(*final(signal)) is None,
{
    signal.inner.try_take()
}

/// The request channel and the result signal between the dispatcher and
/// the worker.
pub struct Coordinator {
    control: RequestChannel,
    status: ResultSignal,
}

impl Coordinator {
    /// The requests sent and not yet received: at most one.
    pub closed spec fn outstanding(&self) -> Seq<Request> {
        queued(self.control)
    }

    /// The result signalled and not yet taken; `true` stands for success.
    pub closed spec fn result(&self) -> Option<bool> {
        signalled(self.status)
    }

    /// No more than one request is in flight.
    pub open spec fn wf(&self) -> bool {
        self.outstanding().len() <= 1
    }

    /// A coordinator with no request in flight and no result.
    pub fn new() -> (c: Coordinator)
        ensures
            c.wf(),
            c.outstanding() == Seq::<Request>::empty(),
            c.result() is None,
    {
        Coordinator { control: channel_new(), status: signal_new() }
    }

    /// Hands a request to the worker. Returns `false`, and changes nothing,
    /// where the previous request has not been received yet: the sender
    /// then suspends until it has.
    pub fn send(&mut self, request: Request) -> (sent: bool)
        requires
            old(self).wf(),
        ensures
            final(self).wf(),
            sent == (old(self).outstanding().len() == 0),
            sent ==> final(self).outstanding() == seq![request],
            !sent ==> final(self).outstanding() == old(self).outstanding(),
            final(self).result() == old(self).result(),
    {
        let sent = channel_try_send(&mut self.control, request);
        proof {
            if sent {
                assert(old(self).outstanding().push(request) =~= seq![request]);
            }
        }
        sent
    }

    /// Takes the request in flight, if there is one.
    pub fn recv(&mut self) -> (request: Option<Request>)
        requires
            old(self).wf(),
        ensures
            final(self).wf(),
            final(self).outstanding() == Seq::<Request>::empty(),
            final(self).result() == old(self).result(),
            request == if old(self).outstanding().len() == 0 {
                None
            } else {
                Some(old(self).outstanding()[0])
            },
    {
        let request = channel_try_receive(&mut self.control);
        proof {
            if old(self).outstanding().len() > 0 {
                assert(old(self).outstanding().skip(1) =~= Seq::<Request>::empty());
            } else {
                assert(old(self).outstanding() =~= Seq::<Request>::empty());
            }
        }
        request
    }

    /// Delivers the result of a transfer. A result that was not taken is
    /// overwritten: the latest wins.
    pub fn signal(&mut self, ok: bool)
        ensures
            final(self).result() == Some(ok),
            final(self).outstanding() == old(self).outstanding(),
    {
        signal_signal(&mut self.status, ok)
    }

    /// Takes the result, if one was delivered: `None` tells the dispatcher
    /// to suspend until one is.
    pub fn wait(&mut self) -> (ok: Option<bool>)
        ensures
            ok == old(self).result(),
            final(self).result() is None,
            final(self).outstanding() == old(self).outstanding(),
    {
        signal_try_take(&mut self.status)
    }
}

} // verus!
