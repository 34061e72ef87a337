//! The ring-buffered serial transport.
//!
//! Each direction of the serial link has a [`RingBuffer`] of fixed capacity
//! and a waker slot. The [`Reader`] and the [`Writer`] are the two ends that
//! the dispatcher uses; [`worker_rx`], [`worker_tx`] and [`worker_tx_done`]
//! are the steps of the background pump that moves bytes between the rings
//! and the wire.
//! Nothing here blocks: an operation that cannot complete says so, records
//! that its caller waits, and the step that makes room or data available
//! tells its caller to wake the waiter.

use vstd::prelude::*;

verus! {

/// The storage index of the `i`-th byte after index `start` in a ring of
/// `cap` bytes.
pub open spec fn slot(start: int, i: int, cap: int) -> int {
    if start + i >= cap {
        start + i - cap
    } else {
        start + i
    }
}

/// Whether `n` more bytes overrun a ring of `capacity` bytes that holds
/// `held`: there is not room for all of them.
pub open spec fn overruns(held: Seq<u8>, capacity: nat, n: nat) -> bool {
    held.len() + n > capacity
}

/// What a ring holds once `data` is stored behind `held`.
pub open spec fn stored(held: Seq<u8>, data: Seq<u8>) -> Seq<u8> {
    held + data
}

/// Whether a ring that holds `held` has `n` bytes to hand out.
pub open spec fn available(held: Seq<u8>, n: nat) -> bool {
    n <= held.len()
}

/// The `n` oldest bytes of `held`.
pub open spec fn oldest(held: Seq<u8>, n: nat) -> Seq<u8> {
    held.take(n as int)
}

/// What a ring that held `held` holds once its `n` oldest bytes are dropped.
pub open spec fn rest(held: Seq<u8>, n: nat) -> Seq<u8> {
    held.skip(n as int)
}

/// A circular byte store of fixed capacity. Its view is the bytes it holds,
/// oldest first.
pub struct RingBuffer {
    buf: Vec<u8>,
    start: usize,
    used: usize,
}

impl View for RingBuffer {
    type V = Seq<u8>;

    closed spec fn view(&self) -> Seq<u8> {
        Seq::new(
            self.used as nat,
            |i: int| self.buf@[slot(self.start as int, i, self.buf@.len() as int)],
        )
    }
}

impl RingBuffer {
    /// The cursors lie within the storage.
    pub closed spec fn wf(&self) -> bool {
        &&& self.used <= self.buf@.len()
        &&& (self.start < self.buf@.len() || (self.start == 0 && self.buf@.len() == 0))
    }

    /// The number of bytes that the ring can hold.
    pub closed spec fn capacity(&self) -> nat {
        self.buf@.len()
    }

    /// The number of stored bytes that lie in one piece from the read cursor.
    pub closed spec fn readable(&self) -> nat {
        if self.used <= self.buf@.len() - self.start {
            self.used as nat
        } else {
            (self.buf@.len() - self.start) as nat
        }
    }

    /// The number of free bytes that lie in one piece from the write cursor.
    pub closed spec fn writable(&self) -> nat {
        if self.used < self.buf@.len() - self.start {
            (self.buf@.len() - self.start - self.used) as nat
        } else {
            (self.buf@.len() - self.used) as nat
        }
    }

    /// A ring never holds more than its capacity, and a piece is empty only
    /// where there is nothing to read or no room to write.
    pub proof fn lemma_bounds(&self)
        requires
            self.wf(),
        ensures
            self@.len() <= self.capacity(),
            self.readable() <= self@.len(),
            self.writable() <= self.capacity() - self@.len(),
            self.readable() == 0 <==> self@.len() == 0,
            self.writable() == 0 <==> self@.len() == self.capacity(),
    {
    }

    /// A ring without storage.
    pub fn new() -> (r: RingBuffer)
        ensures
            r.wf(),
            r.capacity() == 0,
            r@ == Seq::<u8>::empty(),
    {
        let r = RingBuffer { buf: Vec::new(), start: 0, used: 0 };
        assert(r@ =~= Seq::<u8>::empty());
        r
    }

    /// Gives the ring its storage and empties it.
    pub fn init(&mut self, storage: Vec<u8>)
        ensures
            final(self).wf(),
            final(self).capacity() == storage@.len(),
            final(self)@ == Seq::<u8>::empty(),
    {
        self.buf = storage;
        self.start = 0;
        self.used = 0;
        assert(self@ =~= Seq::<u8>::empty());
    }

    /// The capacity in bytes.
    pub fn size(&self) -> (n: usize)
        ensures
            n == self.capacity(),
    {
        self.buf.len()
    }

    /// The number of bytes held.
    pub fn len(&self) -> (n: usize)
        ensures
            n == self@.len(),
    {
        self.used
    }

    /// The number of bytes that can still be stored.
    pub fn free(&self) -> (n: usize)
        requires
            self.wf(),
        ensures
            n == self.capacity() - self@.len(),
    {
        self.buf.len() - self.used
    }

    /// The length of the piece that can be read without wrapping.
    pub fn pop_len(&self) -> (n: usize)
        requires
            self.wf(),
        ensures
            n == self.readable(),
    {
        if self.used <= self.buf.len() - self.start {
            self.used
        } else {
            self.buf.len() - self.start
        }
    }

    /// The length of the piece that can be written without wrapping.
    pub fn push_len(&self) -> (n: usize)
        requires
            self.wf(),
        ensures
            n == self.writable(),
    {
        if self.used < self.buf.len() - self.start {
            self.buf.len() - self.start - self.used
        } else {
            self.buf.len() - self.used
        }
    }

    /// Stores one byte behind the newest.
    pub fn push_byte(&mut self, byte: u8)
        requires
            old(self).wf(),
            old(self)@.len() < old(self).capacity(),
        ensures
            final(self).wf(),
            final(self).capacity() == old(self).capacity(),
            final(self)@ == old(self)@.push(byte),
            final(self).readable() >= old(self).readable(),
    {
        let cap = self.buf.len();
        let end = if self.used >= cap - self.start {
            self.used - (cap - self.start)
        } else {
            self.start + self.used
        };
        self.buf.set(end, byte);
        self.used = self.used + 1;
        assert(self@ =~= old(self)@.push(byte));
    }

    /// The `i`-th oldest byte.
    pub fn get(&self, i: usize) -> (byte: u8)
        requires
            self.wf(),
            i < self@.len(),
        ensures
            byte == self@[i as int],
    {
        let cap = self.buf.len();
        let at = if i >= cap - self.start {
            i - (cap - self.start)
        } else {
            self.start + i
        };
        self.buf[at]
    }

    /// Drops the `n` oldest bytes. The piece that can be written without
    /// wrapping does not shrink.
    pub fn pop_done(&mut self, n: usize)
        requires
            old(self).wf(),
            available(old(self)@, n as nat),
        ensures
            final(self).wf(),
            final(self).capacity() == old(self).capacity(),
            final(self)@ == rest(old(self)@, n as nat),
            final(self).writable() >= old(self).writable(),
    {
        let cap = self.buf.len();
        self.start = if n >= cap - self.start {
            n - (cap - self.start)
        } else {
            self.start + n
        };
        self.used = self.used - n;
        assert(self@ =~= old(self)@.skip(n as int));
    }

    /// Copies the `n` oldest bytes out, leaving them in the ring.
    pub fn peek(&self, n: usize) -> (out: Vec<u8>)
        requires
            self.wf(),
            available(self@, n as nat),
        ensures
            out@ == oldest(self@, n as nat),
    {
        let mut out: Vec<u8> = Vec::new();
        let mut i: usize = 0;
        while i < n
            invariant
                self.wf(),
                i <= n <= self@.len(),
                out@ =~= self@.take(i as int),
            decreases n - i,
        {
            out.push(self.get(i));
            i += 1;
        }
        out
    }
}

/// Stores all of `data` in the ring, behind what it holds. Nothing that
/// the ring held is overwritten, and the piece that can be read without
/// wrapping does not shrink.
///
/// The ring must have room for all of it: more is an overrun, which
/// [`RingBuffer::free`] and [`Writer::fits`] detect beforehand.
pub fn push_to_ringbuf(ring: &mut RingBuffer, data: &[u8])
    requires
        old(ring).wf(),
        !overruns(old(ring)@, old(ring).capacity(), data@.len()),
    ensures
        final(ring).wf(),
        final(ring).capacity() == old(ring).capacity(),
        final(ring)@ == stored(old(ring)@, data@),
        final(ring).readable() >= old(ring).readable(),
{
    let mut written: usize = 0;
    while written < data.len()
        invariant
            ring.wf(),
            ring.capacity() == old(ring).capacity(),
            written <= data@.len(),
            !overruns(old(ring)@, old(ring).capacity(), data@.len()),
            ring@ =~= old(ring)@ + data@.take(written as int),
            ring.readable() >= old(ring).readable(),
        decreases data.len() - written,
    {
        ring.push_byte(data[written]);
        written += 1;
    }
    assert(data@.take(written as int) =~= data@);
}

/// Both rings of the transport and the waker slot of each direction.
pub struct State {
    tx: RingBuffer,
    rx: RingBuffer,
    rx_waker: bool,
    tx_waker: bool,
}

impl State {
    /// Both rings are without storage, and nobody waits.
    pub closed spec fn blank(&self) -> bool {
        &&& self.tx.wf() && self.rx.wf()
        &&& self.tx.capacity() == 0 && self.rx.capacity() == 0
        &&& self.tx@.len() == 0 && self.rx@.len() == 0
        &&& !self.rx_waker && !self.tx_waker
    }
}

impl Default for State {
    /// Two rings without storage, and nobody waiting.
    fn default() -> (s: State)
        ensures
            s.blank(),
    {
        State { tx: RingBuffer::new(), rx: RingBuffer::new(), rx_waker: false, tx_waker: false }
    }
}

/// The transport before it is split into its two ends.
pub struct BufferedUart {
    state: State,
}

/// The receiving end: the ring that the pump fills and the dispatcher reads.
pub struct Reader {
    rxbuf: RingBuffer,
    rx_waker: bool,
}

/// The sending end: the ring that the dispatcher fills and the pump drains.
pub struct Writer {
    txbuf: RingBuffer,
    tx_waker: bool,
}

impl BufferedUart {
    /// The capacity of each direction.
    pub closed spec fn capacity(&self) -> nat {
        self.state.tx.capacity()
    }

    /// Both rings are well formed, empty and of one capacity, and nobody waits.
    pub closed spec fn wf(&self) -> bool {
        &&& self.state.tx.wf() && self.state.rx.wf()
        &&& self.state.tx.capacity() == self.state.rx.capacity()
        &&& self.state.tx@.len() == 0 && self.state.rx@.len() == 0
        &&& !self.state.rx_waker && !self.state.tx_waker
    }

    /// Builds the transport on two buffers of one even, non-zero length.
    pub fn new(state: State, tx_buf: Vec<u8>, rx_buf: Vec<u8>) -> (uart: BufferedUart)
        requires
            tx_buf@.len() == rx_buf@.len(),
            tx_buf@.len() > 0 && tx_buf@.len() % 2 == 0,
        ensures
            uart.wf(),
            uart.capacity() == tx_buf@.len(),
    {
        let mut state = state;
        state.tx.init(tx_buf);
        state.rx.init(rx_buf);
        state.rx_waker = false;
        state.tx_waker = false;
        BufferedUart { state }
    }

    /// Splits the transport into its receiving and its sending end, both
    /// empty, of the transport's capacity and with nobody waiting.
    pub fn split(self) -> (ends: (Reader, Writer))
        requires
            self.wf(),
        ensures
            ends.0.wf() && ends.1.wf(),
            ends.0.capacity() == self.capacity() && ends.1.capacity() == self.capacity(),
            ends.0@ == Seq::<u8>::empty() && ends.1@ == Seq::<u8>::empty(),
            !ends.0.waiting() && !ends.1.waiting(),
    {
        let BufferedUart { state } = self;
        let State { tx, rx, rx_waker, tx_waker } = state;
        let reader = Reader { rxbuf: rx, rx_waker };
        let writer = Writer { txbuf: tx, tx_waker };
        assert(reader@ =~= Seq::<u8>::empty());
        assert(writer@ =~= Seq::<u8>::empty());
        (reader, writer)
    }
}

impl View for Reader {
    type V = Seq<u8>;

    /// The bytes received and not yet read, oldest first.
    closed spec fn view(&self) -> Seq<u8> {
        self.rxbuf@
    }
}

impl Reader {
    pub closed spec fn wf(&self) -> bool {
        self.rxbuf.wf()
    }

    /// The capacity of the receive ring.
    pub closed spec fn capacity(&self) -> nat {
        self.rxbuf.capacity()
    }

    /// Whether the reading task has registered to be woken.
    pub closed spec fn waiting(&self) -> bool {
        self.rx_waker
    }

    /// The number of received bytes that lie in one piece.
    pub closed spec fn readable(&self) -> nat {
        self.rxbuf.readable()
    }

    /// The number of free bytes that the pump can fill in one piece.
    pub closed spec fn writable(&self) -> nat {
        self.rxbuf.writable()
    }

    /// What holds of every well-formed receiving end.
    pub proof fn lemma_bounds(&self)
        requires
            self.wf(),
        ensures
            self@.len() <= self.capacity(),
            self.readable() <= self@.len(),
            self.writable() <= self.capacity() - self@.len(),
            self.readable() == 0 <==> self@.len() == 0,
            self.writable() == 0 <==> self@.len() == self.capacity(),
    {
        self.rxbuf.lemma_bounds();
    }

    /// Polls for received bytes. Where there are none, registers the caller
    /// to be woken and returns `None`; else returns the first piece of them,
    /// which stays in the ring until [`Reader::discard`].
    pub fn wait(&mut self) -> (piece: Option<Vec<u8>>)
        requires
            old(self).wf(),
        ensures
            final(self).wf(),
            final(self).capacity() == old(self).capacity(),
            final(self)@ == old(self)@,
            final(self).writable() == old(self).writable(),
            piece is None <==> old(self)@.len() == 0,
            piece is None ==> final(self).waiting(),
            piece is Some ==> final(self).waiting() == old(self).waiting(),
            piece is Some ==> piece->0@ == oldest(old(self)@, old(self).readable()),
    {
        proof {
            self.rxbuf.lemma_bounds();
        }
        let n = self.rxbuf.pop_len();
        if n == 0 {
            self.rx_waker = true;
            None
        } else {
            Some(self.rxbuf.peek(n))
        }
    }

    /// Polls for exactly `buf.len()` bytes. Where that many have been
    /// received, moves the oldest of them into `buf` and returns `true`; else
    /// changes neither, registers the caller to be woken and returns `false`.
    /// An empty `buf` is filled at once.
    pub fn read(&mut self, buf: &mut Vec<u8>) -> (ready: bool)
        requires
            old(self).wf(),
        ensures
            final(self).wf(),
            final(self).capacity() == old(self).capacity(),
            final(self).writable() >= old(self).writable(),
            ready == available(old(self)@, old(buf)@.len()),
            ready ==> final(buf)@ == oldest(old(self)@, old(buf)@.len()),
            ready ==> final(self)@ == rest(old(self)@, old(buf)@.len()),
            ready ==> final(self).waiting() == old(self).waiting(),
            !ready ==> final(buf)@ == old(buf)@ && final(self)@ == old(self)@,
            !ready ==> final(self).waiting(),
    {
        let len = buf.len();
        if len == 0 {
            assert(buf@ =~= self@.take(0));
            assert(self@ =~= self@.skip(0));
            return true;
        }
        if len > self.rxbuf.len() {
            self.rx_waker = true;
            return false;
        }
        let mut i: usize = 0;
        while i < len
            invariant
                self.rxbuf.wf(),
                self.rxbuf == old(self).rxbuf,
                i <= len <= self.rxbuf@.len(),
                buf@.len() == len,
                forall|k: int| 0 <= k < i ==> buf@[k] == self.rxbuf@[k],
            decreases len - i,
        {
            let byte = self.rxbuf.get(i);
            buf.set(i, byte);
            i += 1;
        }
        assert(buf@ =~= self.rxbuf@.take(len as int));
        self.discard(len);
        true
    }

    /// Drops the `n` oldest received bytes. The room of the pump does not
    /// shrink.
    pub fn discard(&mut self, n: usize)
        requires
            old(self).wf(),
            available(old(self)@, n as nat),
        ensures
            final(self).wf(),
            final(self).capacity() == old(self).capacity(),
            final(self).waiting() == old(self).waiting(),
            final(self)@ == rest(old(self)@, n as nat),
            final(self).writable() >= old(self).writable(),
    {
        self.rxbuf.pop_done(n)
    }

    /// The number of bytes that the pump may receive in one piece. Zero
    /// means that the ring is full: receiving then is an overrun.
    pub fn room(&self) -> (n: usize)
        requires
            self.wf(),
        ensures
            n == self.writable(),
    {
        self.rxbuf.push_len()
    }

    /// Tells whether [`worker_rx`] can store `n` received bytes: the ring
    /// is not full and has room for all of them. The pump halts where it
    /// cannot.
    pub fn admits(&self, n: usize) -> (r: bool)
        requires
            self.wf(),
        ensures
            r == (self@.len() < self.capacity() && !overruns(self@, self.capacity(), n as nat)),
    {
        let free = self.rxbuf.free();
        free > 0 && n <= free
    }
}

impl View for Writer {
    type V = Seq<u8>;

    /// The bytes written and not yet sent, oldest first.
    closed spec fn view(&self) -> Seq<u8> {
        self.txbuf@
    }
}

impl Writer {
    pub closed spec fn wf(&self) -> bool {
        self.txbuf.wf()
    }

    /// The capacity of the transmit ring.
    pub closed spec fn capacity(&self) -> nat {
        self.txbuf.capacity()
    }

    /// Whether the pump has registered to be woken.
    pub closed spec fn waiting(&self) -> bool {
        self.tx_waker
    }

    /// The number of unsent bytes that lie in one piece.
    pub closed spec fn readable(&self) -> nat {
        self.txbuf.readable()
    }

    /// What holds of every well-formed sending end.
    pub proof fn lemma_bounds(&self)
        requires
            self.wf(),
        ensures
            self@.len() <= self.capacity(),
            self.readable() <= self@.len(),
            self.readable() == 0 <==> self@.len() == 0,
    {
        self.txbuf.lemma_bounds();
    }

    /// Tells whether `n` more bytes can be written without an overrun.
    pub fn fits(&self, n: usize) -> (r: bool)
        requires
            self.wf(),
        ensures
            r == !overruns(self@, self.capacity(), n as nat),
    {
        n <= self.txbuf.free()
    }

    /// The number of bytes written and not yet sent.
    pub fn len(&self) -> (n: usize)
        ensures
            n == self@.len(),
    {
        self.txbuf.len()
    }

    /// Queues all of `data` for sending, at once, and wakes the pump: the
    /// result says whether the pump was waiting and is to be woken. What
    /// the pump is sending stays where it is.
    ///
    /// Data that does not fit is an overrun; see [`Writer::fits`].
    pub fn write(&mut self, data: &[u8]) -> (wake: bool)
        requires
            old(self).wf(),
            !overruns(old(self)@, old(self).capacity(), data@.len()),
        ensures
            final(self).wf(),
            final(self).capacity() == old(self).capacity(),
            final(self)@ == stored(old(self)@, data@),
            final(self).readable() >= old(self).readable(),
            wake == old(self).waiting(),
            !final(self).waiting(),
    {
        push_to_ringbuf(&mut self.txbuf, data);
        let wake = self.tx_waker;
        self.tx_waker = false;
        wake
    }
}

/// One step of the receiving pump: stores what the serial line delivered
/// and wakes the reader. Nothing received changes nothing; else the result
/// says whether the reader was waiting and is to be woken.
///
/// The ring must not be full, whatever was received, and must have room
/// for all that was received: the pump offers the serial line
/// [`Reader::room`] bytes, and a full ring is an overrun, which
/// [`Reader::admits`] detects.
pub fn worker_rx(reader: &mut Reader, received: &[u8]) -> (wake: bool)
    requires
        old(reader).wf(),
        old(reader)@.len() < old(reader).capacity(),
        !overruns(old(reader)@, old(reader).capacity(), received@.len()),
    ensures
        final(reader).wf(),
        final(reader).capacity() == old(reader).capacity(),
        final(reader)@ == stored(old(reader)@, received@),
        wake == (received@.len() > 0 && old(reader).waiting()),
        final(reader).waiting() == (received@.len() == 0 && old(reader).waiting()),
{
    if received.len() == 0 {
        assert(reader@ + received@ =~= reader@);
        return false;
    }
    push_to_ringbuf(&mut reader.rxbuf, received);
    let wake = reader.rx_waker;
    reader.rx_waker = false;
    wake
}

/// The first step of the sending pump: hands out the first piece of the
/// unsent bytes, to be put on the serial line. The piece stays in the ring
/// while it is sent, so that nothing is written over it. Where there is
/// nothing to send, registers the pump to be woken and returns an empty
/// piece.
pub fn worker_tx(writer: &mut Writer) -> (piece: Vec<u8>)
    requires
        old(writer).wf(),
    ensures
        final(writer).wf(),
        final(writer).capacity() == old(writer).capacity(),
        piece@ == oldest(old(writer)@, old(writer).readable()),
        final(writer)@ == old(writer)@,
        final(writer).readable() == old(writer).readable(),
        final(writer).waiting() == (old(writer).waiting() || old(writer)@.len() == 0),
{
    proof {
        writer.txbuf.lemma_bounds();
    }
    let n = writer.txbuf.pop_len();
    if n == 0 {
        writer.tx_waker = true;
    }
    writer.txbuf.peek(n)
}

/// The second step of the sending pump: drops the `n` oldest unsent bytes,
/// once they were put on the serial line.
pub fn worker_tx_done(writer: &mut Writer, n: usize)
    requires
        old(writer).wf(),
        available(old(writer)@, n as nat),
    ensures
        final(writer).wf(),
        final(writer).capacity() == old(writer).capacity(),
        final(writer)@ == rest(old(writer)@, n as nat),
        final(writer).waiting() == old(writer).waiting(),
{
    writer.txbuf.pop_done(n)
}

/// Round trip through a ring of `capacity` bytes that holds `held`.
///
/// Storing `data`, as [`push_to_ringbuf`], [`Writer::write`] and
/// [`worker_rx`] do, is an overrun exactly where `data` is longer than the
/// free space; an empty ring takes every length up to its capacity. Where
/// it is no overrun, the ring holds no more than its capacity, nothing
/// that it held is lost, and the bytes come out in the order in which they
/// went in: once `held` is dropped, a read of the length of `data`, as
/// [`Reader::read`] does it, is ready, returns `data` itself and leaves the
/// ring empty. On an empty ring this holds of the first read.
pub proof fn lemma_round_trip(held: Seq<u8>, capacity: nat, data: Seq<u8>)
    requires
        held.len() <= capacity,
    ensures
        overruns(held, capacity, data.len()) <==> data.len() > capacity - held.len(),
        held.len() == 0 && data.len() <= capacity ==> !overruns(held, capacity, data.len()),
        !overruns(held, capacity, data.len()) ==> stored(held, data).len() <= capacity,
        available(stored(held, data), held.len()),
        oldest(stored(held, data), held.len()) == held,
        available(rest(stored(held, data), held.len()), data.len()),
        oldest(rest(stored(held, data), held.len()), data.len()) == data,
        rest(rest(stored(held, data), held.len()), data.len()) == Seq::<u8>::empty(),
        held.len() == 0 ==> {
            &&& available(stored(held, data), data.len())
            &&& oldest(stored(held, data), data.len()) == data
            &&& rest(stored(held, data), data.len()) == Seq::<u8>::empty()
        },
{
    let all = held + data;
    assert(all.take(held.len() as int) =~= held);
    assert(all.skip(held.len() as int) =~= data);
    assert(data.take(data.len() as int) =~= data);
    assert(data.skip(data.len() as int) =~= Seq::<u8>::empty());
    if held.len() == 0 {
        assert(all =~= data);
    }
}

/// The sending pump loses, repeats and reorders nothing. A piece of `n`
/// bytes handed out by [`worker_tx`] and dropped by [`worker_tx_done`]
/// after it was sent, followed by what is left, is what the ring held; and
/// `data` written while the piece is sent changes neither the piece nor
/// the order of what follows it.
pub proof fn lemma_pump_keeps_order(held: Seq<u8>, n: nat, data: Seq<u8>)
    requires
        available(held, n),
    ensures
        oldest(held, n) + rest(held, n) == held,
        available(stored(held, data), n),
        oldest(stored(held, data), n) == oldest(held, n),
        rest(stored(held, data), n) == stored(rest(held, n), data),
{
    assert(held.take(n as int) + held.skip(n as int) =~= held);
    assert((held + data).take(n as int) =~= held.take(n as int));
    assert((held + data).skip(n as int) =~= held.skip(n as int) + data);
}

} // verus!
