//! What holds of every socket pair, whatever is done to it.

use crate::buffer::MAX_SOCKETPAIR_BUFFER_CAPACITY;
use crate::clock::{clock_le, lemma_join_is_least_upper_bound};
use crate::error::{IoError, IoResult, UnsupportedOp};
use crate::wiring::{
    lemma_close_wf, lemma_read_same_wiring, lemma_same_wiring_trans, lemma_same_wiring_wf,
    lemma_write_same_wiring,
};
use crate::machine::{BufferId, FdId, MachineView};
use crate::socket::SocketPair;
use vstd::prelude::*;

verus! {

impl MachineView {
    /// `a` and `b` are live, and `b` is the peer of `a`. On a machine in
    /// order `a` is then the peer of `b` too, and each writes into the
    /// buffer that the other reads from.
    pub open spec fn paired(self, a: FdId, b: FdId) -> bool {
        self.fd_live(a) && self.fd_live(b) && self.socket(a).peer_fd == Some(b)
    }

    /// The bytes that wait to be read on the live descriptor `fd`.
    pub open spec fn incoming(self, fd: FdId) -> Seq<u8> {
        self.buffer(self.socket(fd).readbuf).bytes
    }

    /// `next` is what one operation makes of this machine: a read of at
    /// most `max_len` bytes on `fd`, a write of `bytes` to `fd`, closing
    /// `fd`, or creating a pair.
    pub open spec fn steps_to(
        self,
        fd: FdId,
        max_len: nat,
        bytes: Seq<u8>,
        is_nonblock: bool,
        next: MachineView,
    ) -> bool {
        ||| next == self.read(self.socket(fd), max_len)
        ||| next == self.write(self.socket(fd), bytes)
        ||| next == self.close(fd)
        ||| next == self.with_pair(is_nonblock)
    }

    /// The machine after the writes `writes`, one after the other. Each is a
    /// descriptor and the bytes that are written to it.
    pub open spec fn after_writes(self, writes: Seq<(FdId, Seq<u8>)>) -> MachineView
        decreases writes.len(),
    {
        if writes.len() == 0 {
            self
        } else {
            let before = self.after_writes(writes.drop_last());
            before.write(before.socket(writes.last().0), writes.last().1)
        }
    }
}

/// However many writes are made, and to whichever descriptors, no buffer
/// ever holds more than its capacity.
pub proof fn law_capacity_invariant(s: MachineView, writes: Seq<(FdId, Seq<u8>)>)
    requires
        s.wf(),
        forall|i: int| 0 <= i < writes.len() ==> s.fd_live(#[trigger] writes[i].0),
    ensures
        s.after_writes(writes).wf(),
        s.same_wiring(s.after_writes(writes)),
        forall|id: BufferId| #[trigger]
            s.after_writes(writes).buffer_live(id) ==> s.after_writes(writes).buffer(
                id,
            ).bytes.len() <= MAX_SOCKETPAIR_BUFFER_CAPACITY,
    decreases writes.len(),
{
    let after = s.after_writes(writes);
    if writes.len() == 0 {
    } else {
        let earlier = writes.drop_last();
        assert forall|i: int| 0 <= i < earlier.len() implies s.fd_live(
            #[trigger] earlier[i].0,
        ) by {
            assert(earlier[i] == writes[i]);
        }
        law_capacity_invariant(s, earlier);
        let before = s.after_writes(earlier);
        let fd = writes.last().0;
        assert(s.fd_live(writes[writes.len() - 1].0));
        assert(before.fd_live(fd) == s.fd_live(fd));
        lemma_write_same_wiring(before, fd, writes.last().1);
        lemma_same_wiring_wf(before, after);
        lemma_same_wiring_trans(s, before, after);
    }
    assert forall|id: BufferId| #[trigger] after.buffer_live(id) implies after.buffer(
        id,
    ).bytes.len() <= MAX_SOCKETPAIR_BUFFER_CAPACITY by {
        assert(after.buffer(id).wf());
    }
}

/// A write of at least one byte against a full buffer, on a non-blocking
/// endpoint, returns `WouldBlock` and changes nothing.
pub proof fn law_full_buffer_would_block(s: MachineView, socket: SocketPair, bytes: Seq<u8>)
    requires
        s.buffer_live(socket.writebuf),
        s.buffer(socket.writebuf).available_space() == 0,
        socket.is_nonblock,
        bytes.len() > 0,
    ensures
        s.write_result(socket, bytes.len()) == Ok::<IoResult<usize>, UnsupportedOp>(
            Err(IoError::WouldBlock),
        ),
        s.write(socket, bytes) == s,
{
}

/// A write of more bytes than fit, into a buffer that has room, takes
/// exactly as many bytes as fit, the first of those given, and returns
/// their number.
pub proof fn law_partial_transfer(s: MachineView, socket: SocketPair, bytes: Seq<u8>)
    requires
        s.inv(),
        s.buffer_live(socket.writebuf),
        s.buffer(socket.writebuf).available_space() > 0,
        bytes.len() > s.buffer(socket.writebuf).available_space(),
    ensures
        s.write_result(socket, bytes.len()) == Ok::<IoResult<usize>, UnsupportedOp>(
            Ok(s.buffer(socket.writebuf).available_space() as usize),
        ),
        s.write(socket, bytes).buffer_live(socket.writebuf),
        s.write(socket, bytes).buffer(socket.writebuf).bytes == s.buffer(socket.writebuf).bytes
            + bytes.subrange(0, s.buffer(socket.writebuf).available_space()),
        s.write(socket, bytes).buffer(socket.writebuf).available_space() == 0,
{
    assert(s.buffer(socket.writebuf).wf());
}

/// Once the writing end of a pair is closed, the other end still reads
/// what is left in its buffer, and reads end-of-file as soon as the buffer
/// is empty, not before.
pub proof fn law_eof_after_writer_closed(s: MachineView, a: FdId, b: FdId, max_len: nat)
    requires
        s.wf(),
        s.paired(a, b),
        max_len > 0,
    ensures
        s.close(a).wf(),
        s.close(a).fd_live(b),
        s.close(a).socket(b) == s.socket(b),
        s.close(a).incoming(b) == s.incoming(b),
        !s.close(a).buffer(s.socket(b).readbuf).has_writer,
        s.close(a).read_result(s.socket(b), max_len) == Ok::<IoResult<usize>, UnsupportedOp>(
            Ok(s.buffer(s.socket(b).readbuf).read_len(max_len) as usize),
        ),
        s.incoming(b).len() == 0 <==> s.close(a).read_result(s.socket(b), max_len) == Ok::<
            IoResult<usize>,
            UnsupportedOp,
        >(Ok(0)),
{
    lemma_close_wf(s, a);
    assert(s.linked(a));
    assert(s.linked(b));
    assert(s.buffer_live(s.socket(b).readbuf));
    assert(s.buffer(s.socket(b).readbuf).wf());
}

/// On an endpoint whose writer is gone, every read of at least one byte
/// succeeds with as many bytes as are there and were asked for: with none
/// exactly when the buffer is empty. The writer stays gone after the read.
pub proof fn law_eof_is_stable(s: MachineView, b: FdId, max_len: nat)
    requires
        s.wf(),
        s.fd_live(b),
        !s.buffer(s.socket(b).readbuf).has_writer,
        max_len > 0,
    ensures
        s.read_result(s.socket(b), max_len) == Ok::<IoResult<usize>, UnsupportedOp>(
            Ok(s.buffer(s.socket(b).readbuf).read_len(max_len) as usize),
        ),
        s.incoming(b).len() == 0 <==> s.read_result(s.socket(b), max_len) == Ok::<
            IoResult<usize>,
            UnsupportedOp,
        >(Ok(0)),
        s.read(s.socket(b), max_len).wf(),
        s.read(s.socket(b), max_len).fd_live(b),
        s.read(s.socket(b), max_len).socket(b) == s.socket(b),
        !s.read(s.socket(b), max_len).buffer(s.socket(b).readbuf).has_writer,
        s.read(s.socket(b), max_len).incoming(b) == s.incoming(b).subrange(
            s.buffer(s.socket(b).readbuf).read_len(max_len) as int,
            s.incoming(b).len() as int,
        ),
{
    let socket = s.socket(b);
    let t = s.read(socket, max_len);
    assert(s.linked(b));
    assert(s.buffer_live(socket.readbuf));
    assert(s.buffer(socket.readbuf).wf());
    lemma_read_same_wiring(s, b, max_len);
    lemma_same_wiring_wf(s, t);
    assert(t.fd_live(b) == s.fd_live(b));
    assert(t.socket(b) == s.socket(b));
    assert(t.buffer(socket.readbuf).has_writer == s.buffer(socket.readbuf).has_writer);
    if s.read_transfers(socket, max_len) {
    } else {
        assert(s.incoming(b) =~= s.incoming(b).subrange(0, s.incoming(b).len() as int));
    }
}

/// Once the reading end of a pair is closed, a write of at least one byte
/// on the other end returns `BrokenPipe` and changes nothing.
pub proof fn law_broken_pipe_after_reader_closed(s: MachineView, a: FdId, b: FdId, bytes: Seq<u8>)
    requires
        s.wf(),
        s.paired(a, b),
        bytes.len() > 0,
    ensures
        s.close(b).wf(),
        s.close(b).fd_live(a),
        s.close(b).socket(a) == s.socket(a),
        !s.close(b).buffer_live(s.socket(a).writebuf),
        s.close(b).write_result(s.socket(a), bytes.len()) == Ok::<IoResult<usize>, UnsupportedOp>(
            Err(IoError::BrokenPipe),
        ),
        s.close(b).write(s.socket(a), bytes) == s.close(b),
{
    lemma_close_wf(s, b);
    assert(s.linked(a));
    assert(s.linked(b));
}

/// A read of no bytes and a write of no bytes succeed with 0 and change
/// nothing, whatever the state of the buffers and of the peer.
pub proof fn law_zero_length_noop(s: MachineView, socket: SocketPair)
    ensures
        s.read_result(socket, 0) == Ok::<IoResult<usize>, UnsupportedOp>(Ok(0)),
        s.read_data(socket, 0) == Seq::<u8>::empty(),
        s.read(socket, 0) == s,
        s.write_result(socket, 0) == Ok::<IoResult<usize>, UnsupportedOp>(Ok(0)),
        s.write(socket, Seq::<u8>::empty()) == s,
{
}

/// An endpoint whose peer no longer resolves is reported as half-closed
/// and as readable, even if its buffer is empty.
pub proof fn law_hangup_is_readable(s: MachineView, socket: SocketPair)
    requires
        !s.peer_live(socket),
    ensures
        s.readiness(socket).epollrdhup,
        s.readiness(socket).epollin,
{
}

/// Once one end of a pair is closed, the readiness of the other end says
/// half-closed and readable, and so does what was reported for it when the
/// peer took its leave. From then on the other end is not writable.
pub proof fn law_half_close_readiness(s: MachineView, a: FdId, b: FdId)
    requires
        s.wf(),
        s.paired(a, b),
    ensures
        s.close(a).wf(),
        s.close(a).fd_live(b),
        s.close(a).socket(b) == s.socket(b),
        s.close(a).readiness(s.socket(b)).epollrdhup,
        s.close(a).readiness(s.socket(b)).epollin,
        !s.close(a).readiness(s.socket(b)).epollout,
        s.close(a).ready(b).epollrdhup,
        s.close(a).ready(b).epollin,
{
    lemma_close_wf(s, a);
    assert(s.linked(a));
    assert(s.linked(b));
}

/// A buffer that has lost its writer never gets one back, and a
/// descriptor or a buffer that is gone never comes back: not by a read, a
/// write, a close or a new pair.
pub proof fn law_gone_stays_gone(
    s: MachineView,
    fd: FdId,
    max_len: nat,
    bytes: Seq<u8>,
    is_nonblock: bool,
)
    requires
        s.wf(),
        s.fd_live(fd),
    ensures
        forall|t: MachineView|
            #![trigger s.steps_to(fd, max_len, bytes, is_nonblock, t)]
            s.steps_to(fd, max_len, bytes, is_nonblock, t) ==> {
                &&& forall|id: BufferId|
                    s.buffer_live(id) && !s.buffer(id).has_writer && #[trigger] t.buffer_live(id)
                        ==> !t.buffer(id).has_writer
                &&& forall|id: BufferId|
                    id < s.buffers.len() && !s.buffer_live(id) ==> !#[trigger] t.buffer_live(id)
                &&& forall|other: FdId|
                    other < s.fds.len() && !s.fd_live(other) ==> !#[trigger] t.fd_live(other)
            },
{
    let socket = s.socket(fd);
    lemma_read_same_wiring(s, fd, max_len);
    lemma_write_same_wiring(s, fd, bytes);
    assert forall|t: MachineView|
        #![trigger s.steps_to(fd, max_len, bytes, is_nonblock, t)]
        s.steps_to(fd, max_len, bytes, is_nonblock, t) implies {
        &&& forall|id: BufferId|
            s.buffer_live(id) && !s.buffer(id).has_writer && #[trigger] t.buffer_live(id)
                ==> !t.buffer(id).has_writer
        &&& forall|id: BufferId|
            id < s.buffers.len() && !s.buffer_live(id) ==> !#[trigger] t.buffer_live(id)
        &&& forall|other: FdId|
            other < s.fds.len() && !s.fd_live(other) ==> !#[trigger] t.fd_live(other)
    } by {
        if t == s.read(socket, max_len) || t == s.write(socket, bytes) {
            assert(s.same_wiring(t));
            assert forall|id: BufferId|
                s.buffer_live(id) && !s.buffer(id).has_writer && #[trigger] t.buffer_live(
                    id,
                ) implies !t.buffer(id).has_writer by {
                assert(t.buffer(id).has_writer == s.buffer(id).has_writer);
            }
            assert forall|id: BufferId|
                id < s.buffers.len() && !s.buffer_live(id) implies !#[trigger] t.buffer_live(
                    id,
                ) by {}
            assert forall|other: FdId|
                other < s.fds.len() && !s.fd_live(other) implies !#[trigger] t.fd_live(other) by {}
        } else if t == s.close(fd) {
        } else {
            assert(t == s.with_pair(is_nonblock));
        }
    }
}

/// A write merges the point at which the writing thread stands into the
/// clock of the buffer, on top of what earlier writes left there: the
/// buffer's clock is then at or after both.
pub proof fn law_write_records_clock(s: MachineView, socket: SocketPair, bytes: Seq<u8>)
    requires
        s.write_transfers(socket, bytes.len()),
    ensures
        s.write(socket, bytes).buffer_live(socket.writebuf),
        clock_le(
            s.buffer(socket.writebuf).clock,
            s.write(socket, bytes).buffer(socket.writebuf).clock,
        ),
        s.clock matches Some(released) ==> clock_le(
            released,
            s.write(socket, bytes).buffer(socket.writebuf).clock,
        ),
        s.write(socket, bytes).clock == s.clock,
{
    let before = s.buffer(socket.writebuf).clock;
    match s.clock {
        Some(released) => {
            lemma_join_is_least_upper_bound(before, released, before);
        },
        None => {},
    }
}

/// A read that takes data makes the reading thread happen after every
/// write that filled the buffer: where causal tracking is on, the thread's
/// clock is afterwards at or after the buffer's clock, and at or after
/// where the thread stood. The buffer's clock stays as it is.
pub proof fn law_read_acquires_clock(s: MachineView, socket: SocketPair, max_len: nat)
    requires
        s.buffer_live(socket.readbuf),
        s.read_transfers(socket, max_len),
    ensures
        s.read(socket, max_len).clock is Some == s.clock is Some,
        s.clock matches Some(before) ==> {
            &&& clock_le(s.buffer(socket.readbuf).clock, s.read(socket, max_len).clock->0)
            &&& clock_le(before, s.read(socket, max_len).clock->0)
        },
        s.read(socket, max_len).buffer(socket.readbuf).clock == s.buffer(socket.readbuf).clock,
{
    match s.clock {
        Some(before) => {
            lemma_join_is_least_upper_bound(before, s.buffer(socket.readbuf).clock, before);
        },
        None => {},
    }
}

/// What is written on one end of a pair is read on the other, in the order
/// in which it was written: a write into an empty buffer, followed by a read
/// for at least as many bytes as were taken, hands out exactly the bytes
/// that were taken.
pub proof fn law_first_in_first_out(
    s: MachineView,
    a: FdId,
    b: FdId,
    bytes: Seq<u8>,
    max_len: nat,
)
    requires
        s.wf(),
        s.paired(a, b),
        s.incoming(b).len() == 0,
        0 < bytes.len() <= max_len,
    ensures
        ({
            let written = s.write(s.socket(a), bytes);
            let taken = s.buffer(s.socket(a).writebuf).write_len(bytes.len());
            &&& written.wf()
            &&& written.fd_live(b)
            &&& written.socket(b) == s.socket(b)
            &&& written.incoming(b) == bytes.subrange(0, taken)
            &&& written.read_data(s.socket(b), max_len) == bytes.subrange(0, taken)
            &&& written.read(s.socket(b), max_len).incoming(b).len() == 0
        }),
{
    let sa = s.socket(a);
    let sb = s.socket(b);
    let written = s.write(sa, bytes);
    assert(s.linked(a));
    assert(s.linked(b));
    assert(s.buffer_live(sb.readbuf));
    assert(s.buffer(sb.readbuf).wf());
    lemma_write_same_wiring(s, a, bytes);
    lemma_same_wiring_wf(s, written);
    assert(written.fd_live(b) == s.fd_live(b));
    assert(written.socket(b) == s.socket(b));
    let taken = s.buffer(sa.writebuf).write_len(bytes.len());
    assert(written.buffer(sb.readbuf).bytes =~= bytes.subrange(0, taken));
    assert(written.read_data(sb, max_len) =~= bytes.subrange(0, taken));
    lemma_read_same_wiring(written, b, max_len);
    let emptied = written.read(sb, max_len);
    assert(emptied.fd_live(b) == written.fd_live(b));
    assert(emptied.socket(b) == written.socket(b));
}

} // verus!
