//! The endpoints of a socket pair.

use crate::buffer::{Buffer, BufferView};
use crate::clock::{acquired, clock_join};
use crate::epoll::EpollReadyEvents;
use crate::error::{InterpResult, IoError, IoResult, UnsupportedOp};
use crate::machine::{BufferId, FdId, FileDescription, Machine, MachineView, TargetOs};
use crate::wiring::{
    lemma_inv_rests_on_arenas, lemma_read_same_wiring, lemma_same_wiring_wf,
    lemma_with_buffer_keeps_inv, lemma_with_pair_wf, lemma_write_same_wiring,
};
use vstd::prelude::*;
use vstd::slice::slice_subrange;

verus! {

/// The local (Unix) address family.
pub const AF_UNIX: i32 = 1;

/// The local address family under its other name.
pub const AF_LOCAL: i32 = 1;

/// The stream socket type.
pub const SOCK_STREAM: i32 = 1;

/// The type flag that asks for non-blocking endpoints. It exists on Linux
/// only.
pub const SOCK_NONBLOCK: i32 = 0x800;

/// The type flag that asks for descriptors that are closed on exec.
pub const SOCK_CLOEXEC: i32 = 0x80000;

/// The bits of a socket type that `target_os` knows.
pub open spec fn recognized_type_bits(target_os: TargetOs) -> i32 {
    if target_os == TargetOs::Linux {
        SOCK_STREAM | SOCK_NONBLOCK | SOCK_CLOEXEC
    } else {
        SOCK_STREAM | SOCK_CLOEXEC
    }
}

/// The bits of `type_` that `target_os` does not know.
pub open spec fn unrecognized_type_bits(type_: i32, target_os: TargetOs) -> i32 {
    type_ & !recognized_type_bits(target_os)
}

/// Whether `type_` asks for non-blocking endpoints on `target_os`.
pub open spec fn nonblock_requested(type_: i32, target_os: TargetOs) -> bool {
    target_os == TargetOs::Linux && type_ & SOCK_NONBLOCK == SOCK_NONBLOCK
}

/// One side of a pair of connected sockets.
#[derive(Clone, Copy, Debug, PartialEq, Eq, Structural)]
pub struct SocketPair {
    /// The buffer that this side writes into. The link does not keep the
    /// buffer alive, so a write can tell when every reader is gone.
    pub writebuf: BufferId,
    /// The buffer that this side reads from, and owns.
    pub readbuf: BufferId,
    /// The descriptor of the other side. It is used to notify the other
    /// side, never to move data. The link does not keep the peer alive.
    pub peer_fd: Option<FdId>,
    /// Whether an operation that would have to wait fails with `WouldBlock`
    /// instead. Fixed when the pair is created.
    pub is_nonblock: bool,
}

impl SocketPair {
    /// The name of this kind of descriptor.
    pub fn name(&self) -> (res: &'static str)
        ensures
            res@ == "socketpair"@,
    {
        "socketpair"
    }

    /// The readiness of this endpoint: which of reading, writing and peer
    /// hang-up event polling should report for it.
    pub fn get_epoll_ready_events(&self, ecx: &Machine) -> (res: EpollReadyEvents)
        requires
            ecx@.inv(),
            ecx@.buffer_live(self.readbuf),
        ensures
            res == ecx@.readiness(*self),
    {
        let mut epoll_ready_events = EpollReadyEvents::new();
        let readbuf = ecx.buffers.get(self.readbuf).unwrap();

        // Check if it is readable.
        if !readbuf.is_empty() {
            epoll_ready_events.epollin = true;
        }
        // Check if is writable.

        if let Some(writebuf) = ecx.buffers.get(self.writebuf) {
            assert(ecx@.buffer_live(self.writebuf) && ecx@.buffer(self.writebuf) == writebuf@);
            let available_space = writebuf.available_space();
            if available_space != 0 {
                epoll_ready_events.epollout = true;
            }
        }
        // Check if the peer is gone. Whenever that is reported, reading is
        // reported as well, even though there is no data in the buffer.

        let peer_live = match self.peer_fd {
            Some(peer) => ecx.is_open(peer),
            None => false,
        };
        if !peer_live {
            epoll_ready_events.epollrdhup = true;
            epoll_ready_events.epollin = true;
        }
        epoll_ready_events
    }

    /// Reads into the front of `bytes` what the endpoint's buffer holds, or
    /// as much of it as `bytes` has room for. Returns how many bytes were
    /// read; the rest of `bytes` is left as it was.
    pub fn read(&self, bytes: &mut [u8], ecx: &mut Machine) -> (res: InterpResult<IoResult<usize>>)
        requires
            old(ecx)@.inv(),
            old(ecx)@.buffer_live(self.readbuf),
        ensures
            res == old(ecx)@.read_result(*self, old(bytes)@.len()),
            final(bytes)@ == old(ecx)@.read_data(*self, old(bytes)@.len()) + old(bytes)@.subrange(
                old(ecx)@.read_data(*self, old(bytes)@.len()).len() as int,
                old(bytes)@.len() as int,
            ),
            final(ecx)@ == old(ecx)@.read(*self, old(bytes)@.len()),
            final(ecx)@.inv(),
            old(ecx)@.wf() && old(ecx)@.holds(*self) ==> final(ecx)@.wf(),
    {
        proof {
            if old(ecx)@.wf() && old(ecx)@.holds(*self) {
                let fd = choose|fd: FdId| #[trigger]
                    old(ecx)@.fd_live(fd) && old(ecx)@.socket(fd) == *self;
                lemma_read_same_wiring(old(ecx)@, fd, bytes@.len());
                lemma_same_wiring_wf(old(ecx)@, old(ecx)@.read(*self, bytes@.len()));
            }
        }
        let request_byte_size = bytes.len();
        let readbuf = ecx.buffers.get(self.readbuf).unwrap();
        assert(old(ecx)@.buffer(self.readbuf) == readbuf@);

        // Always succeed on read size 0.
        if request_byte_size == 0 {
            assert(bytes@ =~= Seq::<u8>::empty() + bytes@.subrange(0, 0));
            return Ok(Ok(0));
        }
        if readbuf.is_empty() {
            assert(bytes@ =~= Seq::<u8>::empty() + bytes@.subrange(0, bytes@.len() as int));
            if !readbuf.buf_has_writer {
                // Socketpair with no writer and empty buffer.
                // 0 bytes successfully read indicates end-of-file.
                return Ok(Ok(0));
            } else {
                if self.is_nonblock {
                    // Non-blocking socketpair with writer and empty buffer.
                    return Ok(Err(IoError::WouldBlock));
                } else {
                    // Blocking socketpair with writer and empty buffer.
                    return Err(UnsupportedOp::BlockingRead);
                }
            }
        }
        // Synchronize with all previous writes to this buffer. This
        // over-synchronizes: it would be enough to synchronize with the
        // writes whose data is read.

        let readbuf = ecx.buffers.get_mut(self.readbuf).unwrap();
        ecx.data_race.acquire(&readbuf.clock);

        // Do full read / partial read based on the data available.
        let actual_read_size = readbuf.read(bytes);

        proof {
            let source = old(ecx)@.buffer(self.readbuf);
            let taken = (MachineView {
                clock: acquired(old(ecx)@.clock, source.clock),
                ..old(ecx)@
            }).with_buffer(
                self.readbuf,
                BufferView {
                    bytes: source.bytes.subrange(
                        actual_read_size as int,
                        source.bytes.len() as int,
                    ),
                    ..source
                },
            );
            assert(ecx@.buffers =~= taken.buffers);
            assert(ecx@ == taken);
            let synced = MachineView {
                clock: acquired(old(ecx)@.clock, source.clock),
                ..old(ecx)@
            };
            lemma_inv_rests_on_arenas(old(ecx)@, synced);
            lemma_with_buffer_keeps_inv(synced, self.readbuf, taken.buffer(self.readbuf));
        }
        // A notification is provided for the peer even when the read made
        // room for a single byte only. A real kernel reports a descriptor as
        // writable once more than a certain number of bytes fit, so this may
        // notify more often than a real system does.
        if let Some(peer) = self.peer_fd {
            if ecx.is_open(peer) {
                ecx.check_and_update_readiness(peer);
            }
        }
        Ok(Ok(actual_read_size))
    }

    /// Takes leave of the peer. The descriptor table calls this once the
    /// descriptor of this endpoint is gone, and drops the endpoint after it.
    /// It never fails.
    pub fn close(self, ecx: &mut Machine) -> (res: InterpResult<IoResult<()>>)
        requires
            old(ecx)@.inv(),
        ensures
            res == Ok::<IoResult<()>, UnsupportedOp>(Ok(())),
            final(ecx)@ == old(ecx)@.socket_closed(self),
            final(ecx)@.inv(),
    {
        // Signal to the other side that there is no writer to its buffer.
        // If the buffer is gone, there is nothing to update: all read ends
        // have been dropped.
        match ecx.buffers.get_mut(self.writebuf) {
            Some(writebuf) => {
                writebuf.buf_has_writer = false;
            },
            None => {},
        }
        proof {
            if old(ecx)@.buffer_live(self.writebuf) {
                let marked = old(ecx)@.with_buffer(
                    self.writebuf,
                    BufferView { has_writer: false, ..old(ecx)@.buffer(self.writebuf) },
                );
                assert(old(ecx)@.buffer(self.writebuf).wf());
                assert(ecx@.buffers =~= marked.buffers);
                assert(ecx@ == marked);
                lemma_with_buffer_keeps_inv(
                    old(ecx)@,
                    self.writebuf,
                    marked.buffer(self.writebuf),
                );
            }
        }
        // Notify the peer that the close has happened, so that every kind of
        // readiness of the peer is computed anew.
        if let Some(peer) = self.peer_fd {
            if ecx.is_open(peer) {
                ecx.check_and_update_readiness(peer);
            }
        }
        Ok(Ok(()))
    }

    /// Writes `bytes`, or as much of them as fits, into the peer's buffer.
    /// Returns how many bytes were taken.
    pub fn write(&self, bytes: &[u8], ecx: &mut Machine) -> (res: InterpResult<IoResult<usize>>)
        requires
            old(ecx)@.inv(),
        ensures
            res == old(ecx)@.write_result(*self, bytes@.len()),
            final(ecx)@ == old(ecx)@.write(*self, bytes@),
            final(ecx)@.inv(),
            old(ecx)@.wf() && old(ecx)@.holds(*self) ==> final(ecx)@.wf(),
    {
        proof {
            if old(ecx)@.wf() && old(ecx)@.holds(*self) {
                let fd = choose|fd: FdId| #[trigger]
                    old(ecx)@.fd_live(fd) && old(ecx)@.socket(fd) == *self;
                lemma_write_same_wiring(old(ecx)@, fd, bytes@);
                lemma_same_wiring_wf(old(ecx)@, old(ecx)@.write(*self, bytes@));
            }
        }
        let write_size = bytes.len();
        // Always succeed on write size 0.
        if write_size == 0 {
            return Ok(Ok(0));
        }
        let available_space = match ecx.buffers.get(self.writebuf) {
            Some(writebuf) => {
                assert(old(ecx)@.buffer_live(self.writebuf) && old(ecx)@.buffer(self.writebuf)
                    == writebuf@);
                writebuf.available_space()
            },
            None => {
                // The buffer is gone: all read ends have been closed.
                return Ok(Err(IoError::BrokenPipe));
            },
        };
        if available_space == 0 {
            if self.is_nonblock {
                // Non-blocking socketpair with a full buffer.
                return Ok(Err(IoError::WouldBlock));
            } else {
                // Blocking socketpair with a full buffer.
                return Err(UnsupportedOp::BlockingWrite);
            }
        }
        let writebuf = ecx.buffers.get_mut(self.writebuf).unwrap();
        // Remember this clock so `read` can synchronize with us.
        if let Some(clock) = &ecx.data_race.release() {
            writebuf.clock.join(clock);
        }
        // Do full write / partial write based on the space available.
        let actual_write_size = if write_size < available_space {
            write_size
        } else {
            available_space
        };
        writebuf.extend(slice_subrange(bytes, 0, actual_write_size));

        proof {
            let target = old(ecx)@.buffer(self.writebuf);
            let written = old(ecx)@.with_buffer(
                self.writebuf,
                BufferView {
                    bytes: target.bytes + bytes@.subrange(0, actual_write_size as int),
                    clock: match old(ecx)@.clock {
                        Some(released) => clock_join(target.clock, released),
                        None => target.clock,
                    },
                    has_writer: target.has_writer,
                },
            );
            assert(ecx@.buffers =~= written.buffers);
            assert(ecx@ == written);
            lemma_with_buffer_keeps_inv(old(ecx)@, self.writebuf, written.buffer(self.writebuf));
        }
        // Notification should be provided for peer fd as it became readable.
        if let Some(peer) = self.peer_fd {
            if ecx.is_open(peer) {
                ecx.check_and_update_readiness(peer);
            }
        }
        Ok(Ok(actual_write_size))
    }
}

impl MachineView {
    /// What a read of at most `max_len` bytes on `socket` returns.
    ///
    /// A read of nothing succeeds with 0. Otherwise, if the endpoint's own
    /// buffer holds data, the read takes as many bytes as are there and were
    /// asked for, and returns their number. If the buffer is empty and no
    /// writer is left, the read returns 0: end-of-file. If it is empty and a
    /// writer is left, a non-blocking endpoint would block, and a blocking
    /// one is not supported.
    pub open spec fn read_result(self, socket: SocketPair, max_len: nat) -> InterpResult<
        IoResult<usize>,
    > {
        let source = self.buffer(socket.readbuf);
        if max_len == 0 {
            Ok(Ok(0))
        } else if source.bytes.len() == 0 {
            if !source.has_writer {
                Ok(Ok(0))
            } else if socket.is_nonblock {
                Ok(Err(IoError::WouldBlock))
            } else {
                Err(UnsupportedOp::BlockingRead)
            }
        } else {
            Ok(Ok(source.read_len(max_len) as usize))
        }
    }

    /// Whether a read of at most `max_len` bytes on `socket` moves any data.
    pub open spec fn read_transfers(self, socket: SocketPair, max_len: nat) -> bool {
        max_len != 0 && self.buffer(socket.readbuf).bytes.len() != 0
    }

    /// The bytes that a read of at most `max_len` bytes on `socket` hands
    /// out: the oldest in the buffer, in order.
    pub open spec fn read_data(self, socket: SocketPair, max_len: nat) -> Seq<u8> {
        let source = self.buffer(socket.readbuf);
        if self.read_transfers(socket, max_len) {
            source.bytes.subrange(0, source.read_len(max_len) as int)
        } else {
            Seq::empty()
        }
    }

    /// The machine after a read of at most `max_len` bytes on `socket`.
    ///
    /// A read that moves no data changes nothing. One that does makes the
    /// reading thread happen after every write that filled the buffer,
    /// takes the bytes out of the buffer, and then notifies the peer.
    pub open spec fn read(self, socket: SocketPair, max_len: nat) -> MachineView {
        if self.read_transfers(socket, max_len) {
            let source = self.buffer(socket.readbuf);
            let count = source.read_len(max_len);
            MachineView { clock: acquired(self.clock, source.clock), ..self }.with_buffer(
                socket.readbuf,
                BufferView {
                    bytes: source.bytes.subrange(count as int, source.bytes.len() as int),
                    ..source
                },
            ).notify_peer(socket)
        } else {
            self
        }
    }

    /// What a write of `len` bytes on `socket` returns.
    ///
    /// A write of nothing succeeds with 0. Otherwise, if the buffer that
    /// `socket` writes into no longer resolves, every reader is gone: broken
    /// pipe. If that buffer is full, a non-blocking endpoint would block,
    /// and a blocking one is not supported. Otherwise the write takes as
    /// many bytes as fit, and returns their number.
    pub open spec fn write_result(self, socket: SocketPair, len: nat) -> InterpResult<
        IoResult<usize>,
    > {
        if len == 0 {
            Ok(Ok(0))
        } else if !self.buffer_live(socket.writebuf) {
            Ok(Err(IoError::BrokenPipe))
        } else if self.buffer(socket.writebuf).available_space() == 0 {
            if socket.is_nonblock {
                Ok(Err(IoError::WouldBlock))
            } else {
                Err(UnsupportedOp::BlockingWrite)
            }
        } else {
            Ok(Ok(self.buffer(socket.writebuf).write_len(len) as usize))
        }
    }

    /// Whether a write of `len` bytes on `socket` moves any data.
    pub open spec fn write_transfers(self, socket: SocketPair, len: nat) -> bool {
        &&& len != 0
        &&& self.buffer_live(socket.writebuf)
        &&& self.buffer(socket.writebuf).available_space() != 0
    }

    /// The machine after a write of `bytes` on `socket`.
    ///
    /// A write that moves no data changes nothing. One that does appends
    /// the bytes that fit to the buffer that `socket` writes into, merges
    /// the point at which the writing thread stands into that buffer's
    /// clock, and then notifies the peer.
    pub open spec fn write(self, socket: SocketPair, bytes: Seq<u8>) -> MachineView {
        if self.write_transfers(socket, bytes.len()) {
            let target = self.buffer(socket.writebuf);
            let count = target.write_len(bytes.len());
            self.with_buffer(
                socket.writebuf,
                BufferView {
                    bytes: target.bytes + bytes.subrange(0, count),
                    clock: match self.clock {
                        Some(released) => clock_join(target.clock, released),
                        None => target.clock,
                    },
                    has_writer: target.has_writer,
                },
            ).notify_peer(socket)
        } else {
            self
        }
    }

    /// The machine after `socket`, whose descriptor is gone already, has
    /// taken its leave.
    ///
    /// If the buffer that `socket` wrote into still resolves, it has no
    /// writer any more, so that the peer's next read on an empty buffer sees
    /// end-of-file. Then the peer is notified, if it still resolves.
    pub open spec fn socket_closed(self, socket: SocketPair) -> MachineView {
        let marked = if self.buffer_live(socket.writebuf) {
            self.with_buffer(
                socket.writebuf,
                BufferView { has_writer: false, ..self.buffer(socket.writebuf) },
            )
        } else {
            self
        };
        marked.notify_peer(socket)
    }

    /// The machine with one more pair of endpoints. Two empty buffers are
    /// added, then two endpoints, each reading from one buffer and writing
    /// into the other, each the other's peer. Nothing has been reported for
    /// them yet.
    pub open spec fn with_pair(self, is_nonblock: bool) -> MachineView {
        let buffer1 = self.buffers.len() as BufferId;
        let buffer2 = (self.buffers.len() + 1) as BufferId;
        let sv0 = self.fds.len() as FdId;
        let sv1 = (self.fds.len() + 1) as FdId;
        let socketpair_0 = SocketPair {
            writebuf: buffer1,
            readbuf: buffer2,
            peer_fd: Some(sv1),
            is_nonblock,
        };
        let socketpair_1 = SocketPair {
            writebuf: buffer2,
            readbuf: buffer1,
            peer_fd: Some(sv0),
            is_nonblock,
        };
        MachineView {
            fds: self.fds.push(
                Some(FileDescription { socket: socketpair_0, ready: EpollReadyEvents::none() }),
            ).push(Some(FileDescription { socket: socketpair_1, ready: EpollReadyEvents::none() })),
            buffers: self.buffers.push(Some(BufferView::empty())).push(Some(BufferView::empty())),
            ..self
        }
    }

    /// What creating a pair returns. The domain is checked first, then the
    /// type, then the protocol. On success the two new descriptors are
    /// returned in creation order.
    pub open spec fn socketpair_result(self, domain: i32, type_: i32, protocol: i32) -> InterpResult<
        (FdId, FdId),
    > {
        if domain != AF_UNIX && domain != AF_LOCAL {
            Err(UnsupportedOp::UnsupportedDomain(domain))
        } else if unrecognized_type_bits(type_, self.target_os) != 0 {
            Err(UnsupportedOp::UnsupportedType(unrecognized_type_bits(type_, self.target_os)))
        } else if protocol != 0 {
            Err(UnsupportedOp::UnsupportedProtocol(protocol))
        } else {
            Ok((self.fds.len() as FdId, (self.fds.len() + 1) as FdId))
        }
    }

    /// The machine after a pair was asked for: with the pair where the
    /// request is accepted, unchanged where it is refused.
    pub open spec fn socketpair(self, domain: i32, type_: i32, protocol: i32) -> MachineView {
        if self.socketpair_result(domain, type_, protocol) is Ok {
            self.with_pair(nonblock_requested(type_, self.target_os))
        } else {
            self
        }
    }
}

/// Taking the known flags out of a socket type one after the other leaves
/// the bits that are not known.
proof fn lemma_strip_type_flags(type_: i32)
    by (bit_vector)
    ensures
        ({
            let t1 = if type_ & 1i32 == 1i32 { type_ & !1i32 } else { type_ };
            let t2 = if t1 & 0x800i32 == 0x800i32 { t1 & !0x800i32 } else { t1 };
            let t3 = if t2 & 0x80000i32 == 0x80000i32 { t2 & !0x80000i32 } else { t2 };
            let u3 = if t1 & 0x80000i32 == 0x80000i32 { t1 & !0x80000i32 } else { t1 };
            &&& t3 == type_ & !(1i32 | 0x800i32 | 0x80000i32)
            &&& u3 == type_ & !(1i32 | 0x80000i32)
            &&& (t1 & 0x800i32 == 0x800i32) == (type_ & 0x800i32 == 0x800i32)
        }),
{
}

/// What the machine offers to the emulated program beyond its descriptors.
pub trait EvalContextExt: View<V = MachineView> + Sized {
    /// Creates a pair of connected sockets and returns their descriptors,
    /// in creation order.
    ///
    /// `domain` must be the local family. `type_` may hold the stream type,
    /// the close-on-exec flag and, where the target has it, the non-blocking
    /// flag, and nothing else. `protocol` must be 0. A request that is
    /// refused changes nothing.
    fn socketpair(&mut self, domain: i32, type_: i32, protocol: i32) -> (res: InterpResult<
        (FdId, FdId),
    >)
        requires
            old(self)@.wf(),
        ensures
            res == old(self)@.socketpair_result(domain, type_, protocol),
            final(self)@ == old(self)@.socketpair(domain, type_, protocol),
            final(self)@.wf(),
    ;
}

impl EvalContextExt for Machine {
    fn socketpair(&mut self, domain: i32, type_: i32, protocol: i32) -> (res: InterpResult<
        (FdId, FdId),
    >) {
        let mut type_ = type_;
        let mut is_sock_nonblock = false;

        // Parse and remove the type flags that we support. If anything is
        // left after removing them, unsupported flags are used.
        proof {
            lemma_strip_type_flags(type_);
        }
        if type_ & SOCK_STREAM == SOCK_STREAM {
            type_ &= !SOCK_STREAM;
        }
        // SOCK_NONBLOCK only exists on Linux.

        if self.target_os == TargetOs::Linux {
            if type_ & SOCK_NONBLOCK == SOCK_NONBLOCK {
                is_sock_nonblock = true;
                type_ &= !SOCK_NONBLOCK;
            }
        }
        if type_ & SOCK_CLOEXEC == SOCK_CLOEXEC {
            type_ &= !SOCK_CLOEXEC;
        }
        // Fail on unsupported input. AF_UNIX and AF_LOCAL are synonyms, so
        // both are accepted in case their values differ.

        if domain != AF_UNIX && domain != AF_LOCAL {
            return Err(UnsupportedOp::UnsupportedDomain(domain));
        } else if type_ != 0 {
            return Err(UnsupportedOp::UnsupportedType(type_));
        } else if protocol != 0 {
            return Err(UnsupportedOp::UnsupportedProtocol(protocol));
        }
        let buffer1 = self.buffers.insert_new(Buffer::new());
        let buffer2 = self.buffers.insert_new(Buffer::new());

        let socketpair_0 = SocketPair {
            writebuf: buffer1,
            readbuf: buffer2,
            peer_fd: None,
            is_nonblock: is_sock_nonblock,
        };
        let socketpair_1 = SocketPair {
            writebuf: buffer2,
            readbuf: buffer1,
            peer_fd: None,
            is_nonblock: is_sock_nonblock,
        };

        // Insert the file descriptions into the descriptor table.
        let sv0 = self.fds.insert_new(
            FileDescription { socket: socketpair_0, ready: EpollReadyEvents::new() },
        );
        let sv1 = self.fds.insert_new(
            FileDescription { socket: socketpair_1, ready: EpollReadyEvents::new() },
        );

        // Make each endpoint the other's peer.
        let fd_ref1 = self.fds.get_mut(sv1).unwrap();
        fd_ref1.socket.peer_fd = Some(sv0);
        let fd_ref0 = self.fds.get_mut(sv0).unwrap();
        fd_ref0.socket.peer_fd = Some(sv1);

        proof {
            lemma_with_pair_wf(old(self)@, is_sock_nonblock);
            assert(self@.fds =~= old(self)@.with_pair(is_sock_nonblock).fds);
            assert(self@.buffers =~= old(self)@.with_pair(is_sock_nonblock).buffers);
        }
        // Return the descriptors to the caller.
        Ok((sv0, sv1))
    }
}

} // verus!
