//! The emulated machine: the descriptor table, the buffers, and the clock of
//! the running thread.
//!
//! Endpoints and buffers live in two arenas. An endpoint owns the buffer
//! that it reads from. It refers to the buffer that it writes into, and to
//! its peer, by identifier only, and asks the arenas whether they are still
//! there.

use crate::arena::{slot_live, Arena};
use crate::buffer::{Buffer, BufferView};
use crate::clock::ThreadClock;
use crate::epoll::EpollReadyEvents;
use crate::socket::SocketPair;
use crate::wiring::{lemma_notify_same_wiring, lemma_same_wiring_inv, lemma_same_wiring_wf};
use vstd::prelude::*;

verus! {

/// The identity of a descriptor. Identities are handed out in creation
/// order and never reused.
pub type FdId = usize;

/// The identity of a buffer.
pub type BufferId = usize;

/// The system that the emulated program was built for.
#[derive(Clone, Copy, Debug, PartialEq, Eq, Structural)]
pub enum TargetOs {
    Linux,
    Other,
}

/// An entry of the descriptor table: an endpoint, and the readiness that was
/// last reported for it to event polling.
#[derive(Clone, Copy, Debug, PartialEq, Eq, Structural)]
pub struct FileDescription {
    pub socket: SocketPair,
    pub ready: EpollReadyEvents,
}

/// The machine as plain values: both arenas by identifier, the thread's
/// clock (nothing where causal tracking is off), and the target.
#[verifier::ext_equal]
pub struct MachineView {
    pub fds: Seq<Option<FileDescription>>,
    pub buffers: Seq<Option<BufferView>>,
    pub clock: Option<Seq<u64>>,
    pub target_os: TargetOs,
}

/// What a slot of the buffer arena holds, as plain values.
pub open spec fn buffer_slot_view(slot: Option<Buffer>) -> Option<BufferView> {
    match slot {
        Some(buffer) => Some(buffer@),
        None => None,
    }
}

impl MachineView {
    /// A machine on which nothing has been created yet.
    pub open spec fn init(target_os: TargetOs, clock: Option<Seq<u64>>) -> MachineView {
        MachineView { fds: Seq::empty(), buffers: Seq::empty(), clock, target_os }
    }

    /// Whether the descriptor `fd` still resolves.
    pub open spec fn fd_live(self, fd: FdId) -> bool {
        slot_live(self.fds, fd as int)
    }

    /// The endpoint behind the live descriptor `fd`.
    pub open spec fn socket(self, fd: FdId) -> SocketPair {
        self.fds[fd as int]->0.socket
    }

    /// The readiness last reported for the live descriptor `fd`.
    pub open spec fn ready(self, fd: FdId) -> EpollReadyEvents {
        self.fds[fd as int]->0.ready
    }

    /// Whether the buffer `id` still resolves.
    pub open spec fn buffer_live(self, id: BufferId) -> bool {
        slot_live(self.buffers, id as int)
    }

    /// The live buffer `id`.
    pub open spec fn buffer(self, id: BufferId) -> BufferView {
        self.buffers[id as int]->0
    }

    /// Whether `socket` is the endpoint behind some live descriptor.
    pub open spec fn holds(self, socket: SocketPair) -> bool {
        exists|fd: FdId| #[trigger] self.fd_live(fd) && self.socket(fd) == socket
    }

    /// Whether the peer of `socket` still resolves.
    pub open spec fn peer_live(self, socket: SocketPair) -> bool {
        socket.peer_fd matches Some(peer) && self.fd_live(peer)
    }

    /// The machine with the live buffer `id` replaced by `buffer`.
    pub open spec fn with_buffer(self, id: BufferId, buffer: BufferView) -> MachineView {
        MachineView { buffers: self.buffers.update(id as int, Some(buffer)), ..self }
    }

    /// The readiness of an endpoint, computed from the state as it is.
    ///
    /// Readable: its own buffer holds data. Writable: the buffer that it
    /// writes into still resolves and has room. Peer half-closed: the peer
    /// no longer resolves; this is reported as readable too, even on an
    /// empty buffer.
    pub open spec fn readiness(self, socket: SocketPair) -> EpollReadyEvents {
        let hung_up = !self.peer_live(socket);
        EpollReadyEvents {
            epollin: self.buffer(socket.readbuf).bytes.len() != 0 || hung_up,
            epollout: self.buffer_live(socket.writebuf) && self.buffer(
                socket.writebuf,
            ).available_space() != 0,
            epollrdhup: hung_up,
        }
    }

    /// The machine after the readiness of the live descriptor `fd` has been
    /// computed anew and reported.
    pub open spec fn notify(self, fd: FdId) -> MachineView {
        let socket = self.socket(fd);
        MachineView {
            fds: self.fds.update(
                fd as int,
                Some(FileDescription { socket, ready: self.readiness(socket) }),
            ),
            ..self
        }
    }

    /// The machine after the peer of `socket` has been notified, if it still
    /// resolves.
    pub open spec fn notify_peer(self, socket: SocketPair) -> MachineView {
        if self.peer_live(socket) {
            self.notify(socket.peer_fd->0)
        } else {
            self
        }
    }

    /// What holds of the arenas at every moment, also while a descriptor is
    /// being closed: no buffer is over its capacity, and every live
    /// endpoint's own buffer is there.
    pub open spec fn inv(self) -> bool {
        &&& forall|id: BufferId| #[trigger] self.buffer_live(id) ==> self.buffer(id).wf()
        &&& forall|fd: FdId| #[trigger]
            self.fd_live(fd) ==> self.buffer_live(self.socket(fd).readbuf)
    }

    /// The wiring of the live descriptor `fd`. It has a peer, which is
    /// another descriptor. While the peer is there, each of the two writes
    /// into the buffer that the other reads from. The buffer that `fd`
    /// writes into is there exactly as long as the peer is, and the buffer
    /// that `fd` reads from has a writer exactly as long as the peer is
    /// there.
    pub open spec fn linked(self, fd: FdId) -> bool {
        let socket = self.socket(fd);
        &&& socket.readbuf < self.buffers.len()
        &&& socket.writebuf < self.buffers.len()
        &&& socket.readbuf != socket.writebuf
        &&& socket.peer_fd matches Some(peer)
        &&& peer < self.fds.len()
        &&& peer != fd
        &&& self.fd_live(peer) ==> {
            &&& self.socket(peer).peer_fd == Some(fd)
            &&& self.socket(peer).readbuf == socket.writebuf
            &&& self.socket(peer).writebuf == socket.readbuf
        }
        &&& self.buffer_live(socket.writebuf) <==> self.fd_live(peer)
        &&& self.buffer(socket.readbuf).has_writer <==> self.fd_live(peer)
    }

    /// What holds of the machine between operations: the arenas are in
    /// order, every live descriptor is wired as `linked` says, and no two
    /// live endpoints own the same buffer.
    pub open spec fn wf(self) -> bool {
        &&& self.inv()
        &&& forall|fd: FdId| #[trigger] self.fd_live(fd) ==> self.linked(fd)
        &&& forall|fd1: FdId, fd2: FdId|
            #![trigger self.fd_live(fd1), self.fd_live(fd2)]
            self.fd_live(fd1) && self.fd_live(fd2) && fd1 != fd2 ==> self.socket(fd1).readbuf
                != self.socket(fd2).readbuf
    }
}

/// The emulated machine.
pub struct Machine {
    /// The descriptor table.
    pub fds: Arena<FileDescription>,
    /// The buffers of all socket pairs.
    pub buffers: Arena<Buffer>,
    /// The clock of the running thread.
    pub data_race: ThreadClock,
    /// The system that the emulated program was built for.
    pub target_os: TargetOs,
}

impl View for Machine {
    type V = MachineView;

    open spec fn view(&self) -> MachineView {
        MachineView {
            fds: self.fds@,
            buffers: self.buffers@.map_values(|slot: Option<Buffer>| buffer_slot_view(slot)),
            clock: self.data_race@,
            target_os: self.target_os,
        }
    }
}

impl Machine {
    /// A machine for `target_os` on which nothing has been created yet.
    pub fn new(target_os: TargetOs, data_race: ThreadClock) -> (res: Self)
        ensures
            res@ == MachineView::init(target_os, data_race@),
            res@.wf(),
    {
        Machine { fds: Arena::new(), buffers: Arena::new(), data_race, target_os }
    }

    /// Whether the descriptor `fd` still resolves.
    pub fn is_open(&self, fd: FdId) -> (live: bool)
        ensures
            live == self@.fd_live(fd),
    {
        self.fds.contains(fd)
    }

    /// The endpoint behind the descriptor `fd`, if it still resolves.
    pub fn get_ref(&self, fd: FdId) -> (res: Option<SocketPair>)
        ensures
            res == if self@.fd_live(fd) {
                Some(self@.socket(fd))
            } else {
                None
            },
    {
        match self.fds.get(fd) {
            Some(entry) => Some(entry.socket),
            None => None,
        }
    }

    /// The readiness that was last reported for the descriptor `fd`, if it
    /// still resolves.
    pub fn ready_events(&self, fd: FdId) -> (res: Option<EpollReadyEvents>)
        ensures
            res == if self@.fd_live(fd) {
                Some(self@.ready(fd))
            } else {
                None
            },
    {
        match self.fds.get(fd) {
            Some(entry) => Some(entry.ready),
            None => None,
        }
    }

    /// Computes the readiness of the live descriptor `fd` anew and reports
    /// it.
    pub fn check_and_update_readiness(&mut self, fd: FdId)
        requires
            old(self)@.inv(),
            old(self)@.fd_live(fd),
        ensures
            final(self)@ == old(self)@.notify(fd),
            final(self)@.inv(),
            old(self)@.wf() ==> final(self)@.wf(),
    {
        let socket = self.fds.get(fd).unwrap().socket;
        let ready = socket.get_epoll_ready_events(self);
        let entry = self.fds.get_mut(fd).unwrap();
        entry.ready = ready;
        proof {
            lemma_notify_same_wiring(old(self)@, fd);
            lemma_same_wiring_inv(old(self)@, old(self)@.notify(fd));
            if old(self)@.wf() {
                lemma_same_wiring_wf(old(self)@, old(self)@.notify(fd));
            }
        }
    }
}

} // verus!
