//! Operations on descriptors: each looks the endpoint up in the descriptor
//! table and hands the work to it.

use crate::epoll::EpollReadyEvents;
use crate::error::{InterpResult, IoResult, UnsupportedOp};
use crate::machine::{BufferId, FdId, Machine, MachineView};
use crate::wiring::lemma_close_wf;
use vstd::prelude::*;

verus! {

impl MachineView {
    /// The machine without the descriptor `fd`: from now on it resolves for
    /// nobody.
    pub open spec fn without_fd(self, fd: FdId) -> MachineView {
        MachineView { fds: self.fds.update(fd as int, None), ..self }
    }

    /// The machine without the buffer `id`.
    pub open spec fn without_buffer(self, id: BufferId) -> MachineView {
        MachineView { buffers: self.buffers.update(id as int, None), ..self }
    }

    /// The machine after the live descriptor `fd` has been closed.
    ///
    /// First the descriptor goes, so that it no longer resolves for its
    /// peer. Then the endpoint takes its leave: the buffer that it wrote
    /// into loses its writer, and the peer is notified. Last the endpoint is
    /// dropped, and with it the buffer that it owns.
    pub open spec fn close(self, fd: FdId) -> MachineView {
        let socket = self.socket(fd);
        self.without_fd(fd).socket_closed(socket).without_buffer(socket.readbuf)
    }
}

impl Machine {
    /// Reads from the live descriptor `fd` into the front of `bytes`.
    /// Returns how many bytes were read; the rest of `bytes` is left as it
    /// was.
    pub fn read(&mut self, fd: FdId, bytes: &mut [u8]) -> (res: InterpResult<IoResult<usize>>)
        requires
            old(self)@.wf(),
            old(self)@.fd_live(fd),
        ensures
            res == old(self)@.read_result(old(self)@.socket(fd), old(bytes)@.len()),
            final(bytes)@ == old(self)@.read_data(old(self)@.socket(fd), old(bytes)@.len()) + old(
                bytes,
            )@.subrange(
                old(self)@.read_data(old(self)@.socket(fd), old(bytes)@.len()).len() as int,
                old(bytes)@.len() as int,
            ),
            final(self)@ == old(self)@.read(old(self)@.socket(fd), old(bytes)@.len()),
            final(self)@.wf(),
    {
        let socket = self.fds.get(fd).unwrap().socket;
        assert(self@.holds(socket));
        socket.read(bytes, self)
    }

    /// Writes `bytes`, or as much of them as fits, to the live descriptor
    /// `fd`. Returns how many bytes were taken.
    pub fn write(&mut self, fd: FdId, bytes: &[u8]) -> (res: InterpResult<IoResult<usize>>)
        requires
            old(self)@.wf(),
            old(self)@.fd_live(fd),
        ensures
            res == old(self)@.write_result(old(self)@.socket(fd), bytes@.len()),
            final(self)@ == old(self)@.write(old(self)@.socket(fd), bytes@),
            final(self)@.wf(),
    {
        let socket = self.fds.get(fd).unwrap().socket;
        assert(self@.holds(socket));
        socket.write(bytes, self)
    }

    /// Closes the live descriptor `fd`: the endpoint behind it is destroyed,
    /// and the buffer that it owns with it. It never fails.
    pub fn close(&mut self, fd: FdId) -> (res: InterpResult<IoResult<()>>)
        requires
            old(self)@.wf(),
            old(self)@.fd_live(fd),
        ensures
            res == Ok::<IoResult<()>, UnsupportedOp>(Ok(())),
            final(self)@ == old(self)@.close(fd),
            final(self)@.wf(),
    {
        let entry = self.fds.remove(fd).unwrap();
        proof {
            let dropped = old(self)@.without_fd(fd);
            assert(self@ == dropped);
            assert forall|other: FdId| #[trigger] dropped.fd_live(other) implies dropped.buffer_live(
                dropped.socket(other).readbuf,
            ) by {
                assert(old(self)@.fd_live(other));
            }
            assert forall|id: BufferId| #[trigger] dropped.buffer_live(id) implies dropped.buffer(
                id,
            ).wf() by {
                assert(old(self)@.buffer_live(id));
            }
        }
        let res = entry.socket.close(self);
        self.buffers.remove(entry.socket.readbuf);
        proof {
            let left = old(self)@.without_fd(fd).socket_closed(entry.socket);
            assert(self@.buffers =~= left.without_buffer(entry.socket.readbuf).buffers);
            lemma_close_wf(old(self)@, fd);
        }
        res
    }

    /// The readiness of the live descriptor `fd`, computed from the state as
    /// it is.
    pub fn get_epoll_ready_events(&self, fd: FdId) -> (res: EpollReadyEvents)
        requires
            self@.wf(),
            self@.fd_live(fd),
        ensures
            res == self@.readiness(self@.socket(fd)),
    {
        let socket = self.fds.get(fd).unwrap().socket;
        socket.get_epoll_ready_events(self)
    }
}

} // verus!
