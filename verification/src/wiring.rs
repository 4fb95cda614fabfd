//! Why every operation leaves the machine in order.

use crate::buffer::BufferView;
use crate::clock::{acquired, clock_join};
use crate::machine::{BufferId, FdId, MachineView};
use vstd::prelude::*;

verus! {

impl MachineView {
    /// `other` has the descriptors and buffers of this machine, wired as
    /// they are here: the same endpoints behind the same descriptors, the
    /// same buffers with or without a writer as here, none over capacity.
    /// What the buffers hold, their clocks, the thread's clock and the
    /// readiness that was reported may differ.
    pub open spec fn same_wiring(self, other: MachineView) -> bool {
        &&& other.fds.len() == self.fds.len()
        &&& other.buffers.len() == self.buffers.len()
        &&& forall|fd: FdId| #[trigger] other.fd_live(fd) == self.fd_live(fd)
        &&& forall|fd: FdId| self.fd_live(fd) ==> #[trigger] other.socket(fd) == self.socket(fd)
        &&& forall|id: BufferId| #[trigger] other.buffer_live(id) == self.buffer_live(id)
        &&& forall|id: BufferId|
            self.buffer_live(id) ==> (#[trigger] other.buffer(id)).has_writer == self.buffer(
                id,
            ).has_writer && other.buffer(id).wf()
    }
}

/// The order of the arenas does not depend on the thread's clock.
pub proof fn lemma_inv_rests_on_arenas(s: MachineView, t: MachineView)
    requires
        s.inv(),
        t.fds == s.fds,
        t.buffers == s.buffers,
    ensures
        t.inv(),
{
    assert forall|id: BufferId| #[trigger] t.buffer_live(id) implies t.buffer(id).wf() by {
        assert(s.buffer_live(id));
    }
    assert forall|fd: FdId| #[trigger] t.fd_live(fd) implies t.buffer_live(t.socket(fd).readbuf) by {
        assert(s.fd_live(fd));
        assert(s.buffer_live(s.socket(fd).readbuf));
    }
}

/// Replacing a live buffer by one within capacity keeps the arenas in
/// order.
pub proof fn lemma_with_buffer_keeps_inv(s: MachineView, id: BufferId, buffer: BufferView)
    requires
        s.inv(),
        s.buffer_live(id),
        buffer.wf(),
    ensures
        s.with_buffer(id, buffer).inv(),
{
    let t = s.with_buffer(id, buffer);
    assert forall|other: BufferId| #[trigger] t.buffer_live(other) implies t.buffer(other).wf() by {
        assert(s.buffer_live(other));
    }
    assert forall|fd: FdId| #[trigger] t.fd_live(fd) implies t.buffer_live(t.socket(fd).readbuf) by {
        assert(s.fd_live(fd));
        assert(s.buffer_live(s.socket(fd).readbuf));
    }
}

/// A machine in order stays in order as long as its wiring stays.
pub proof fn lemma_same_wiring_wf(s: MachineView, t: MachineView)
    requires
        s.wf(),
        s.same_wiring(t),
    ensures
        t.wf(),
{
    assert forall|id: BufferId| #[trigger] t.buffer_live(id) implies t.buffer(id).wf() by {
        assert(s.buffer_live(id));
    }
    assert forall|fd: FdId| #[trigger] t.fd_live(fd) implies t.buffer_live(t.socket(fd).readbuf)
        && t.linked(fd) by {
        assert(s.fd_live(fd));
        assert(s.linked(fd));
        assert(t.socket(fd) == s.socket(fd));
        let socket = s.socket(fd);
        let peer = socket.peer_fd->0;
        assert(s.buffer_live(socket.readbuf));
        assert(t.buffer_live(socket.readbuf));
        assert(t.buffer(socket.readbuf).has_writer == s.buffer(socket.readbuf).has_writer);
        assert(t.fd_live(peer) == s.fd_live(peer));
        assert(t.buffer_live(socket.writebuf) == s.buffer_live(socket.writebuf));
        if t.fd_live(peer) {
            assert(t.socket(peer) == s.socket(peer));
        }
    }
    assert forall|fd1: FdId, fd2: FdId|
        #![trigger t.fd_live(fd1), t.fd_live(fd2)]
        t.fd_live(fd1) && t.fd_live(fd2) && fd1 != fd2 implies t.socket(fd1).readbuf != t.socket(
        fd2,
    ).readbuf by {
        assert(s.fd_live(fd1) && s.fd_live(fd2));
        assert(t.socket(fd1) == s.socket(fd1));
        assert(t.socket(fd2) == s.socket(fd2));
    }
}

/// Reporting the readiness of a live descriptor leaves the wiring alone.
pub proof fn lemma_notify_same_wiring(s: MachineView, fd: FdId)
    requires
        s.inv(),
        s.fd_live(fd),
    ensures
        s.same_wiring(s.notify(fd)),
{
    let t = s.notify(fd);
    assert forall|other: FdId| #[trigger] t.fd_live(other) == s.fd_live(other) by {}
    assert forall|other: FdId| s.fd_live(other) implies #[trigger] t.socket(other) == s.socket(
        other,
    ) by {}
    assert forall|id: BufferId| #[trigger] t.buffer_live(id) == s.buffer_live(id) by {}
    assert forall|id: BufferId| s.buffer_live(id) implies (#[trigger] t.buffer(id)).has_writer
        == s.buffer(id).has_writer && t.buffer(id).wf() by {}
}

/// The wiring relation carries from step to step.
pub proof fn lemma_same_wiring_trans(s: MachineView, t: MachineView, u: MachineView)
    requires
        s.same_wiring(t),
        t.same_wiring(u),
    ensures
        s.same_wiring(u),
{
    assert forall|fd: FdId| #[trigger] u.fd_live(fd) == s.fd_live(fd) by {
        assert(t.fd_live(fd) == s.fd_live(fd));
    }
    assert forall|fd: FdId| s.fd_live(fd) implies #[trigger] u.socket(fd) == s.socket(fd) by {
        assert(t.fd_live(fd) == s.fd_live(fd));
        assert(t.socket(fd) == s.socket(fd));
    }
    assert forall|id: BufferId| #[trigger] u.buffer_live(id) == s.buffer_live(id) by {
        assert(t.buffer_live(id) == s.buffer_live(id));
    }
    assert forall|id: BufferId| s.buffer_live(id) implies (#[trigger] u.buffer(id)).has_writer
        == s.buffer(id).has_writer && u.buffer(id).wf() by {
        assert(t.buffer_live(id) == s.buffer_live(id));
        assert(t.buffer(id).has_writer == s.buffer(id).has_writer);
    }
}

/// A read leaves the wiring alone.
pub proof fn lemma_read_same_wiring(s: MachineView, fd: FdId, max_len: nat)
    requires
        s.inv(),
        s.fd_live(fd),
    ensures
        s.same_wiring(s.read(s.socket(fd), max_len)),
{
    let socket = s.socket(fd);
    if s.read_transfers(socket, max_len) {
        let source = s.buffer(socket.readbuf);
        let count = source.read_len(max_len);
        let taken = (MachineView { clock: acquired(s.clock, source.clock), ..s })
            .with_buffer(
            socket.readbuf,
            BufferView {
                bytes: source.bytes.subrange(count as int, source.bytes.len() as int),
                ..source
            },
        );
        assert(s.buffer_live(socket.readbuf));
        assert(source.wf());
        lemma_with_buffer_same_wiring(s, taken, socket.readbuf);
        if taken.peer_live(socket) {
            let peer = socket.peer_fd->0;
            lemma_same_wiring_inv(s, taken);
            lemma_notify_same_wiring(taken, peer);
            lemma_same_wiring_trans(s, taken, taken.notify(peer));
        }
    } else {
        lemma_same_wiring_refl(s);
    }
}

/// A write leaves the wiring alone.
pub proof fn lemma_write_same_wiring(s: MachineView, fd: FdId, bytes: Seq<u8>)
    requires
        s.inv(),
        s.fd_live(fd),
    ensures
        s.same_wiring(s.write(s.socket(fd), bytes)),
{
    let socket = s.socket(fd);
    if s.write_transfers(socket, bytes.len()) {
        let target = s.buffer(socket.writebuf);
        let count = target.write_len(bytes.len());
        let written = s.with_buffer(
            socket.writebuf,
            BufferView {
                bytes: target.bytes + bytes.subrange(0, count),
                clock: match s.clock {
                    Some(released) => clock_join(target.clock, released),
                    None => target.clock,
                },
                has_writer: target.has_writer,
            },
        );
        assert(target.wf());
        lemma_with_buffer_same_wiring(s, written, socket.writebuf);
        if written.peer_live(socket) {
            let peer = socket.peer_fd->0;
            lemma_same_wiring_inv(s, written);
            lemma_notify_same_wiring(written, peer);
            lemma_same_wiring_trans(s, written, written.notify(peer));
        }
    } else {
        lemma_same_wiring_refl(s);
    }
}

/// Every machine whose arenas are in order is wired as itself.
pub proof fn lemma_same_wiring_refl(s: MachineView)
    requires
        s.inv(),
    ensures
        s.same_wiring(s),
{
}

/// The order of the arenas follows from the wiring.
pub proof fn lemma_same_wiring_inv(s: MachineView, t: MachineView)
    requires
        s.inv(),
        s.same_wiring(t),
    ensures
        t.inv(),
{
    assert forall|id: BufferId| #[trigger] t.buffer_live(id) implies t.buffer(id).wf() by {
        assert(s.buffer_live(id));
    }
    assert forall|fd: FdId| #[trigger] t.fd_live(fd) implies t.buffer_live(t.socket(fd).readbuf) by {
        assert(s.fd_live(fd));
        assert(t.socket(fd) == s.socket(fd));
        assert(s.buffer_live(s.socket(fd).readbuf));
    }
}

/// Changing what one live buffer holds, within its capacity and without
/// touching its writer flag, leaves the wiring alone.
pub proof fn lemma_with_buffer_same_wiring(s: MachineView, t: MachineView, id: BufferId)
    requires
        s.inv(),
        s.buffer_live(id),
        t.fds == s.fds,
        t.buffers.len() == s.buffers.len(),
        forall|other: int|
            0 <= other < s.buffers.len() && other != id ==> t.buffers[other] == s.buffers[other],
        t.buffer_live(id),
        t.buffer(id).wf(),
        t.buffer(id).has_writer == s.buffer(id).has_writer,
    ensures
        s.same_wiring(t),
{
    assert forall|fd: FdId| #[trigger] t.fd_live(fd) == s.fd_live(fd) by {}
    assert forall|fd: FdId| s.fd_live(fd) implies #[trigger] t.socket(fd) == s.socket(fd) by {}
    assert forall|other: BufferId| #[trigger] t.buffer_live(other) == s.buffer_live(other) by {}
    assert forall|other: BufferId| s.buffer_live(other) implies (#[trigger] t.buffer(
        other,
    )).has_writer == s.buffer(other).has_writer && t.buffer(other).wf() by {}
}

/// Closing a live descriptor leaves the machine in order.
pub proof fn lemma_close_wf(s: MachineView, fd: FdId)
    requires
        s.wf(),
        s.fd_live(fd),
    ensures
        s.close(fd).wf(),
{
    let socket = s.socket(fd);
    let peer = socket.peer_fd->0;
    let dropped = s.without_fd(fd);
    let marked = if dropped.buffer_live(socket.writebuf) {
        dropped.with_buffer(
            socket.writebuf,
            BufferView { has_writer: false, ..dropped.buffer(socket.writebuf) },
        )
    } else {
        dropped
    };
    let left = marked.notify_peer(socket);
    let t = left.without_buffer(socket.readbuf);
    assert(t == s.close(fd));
    assert(s.linked(fd));
    assert(s.buffer_live(socket.readbuf));

    // What is the same before and after, and what is not.
    assert forall|other: FdId| #[trigger] t.fd_live(other) == (s.fd_live(other) && other != fd) by {}
    assert forall|other: FdId| #[trigger]
        t.fd_live(other) implies t.socket(other) == s.socket(other) by {}
    assert forall|id: BufferId| #[trigger]
        t.buffer_live(id) == (s.buffer_live(id) && id != socket.readbuf) by {}
    assert forall|id: BufferId| #[trigger] t.buffer_live(id) implies t.buffer(id).bytes == s.buffer(
        id,
    ).bytes && t.buffer(id).has_writer == (s.buffer(id).has_writer && id != socket.writebuf) by {}

    assert forall|id: BufferId| #[trigger] t.buffer_live(id) implies t.buffer(id).wf() by {
        assert(s.buffer_live(id));
    }
    assert forall|other: FdId| #[trigger] t.fd_live(other) implies t.buffer_live(
        t.socket(other).readbuf,
    ) && t.linked(other) by {
        assert(s.fd_live(other));
        assert(s.linked(other));
        let theirs = s.socket(other);
        let their_peer = theirs.peer_fd->0;
        assert(s.buffer_live(theirs.readbuf));
        assert(theirs.readbuf != socket.readbuf);
        assert(t.buffer_live(theirs.readbuf));
        if their_peer == fd {
            // The peer of `other` is the descriptor that went.
            assert(theirs.writebuf == socket.readbuf);
            assert(socket.writebuf == theirs.readbuf);
            assert(!t.buffer(theirs.readbuf).has_writer);
        } else {
            assert(t.fd_live(their_peer) == s.fd_live(their_peer));
            if s.buffer_live(theirs.writebuf) {
                assert(s.fd_live(their_peer));
                assert(s.socket(their_peer).readbuf == theirs.writebuf);
                assert(theirs.writebuf != socket.readbuf);
            }
            if theirs.readbuf == socket.writebuf {
                assert(s.buffer_live(socket.writebuf));
                assert(s.fd_live(peer));
                assert(s.socket(peer).readbuf == socket.writebuf);
                assert(peer == other);
            }
            assert(t.buffer(theirs.readbuf).has_writer == s.buffer(theirs.readbuf).has_writer);
        }
    }
    assert forall|fd1: FdId, fd2: FdId|
        #![trigger t.fd_live(fd1), t.fd_live(fd2)]
        t.fd_live(fd1) && t.fd_live(fd2) && fd1 != fd2 implies t.socket(fd1).readbuf != t.socket(
        fd2,
    ).readbuf by {
        assert(s.fd_live(fd1) && s.fd_live(fd2));
    }
}

/// A new pair leaves the machine in order.
pub proof fn lemma_with_pair_wf(s: MachineView, is_nonblock: bool)
    requires
        s.wf(),
        s.fds.len() + 2 <= usize::MAX,
        s.buffers.len() + 2 <= usize::MAX,
    ensures
        s.with_pair(is_nonblock).wf(),
{
    let t = s.with_pair(is_nonblock);
    let sv0 = s.fds.len() as FdId;
    let sv1 = (s.fds.len() + 1) as FdId;
    let buffer1 = s.buffers.len() as BufferId;
    let buffer2 = (s.buffers.len() + 1) as BufferId;
    assert forall|id: BufferId| #[trigger] t.buffer_live(id) implies t.buffer(id).wf() by {
        if id < s.buffers.len() {
            assert(s.buffer_live(id));
        }
    }
    assert forall|fd: FdId| #[trigger] t.fd_live(fd) implies t.buffer_live(t.socket(fd).readbuf)
        && t.linked(fd) by {
        if fd < s.fds.len() {
            assert(s.fd_live(fd));
            assert(s.linked(fd));
            assert(s.buffer_live(s.socket(fd).readbuf));
            let peer = s.socket(fd).peer_fd->0;
            assert(t.fd_live(peer) == s.fd_live(peer));
            assert(t.buffer_live(s.socket(fd).writebuf) == s.buffer_live(s.socket(fd).writebuf));
        } else if fd == sv0 {
            assert(t.fd_live(sv1));
        } else {
            assert(fd == sv1);
            assert(t.fd_live(sv0));
        }
    }
    assert forall|fd1: FdId, fd2: FdId|
        #![trigger t.fd_live(fd1), t.fd_live(fd2)]
        t.fd_live(fd1) && t.fd_live(fd2) && fd1 != fd2 implies t.socket(fd1).readbuf != t.socket(
        fd2,
    ).readbuf by {
        if fd1 < s.fds.len() {
            assert(s.fd_live(fd1));
            assert(s.linked(fd1));
        }
        if fd2 < s.fds.len() {
            assert(s.fd_live(fd2));
            assert(s.linked(fd2));
        }
    }
}

} // verus!
