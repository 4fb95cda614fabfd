use socketpair::clock::ThreadClock;
use socketpair::epoll::EpollReadyEvents;
use socketpair::error::{IoError, UnsupportedOp};
use socketpair::machine::{Machine, TargetOs};
use socketpair::socket::{
    EvalContextExt, SocketPair, AF_LOCAL, AF_UNIX, SOCK_CLOEXEC, SOCK_NONBLOCK, SOCK_STREAM,
};

fn linux() -> Machine {
    Machine::new(TargetOs::Linux, ThreadClock::disabled())
}

fn other() -> Machine {
    Machine::new(TargetOs::Other, ThreadClock::disabled())
}

#[test]
fn descriptors_come_in_creation_order() {
    let mut m = linux();
    assert_eq!(m.socketpair(AF_UNIX, SOCK_STREAM, 0), Ok((0, 1)));
    assert_eq!(m.socketpair(AF_LOCAL, SOCK_STREAM, 0), Ok((2, 3)));
    assert_eq!(m.close(0), Ok(Ok(())));
    // An identity is never handed out again.
    assert_eq!(m.socketpair(AF_UNIX, SOCK_STREAM, 0), Ok((4, 5)));
    assert!(!m.is_open(0));
}

#[test]
fn endpoints_are_cross_wired() {
    let mut m = linux();
    let (a, b) = m.socketpair(AF_UNIX, SOCK_STREAM | SOCK_NONBLOCK, 0).unwrap();
    let sa = m.get_ref(a).unwrap();
    let sb = m.get_ref(b).unwrap();
    assert_eq!(sa, SocketPair { writebuf: 0, readbuf: 1, peer_fd: Some(b), is_nonblock: true });
    assert_eq!(sb, SocketPair { writebuf: 1, readbuf: 0, peer_fd: Some(a), is_nonblock: true });
    assert!(m.buffers.get(0).unwrap().buf_has_writer);
    assert!(m.buffers.get(1).unwrap().buf_has_writer);
    assert_eq!(m.buffers.get(0).unwrap().len(), 0);
    assert_eq!(m.buffers.get(1).unwrap().len(), 0);
}

#[test]
fn unsupported_domain() {
    let mut m = linux();
    assert_eq!(m.socketpair(2, SOCK_STREAM, 0), Err(UnsupportedOp::UnsupportedDomain(2)));
    assert_eq!(m.socketpair(0, SOCK_STREAM, 0), Err(UnsupportedOp::UnsupportedDomain(0)));
    assert_eq!(m.socketpair(-1, SOCK_STREAM, 0), Err(UnsupportedOp::UnsupportedDomain(-1)));
    assert!(!m.is_open(0));
    assert!(!m.buffers.contains(0));
}

#[test]
fn unsupported_type_reports_the_bits_left_over() {
    let mut m = linux();
    // SOCK_DGRAM.
    assert_eq!(m.socketpair(AF_UNIX, 2, 0), Err(UnsupportedOp::UnsupportedType(2)));
    // SOCK_SEQPACKET holds the stream bit and one more.
    assert_eq!(m.socketpair(AF_UNIX, 5, 0), Err(UnsupportedOp::UnsupportedType(4)));
    assert_eq!(
        m.socketpair(AF_UNIX, SOCK_STREAM | SOCK_NONBLOCK | SOCK_CLOEXEC | 0x40, 0),
        Err(UnsupportedOp::UnsupportedType(0x40)),
    );
    assert_eq!(
        m.socketpair(AF_UNIX, -1, 0),
        Err(UnsupportedOp::UnsupportedType(!(SOCK_STREAM | SOCK_NONBLOCK | SOCK_CLOEXEC))),
    );
    assert!(!m.is_open(0));
}

#[test]
fn unsupported_protocol() {
    let mut m = linux();
    assert_eq!(m.socketpair(AF_UNIX, SOCK_STREAM, 6), Err(UnsupportedOp::UnsupportedProtocol(6)));
    assert_eq!(m.socketpair(AF_UNIX, SOCK_STREAM, -3), Err(UnsupportedOp::UnsupportedProtocol(-3)));
    assert!(!m.is_open(0));
}

#[test]
fn domain_is_checked_before_type_and_type_before_protocol() {
    let mut m = linux();
    assert_eq!(m.socketpair(3, 2, 7), Err(UnsupportedOp::UnsupportedDomain(3)));
    assert_eq!(m.socketpair(AF_UNIX, 2, 7), Err(UnsupportedOp::UnsupportedType(2)));
    assert_eq!(m.socketpair(AF_UNIX, SOCK_STREAM, 7), Err(UnsupportedOp::UnsupportedProtocol(7)));
}

#[test]
fn every_recognised_type_flag_is_optional() {
    let mut m = linux();
    assert_eq!(m.socketpair(AF_UNIX, 0, 0), Ok((0, 1)));
    assert!(!m.get_ref(0).unwrap().is_nonblock);
    assert_eq!(m.socketpair(AF_UNIX, SOCK_NONBLOCK, 0), Ok((2, 3)));
    assert!(m.get_ref(2).unwrap().is_nonblock);
    assert!(m.get_ref(3).unwrap().is_nonblock);
    assert_eq!(m.socketpair(AF_UNIX, SOCK_CLOEXEC, 0), Ok((4, 5)));
    assert!(!m.get_ref(4).unwrap().is_nonblock);
    assert_eq!(m.socketpair(AF_UNIX, SOCK_STREAM | SOCK_CLOEXEC | SOCK_NONBLOCK, 0), Ok((6, 7)));
    assert!(m.get_ref(6).unwrap().is_nonblock);
}

#[test]
fn nonblock_flag_is_unknown_where_the_target_lacks_it() {
    let mut m = other();
    assert_eq!(
        m.socketpair(AF_UNIX, SOCK_STREAM | SOCK_NONBLOCK, 0),
        Err(UnsupportedOp::UnsupportedType(SOCK_NONBLOCK)),
    );
    assert_eq!(m.socketpair(AF_UNIX, SOCK_STREAM, 0), Ok((0, 1)));
    assert!(!m.get_ref(0).unwrap().is_nonblock);
    assert_eq!(m.socketpair(AF_UNIX, SOCK_STREAM | SOCK_CLOEXEC, 0), Ok((2, 3)));
    let mut out = [0u8; 1];
    assert_eq!(m.read(0, &mut out), Err(UnsupportedOp::BlockingRead));
}

#[test]
fn pairs_do_not_share_buffers() {
    let mut m = linux();
    let (a, b) = m.socketpair(AF_UNIX, SOCK_STREAM | SOCK_NONBLOCK, 0).unwrap();
    let (c, d) = m.socketpair(AF_UNIX, SOCK_STREAM | SOCK_NONBLOCK, 0).unwrap();
    assert_eq!(m.write(a, &[1]), Ok(Ok(1)));
    let mut out = [0u8; 1];
    assert_eq!(m.read(d, &mut out), Ok(Err(IoError::WouldBlock)));
    assert_eq!(m.read(c, &mut out), Ok(Err(IoError::WouldBlock)));
    assert_eq!(m.read(b, &mut out), Ok(Ok(1)));
    assert_eq!(m.close(c), Ok(Ok(())));
    assert_eq!(m.write(a, &[1]), Ok(Ok(1)));
    assert_eq!(m.write(d, &[1]), Ok(Err(IoError::BrokenPipe)));
}

#[test]
fn nothing_is_reported_at_creation() {
    let mut m = linux();
    let (a, b) = m.socketpair(AF_UNIX, SOCK_STREAM, 0).unwrap();
    let none = EpollReadyEvents { epollin: false, epollout: false, epollrdhup: false };
    assert_eq!(EpollReadyEvents::new(), none);
    assert_eq!(m.ready_events(a), Some(none));
    assert_eq!(m.ready_events(b), Some(none));
    assert_eq!(m.ready_events(2), None);
}

#[test]
fn endpoint_name() {
    let mut m = linux();
    let (a, _b) = m.socketpair(AF_UNIX, SOCK_STREAM, 0).unwrap();
    assert_eq!(m.get_ref(a).unwrap().name(), "socketpair");
}
