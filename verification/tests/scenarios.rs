use socketpair::clock::ThreadClock;
use socketpair::error::IoError;
use socketpair::machine::{Machine, TargetOs};
use socketpair::socket::{EvalContextExt, AF_UNIX, SOCK_NONBLOCK, SOCK_STREAM};

fn nonblocking_pair(m: &mut Machine) -> (usize, usize) {
    m.socketpair(AF_UNIX, SOCK_STREAM | SOCK_NONBLOCK, 0).unwrap()
}

#[test]
fn write_ten_read_five_then_rest_then_would_block() {
    let mut m = Machine::new(TargetOs::Linux, ThreadClock::disabled());
    let (a, b) = nonblocking_pair(&mut m);
    let data: Vec<u8> = (1..=10).collect();
    assert_eq!(m.write(a, &data), Ok(Ok(10)));

    let mut out = [0u8; 5];
    assert_eq!(m.read(b, &mut out), Ok(Ok(5)));
    assert_eq!(out, [1, 2, 3, 4, 5]);
    let readbuf = m.get_ref(b).unwrap().readbuf;
    assert_eq!(m.buffers.get(readbuf).unwrap().len(), 5);

    let mut out = [0u8; 10];
    assert_eq!(m.read(b, &mut out), Ok(Ok(5)));
    assert_eq!(out, [6, 7, 8, 9, 10, 0, 0, 0, 0, 0]);

    assert_eq!(m.read(b, &mut out), Ok(Err(IoError::WouldBlock)));
}

#[test]
fn read_after_writer_closed_is_eof() {
    let mut m = Machine::new(TargetOs::Linux, ThreadClock::disabled());
    let (a, b) = nonblocking_pair(&mut m);
    assert_eq!(m.close(a), Ok(Ok(())));
    let mut out = [0u8; 4];
    assert_eq!(m.read(b, &mut out), Ok(Ok(0)));
    assert_eq!(out, [0, 0, 0, 0]);
}

#[test]
fn write_after_reader_closed_is_broken_pipe() {
    let mut m = Machine::new(TargetOs::Linux, ThreadClock::disabled());
    let (a, b) = nonblocking_pair(&mut m);
    assert_eq!(m.close(b), Ok(Ok(())));
    assert_eq!(m.write(a, &[7]), Ok(Err(IoError::BrokenPipe)));
    let readbuf = m.get_ref(a).unwrap().readbuf;
    assert_eq!(m.buffers.get(readbuf).unwrap().len(), 0);
}
