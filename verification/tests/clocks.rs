use socketpair::clock::{ThreadClock, VClock};
use socketpair::machine::{Machine, TargetOs};
use socketpair::socket::{EvalContextExt, AF_UNIX, SOCK_NONBLOCK, SOCK_STREAM};

fn clock(ticks: &[u64]) -> VClock {
    VClock::from_ticks(ticks.to_vec())
}

fn buffer_clock(m: &Machine, fd: usize) -> Vec<u64> {
    let readbuf = m.get_ref(fd).unwrap().readbuf;
    m.buffers.get(readbuf).unwrap().clock.ticks.clone()
}

#[test]
fn join_is_the_pointwise_maximum() {
    let mut c = clock(&[1, 5, 0]);
    c.join(&clock(&[3, 2]));
    assert_eq!(c.ticks, vec![3, 5, 0]);
    let mut c = clock(&[1]);
    c.join(&clock(&[0, 0, 7]));
    assert_eq!(c.ticks, vec![1, 0, 7]);
    let mut c = VClock::default();
    c.join(&clock(&[4, 4]));
    assert_eq!(c.ticks, vec![4, 4]);
    c.join(&VClock::default());
    assert_eq!(c.ticks, vec![4, 4]);
}

#[test]
fn get_is_zero_beyond_the_stored_threads() {
    let c = clock(&[9, 8]);
    assert_eq!(c.get(0), 9);
    assert_eq!(c.get(1), 8);
    assert_eq!(c.get(2), 0);
    assert_eq!(VClock::default().get(0), 0);
    assert_eq!(c.clone().ticks, vec![9, 8]);
}

#[test]
fn thread_clock_acquire_and_release() {
    let mut t = ThreadClock::tracking(clock(&[2, 0]));
    assert_eq!(t.release().unwrap().ticks, vec![2, 0]);
    t.acquire(&clock(&[1, 3]));
    assert_eq!(t.release().unwrap().ticks, vec![2, 3]);
    let mut off = ThreadClock::disabled();
    off.acquire(&clock(&[1, 3]));
    assert!(off.release().is_none());
    assert!(off.current.is_none());
}

#[test]
fn reader_happens_after_the_writer() {
    let mut m = Machine::new(TargetOs::Linux, ThreadClock::tracking(clock(&[3, 0])));
    let (a, b) = m.socketpair(AF_UNIX, SOCK_STREAM | SOCK_NONBLOCK, 0).unwrap();
    assert_eq!(buffer_clock(&m, b), Vec::<u64>::new());
    assert_eq!(m.write(a, &[1, 2]), Ok(Ok(2)));
    assert_eq!(buffer_clock(&m, b), vec![3, 0]);

    // Another thread reads.
    m.data_race = ThreadClock::tracking(clock(&[0, 5]));
    let mut out = [0u8; 1];
    assert_eq!(m.read(b, &mut out), Ok(Ok(1)));
    assert_eq!(m.data_race.current.as_ref().unwrap().ticks, vec![3, 5]);
    assert_eq!(buffer_clock(&m, b), vec![3, 0]);
}

#[test]
fn writes_accumulate_in_the_buffer_clock() {
    let mut m = Machine::new(TargetOs::Linux, ThreadClock::tracking(clock(&[3, 0, 0])));
    let (a, b) = m.socketpair(AF_UNIX, SOCK_STREAM | SOCK_NONBLOCK, 0).unwrap();
    assert_eq!(m.write(a, &[1]), Ok(Ok(1)));
    m.data_race = ThreadClock::tracking(clock(&[1, 4]));
    assert_eq!(m.write(a, &[2]), Ok(Ok(1)));
    assert_eq!(buffer_clock(&m, b), vec![3, 4, 0]);

    m.data_race = ThreadClock::tracking(clock(&[0, 0, 9]));
    let mut out = [0u8; 8];
    assert_eq!(m.read(b, &mut out), Ok(Ok(2)));
    assert_eq!(m.data_race.current.as_ref().unwrap().ticks, vec![3, 4, 9]);
}

#[test]
fn reads_that_take_nothing_do_not_synchronise() {
    let mut m = Machine::new(TargetOs::Linux, ThreadClock::tracking(clock(&[3])));
    let (a, b) = m.socketpair(AF_UNIX, SOCK_STREAM | SOCK_NONBLOCK, 0).unwrap();
    assert_eq!(m.write(a, &[1]), Ok(Ok(1)));
    m.data_race = ThreadClock::tracking(clock(&[0, 1]));
    let mut nothing: [u8; 0] = [];
    assert_eq!(m.read(b, &mut nothing), Ok(Ok(0)));
    assert_eq!(m.data_race.current.as_ref().unwrap().ticks, vec![0, 1]);
    // A write of nothing leaves no trace in the buffer's clock either.
    assert_eq!(m.write(a, &[]), Ok(Ok(0)));
    assert_eq!(buffer_clock(&m, b), vec![3]);
}

#[test]
fn without_tracking_the_buffer_clock_stays_empty() {
    let mut m = Machine::new(TargetOs::Linux, ThreadClock::disabled());
    let (a, b) = m.socketpair(AF_UNIX, SOCK_STREAM | SOCK_NONBLOCK, 0).unwrap();
    assert_eq!(m.write(a, &[1]), Ok(Ok(1)));
    assert_eq!(buffer_clock(&m, b), Vec::<u64>::new());
    let mut out = [0u8; 1];
    assert_eq!(m.read(b, &mut out), Ok(Ok(1)));
    assert!(m.data_race.current.is_none());
}
