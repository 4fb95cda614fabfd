use socketpair::arena::Arena;
use socketpair::buffer::{Buffer, MAX_SOCKETPAIR_BUFFER_CAPACITY};
use socketpair::clock::ThreadClock;
use socketpair::error::IoError;
use socketpair::machine::{Machine, TargetOs};
use socketpair::socket::{EvalContextExt, AF_UNIX, SOCK_NONBLOCK, SOCK_STREAM};

#[test]
fn arena_hands_out_identifiers_in_order() {
    let mut arena: Arena<u8> = Arena::new();
    assert!(!arena.contains(0));
    assert_eq!(arena.insert_new(10), 0);
    assert_eq!(arena.insert_new(20), 1);
    assert_eq!(arena.get(0), Some(&10));
    assert_eq!(arena.get(1), Some(&20));
    assert_eq!(arena.get(2), None);
    assert!(arena.contains(1));
}

#[test]
fn arena_entry_that_was_removed_stays_gone() {
    let mut arena: Arena<u8> = Arena::new();
    arena.insert_new(10);
    arena.insert_new(20);
    assert_eq!(arena.remove(0), Some(10));
    assert_eq!(arena.remove(0), None);
    assert_eq!(arena.remove(7), None);
    assert!(!arena.contains(0));
    assert_eq!(arena.get(0), None);
    assert!(arena.get_mut(0).is_none());
    assert!(arena.get_mut(7).is_none());
    assert_eq!(arena.insert_new(30), 2);
    assert!(!arena.contains(0));
    assert_eq!(arena.get(1), Some(&20));
}

#[test]
fn arena_entry_changes_in_place() {
    let mut arena: Arena<u8> = Arena::new();
    arena.insert_new(10);
    arena.insert_new(20);
    *arena.get_mut(1).unwrap() = 21;
    assert_eq!(arena.get(0), Some(&10));
    assert_eq!(arena.get(1), Some(&21));
}

#[test]
fn buffer_starts_empty_with_a_writer() {
    let b = Buffer::new();
    assert!(b.is_empty());
    assert_eq!(b.len(), 0);
    assert!(b.buf_has_writer);
    assert_eq!(b.available_space(), MAX_SOCKETPAIR_BUFFER_CAPACITY);
    assert_eq!(b.available_space(), 212992);
    assert!(b.clock.ticks.is_empty());
}

#[test]
fn buffer_read_takes_the_oldest_bytes() {
    let mut b = Buffer::new();
    b.extend(&[1, 2, 3]);
    b.extend(&[4]);
    assert_eq!(b.len(), 4);
    assert!(!b.is_empty());
    assert_eq!(b.available_space(), MAX_SOCKETPAIR_BUFFER_CAPACITY - 4);
    let mut out = [9u8; 3];
    assert_eq!(b.read(&mut out), 3);
    assert_eq!(out, [1, 2, 3]);
    let mut out = [9u8; 3];
    assert_eq!(b.read(&mut out), 1);
    assert_eq!(out, [4, 9, 9]);
    assert_eq!(b.read(&mut out), 0);
    assert_eq!(out, [4, 9, 9]);
    let mut nothing: [u8; 0] = [];
    assert_eq!(b.read(&mut nothing), 0);
}

#[test]
fn endpoint_methods_do_what_the_descriptor_operations_do() {
    let mut m = Machine::new(TargetOs::Linux, ThreadClock::disabled());
    let (a, b) = m.socketpair(AF_UNIX, SOCK_STREAM | SOCK_NONBLOCK, 0).unwrap();
    let sa = m.get_ref(a).unwrap();
    let sb = m.get_ref(b).unwrap();
    assert_eq!(sa.write(&[1, 2, 3], &mut m), Ok(Ok(3)));
    let mut out = [0u8; 2];
    assert_eq!(sb.read(&mut out, &mut m), Ok(Ok(2)));
    assert_eq!(out, [1, 2]);
    assert_eq!(sb.read(&mut out, &mut m), Ok(Ok(1)));
    assert_eq!(out, [3, 2]);
    assert_eq!(sb.read(&mut out, &mut m), Ok(Err(IoError::WouldBlock)));
}

#[test]
fn endpoint_close_marks_the_peer_buffer_and_notifies() {
    let mut m = Machine::new(TargetOs::Linux, ThreadClock::disabled());
    let (a, b) = m.socketpair(AF_UNIX, SOCK_STREAM | SOCK_NONBLOCK, 0).unwrap();
    let sa = m.get_ref(a).unwrap();
    let sb = m.get_ref(b).unwrap();
    // The descriptor table drops the descriptor, lets the endpoint take its
    // leave, and drops the endpoint's buffer.
    assert!(m.fds.remove(a).is_some());
    assert_eq!(sa.close(&mut m), Ok(Ok(())));
    assert!(!m.buffers.get(sb.readbuf).unwrap().buf_has_writer);
    assert!(m.buffers.get(sa.readbuf).unwrap().buf_has_writer);
    assert!(m.ready_events(b).unwrap().epollrdhup);
    assert!(m.buffers.remove(sa.readbuf).is_some());
    let mut out = [0u8; 1];
    assert_eq!(m.read(b, &mut out), Ok(Ok(0)));
}
