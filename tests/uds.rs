use kubelet::uds::{check_status, IoctlRequest, UnixListener, UnixStream, FIONBIO};

#[test]
fn stream_try_clone_takes_duplicate() {
    let s = UnixStream::from_raw_socket(40);
    let c = s.try_clone(Ok(41)).expect("duplicated");
    assert_eq!(c.as_raw_socket(), 41);
    assert_eq!(s.as_raw_socket(), 40);
    assert_eq!(s.try_clone(Err(10024)).err(), Some(10024));
}

#[test]
fn listener_try_clone_takes_duplicate() {
    let l = UnixListener::from_raw_socket(50);
    assert_eq!(l.try_clone(Ok(51)).expect("duplicated").into_raw_socket(), 51);
    assert_eq!(l.try_clone(Err(3)).err(), Some(3));
}

#[test]
fn nonblocking_requests() {
    let s = UnixStream::from_raw_socket(7);
    assert_eq!(s.set_nonblocking(true), IoctlRequest { socket: 7, command: FIONBIO, argument: 1 });
    assert_eq!(s.set_nonblocking(false), IoctlRequest { socket: 7, command: FIONBIO, argument: 0 });
    let l = UnixListener::from_raw_socket(8);
    assert_eq!(l.set_nonblocking(true).argument, 1);
    assert_eq!(l.set_nonblocking(true).socket, 8);
}

#[test]
fn pending_errors() {
    let s = UnixStream::from_raw_socket(7);
    assert_eq!(s.take_error(Ok(0)), Ok(None));
    assert_eq!(s.take_error(Ok(10054)), Ok(Some(10054)));
    assert_eq!(s.take_error(Err(10038)), Err(10038));
    let l = UnixListener::from_raw_socket(8);
    assert_eq!(l.take_error(Ok(0)), Ok(None));
    assert_eq!(l.take_error(Ok(5)), Ok(Some(5)));
}

#[test]
fn incoming_never_ends() {
    let l = UnixListener::from_raw_socket(9);
    let inc = l.incoming();
    assert_eq!(inc.listener_ref().as_raw_socket(), 9);
    assert_eq!(inc.size_hint(), (usize::MAX, None));
}

#[test]
fn socket_status_codes() {
    assert_eq!(check_status(0, 5), Ok(()));
    assert_eq!(check_status(-1, 5), Err(5));
}
