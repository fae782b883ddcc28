//! Unix-domain stream sockets over a raw socket handle. The system calls are made
//! by the caller; these types decide what is asked of the system and what its
//! answers mean.
use vstd::prelude::*;

verus! {

/// A raw socket handle.
pub type RawSocket = u64;

/// The ioctl command that switches a socket's blocking mode.
pub const FIONBIO: u32 = 0x8004667e;

/// The status a socket call returns on failure.
pub const SOCKET_ERROR: i32 = -1;

/// An ioctl to perform on a socket.
#[derive(Clone, Copy, PartialEq, Eq, Structural, Debug)]
pub struct IoctlRequest {
    pub socket: RawSocket,
    pub command: u32,
    pub argument: u32,
}

/// The result of a socket call that returned `status`, where `last_error` is the
/// system's last error code: the call failed exactly when it returned `SOCKET_ERROR`.
pub fn check_status(status: i32, last_error: i32) -> (r: Result<(), i32>)
    ensures
        r == if status == SOCKET_ERROR {
            Err::<(), i32>(last_error)
        } else {
            Ok(())
        },
{
    if status == SOCKET_ERROR {
        Err(last_error)
    } else {
        Ok(())
    }
}

/// The pending error of a socket, from the value its error option read as
/// (`Err` where reading it failed): zero means no error.
pub open spec fn pending_error(read: Result<i32, i32>) -> Result<Option<i32>, i32> {
    match read {
        Ok(0) => Ok(None),
        Ok(code) => Ok(Some(code)),
        Err(e) => Err(e),
    }
}

fn pending_error_exec(read: Result<i32, i32>) -> (r: Result<Option<i32>, i32>)
    ensures
        r == pending_error(read),
{
    match read {
        Ok(code) => if code == 0 {
            Ok(None)
        } else {
            Ok(Some(code))
        },
        Err(e) => Err(e),
    }
}

/// The request that moves `socket` into or out of nonblocking mode.
pub open spec fn nonblocking_request(socket: RawSocket, nonblocking: bool) -> IoctlRequest {
    IoctlRequest { socket, command: FIONBIO, argument: if nonblocking { 1 } else { 0 } }
}

fn nonblocking_request_exec(socket: RawSocket, nonblocking: bool) -> (r: IoctlRequest)
    ensures
        r == nonblocking_request(socket, nonblocking),
{
    IoctlRequest { socket, command: FIONBIO, argument: if nonblocking { 1 } else { 0 } }
}

/// A Unix stream socket.
#[derive(Debug)]
pub struct UnixStream {
    socket: RawSocket,
}

impl UnixStream {
    pub closed spec fn handle(&self) -> RawSocket {
        self.socket
    }

    /// Takes ownership of a raw socket handle.
    pub fn from_raw_socket(socket: RawSocket) -> (r: UnixStream)
        ensures
            r.handle() == socket,
    {
        UnixStream { socket }
    }

    pub fn as_raw_socket(&self) -> (r: RawSocket)
        ensures
            r == self.handle(),
    {
        self.socket
    }

    /// Gives up ownership of the handle.
    pub fn into_raw_socket(self) -> (r: RawSocket)
        ensures
            r == self.handle(),
    {
        self.socket
    }

    /// A second owner of the same stream, from the result of duplicating the handle.
    pub fn try_clone(&self, duplicated: Result<RawSocket, i32>) -> (r: Result<UnixStream, i32>)
        ensures
            match duplicated {
                Ok(s) => r matches Ok(c) && c.handle() == s,
                Err(e) => r matches Err(f) && f == e,
            },
    {
        match duplicated {
            Ok(s) => Ok(UnixStream { socket: s }),
            Err(e) => Err(e),
        }
    }

    /// The request that moves the socket into or out of nonblocking mode.
    pub fn set_nonblocking(&self, nonblocking: bool) -> (r: IoctlRequest)
        ensures
            r == nonblocking_request(self.handle(), nonblocking),
    {
        nonblocking_request_exec(self.socket, nonblocking)
    }

    /// The socket's pending error, from the value its error option read as.
    pub fn take_error(&self, read: Result<i32, i32>) -> (r: Result<Option<i32>, i32>)
        ensures
            r == pending_error(read),
    {
        pending_error_exec(read)
    }
}

/// A Unix domain socket server.
#[derive(Debug)]
pub struct UnixListener {
    socket: RawSocket,
}

impl UnixListener {
    pub closed spec fn handle(&self) -> RawSocket {
        self.socket
    }

    /// Takes ownership of a raw socket handle.
    pub fn from_raw_socket(socket: RawSocket) -> (r: UnixListener)
        ensures
            r.handle() == socket,
    {
        UnixListener { socket }
    }

    pub fn as_raw_socket(&self) -> (r: RawSocket)
        ensures
            r == self.handle(),
    {
        self.socket
    }

    /// Gives up ownership of the handle.
    pub fn into_raw_socket(self) -> (r: RawSocket)
        ensures
            r == self.handle(),
    {
        self.socket
    }

    /// A second owner of the same listener, from the result of duplicating the handle.
    pub fn try_clone(&self, duplicated: Result<RawSocket, i32>) -> (r: Result<UnixListener, i32>)
        ensures
            match duplicated {
                Ok(s) => r matches Ok(c) && c.handle() == s,
                Err(e) => r matches Err(f) && f == e,
            },
    {
        match duplicated {
            Ok(s) => Ok(UnixListener { socket: s }),
            Err(e) => Err(e),
        }
    }

    /// The request that moves the socket into or out of nonblocking mode.
    pub fn set_nonblocking(&self, nonblocking: bool) -> (r: IoctlRequest)
        ensures
            r == nonblocking_request(self.handle(), nonblocking),
    {
        nonblocking_request_exec(self.socket, nonblocking)
    }

    /// The socket's pending error, from the value its error option read as.
    pub fn take_error(&self, read: Result<i32, i32>) -> (r: Result<Option<i32>, i32>)
        ensures
            r == pending_error(read),
    {
        pending_error_exec(read)
    }

    /// The endless sequence of connections accepted on this listener.
    pub fn incoming<'a>(&'a self) -> (r: Incoming<'a>)
        ensures
            r.listener() == self,
    {
        Incoming { listener: self }
    }
}

/// The connections accepted on a listener, one per accept; it never ends.
#[derive(Debug)]
pub struct Incoming<'a> {
    listener: &'a UnixListener,
}

impl<'a> Incoming<'a> {
    pub closed spec fn listener(&self) -> &'a UnixListener {
        self.listener
    }

    /// The listener to accept on.
    pub fn listener_ref(&self) -> (r: &'a UnixListener)
        ensures
            r == self.listener(),
    {
        self.listener
    }

    /// Bounds on the number of connections still to come: as many as can be
    /// counted, with no upper bound.
    pub fn size_hint(&self) -> (r: (usize, Option<usize>))
        ensures
            r == (usize::MAX, Option::<usize>::None),
    {
        (usize::MAX, None)
    }
}

} // verus!
