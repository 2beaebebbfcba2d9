//! The session state machine: the single source of truth for whether a
//! connection to the device exists. Every operation takes the whole chip
//! (behind one lock, held by the caller), so transitions never interleave.
use vstd::prelude::*;
use crate::error::HalError;

verus! {

/// The version of the Android UCI interface this engine supports.
pub const SUPPORTED_ANDROID_UCI_VERSION: i32 = 1;

/// The connection state. `R` is what an open connection holds: the
/// transport, the reader task, its cancellation token, the client's
/// callbacks and the termination subscription.
#[derive(Debug)]
pub enum SessionState<R> {
    Closed,
    Opened(R),
}

/// The state after an explicit close, and what the close returns: the open
/// connection's resources, for the shutdown handshake, or `IllegalState`.
pub open spec fn close_spec<R>(s: SessionState<R>) -> (SessionState<R>, Result<R, HalError>) {
    match s {
        SessionState::Closed => (SessionState::Closed, Err(HalError::IllegalState)),
        SessionState::Opened(r) => (SessionState::Closed, Ok(r)),
    }
}

/// The state after an external termination trigger, and the resources it
/// takes over for the shutdown handshake (none if already closed).
pub open spec fn terminate_spec<R>(s: SessionState<R>) -> (SessionState<R>, Option<R>) {
    match s {
        SessionState::Closed => (SessionState::Closed, None),
        SessionState::Opened(r) => (SessionState::Closed, Some(r)),
    }
}

/// One UWB chip reached through a serial device.
pub struct UwbChip<R> {
    name: String,
    path: String,
    state: SessionState<R>,
}

impl<R> UwbChip<R> {
    pub closed spec fn name_view(&self) -> Seq<char> {
        self.name@
    }

    pub closed spec fn path_view(&self) -> Seq<char> {
        self.path@
    }

    pub closed spec fn state(&self) -> SessionState<R> {
        self.state
    }

    /// A chip named `name` on the serial device at `path`, closed.
    pub fn new(name: String, path: String) -> (r: Self)
        ensures
            r.name_view() == name@,
            r.path_view() == path@,
            r.state() is Closed,
    {
        UwbChip { name, path, state: SessionState::Closed }
    }

    /// The chip's name.
    pub fn get_name(&self) -> (r: &str)
        ensures
            r@ == self.name_view(),
    {
        self.name.as_str()
    }

    /// The serial device's path.
    pub fn path(&self) -> (r: &str)
        ensures
            r@ == self.path_view(),
    {
        self.path.as_str()
    }

    /// Whether a connection is open.
    pub fn is_open(&self) -> (r: bool)
        ensures
            r == self.state() is Opened,
    {
        match self.state {
            SessionState::Opened(_) => true,
            SessionState::Closed => false,
        }
    }

    /// Whether an open may start acquiring the transport: `IllegalState` if a
    /// connection is already open.
    pub fn begin_open(&self) -> (r: Result<(), HalError>)
        ensures
            r == if self.state() is Opened {
                Err::<(), HalError>(HalError::IllegalState)
            } else {
                Ok(())
            },
    {
        if self.is_open() {
            Err(HalError::IllegalState)
        } else {
            Ok(())
        }
    }

    /// Completes an open with what acquiring the connection gave. On an
    /// already open chip this fails with `IllegalState` and leaves the open
    /// connection untouched; otherwise a failed acquisition leaves the chip
    /// closed and is reported, and a successful one opens it.
    pub fn open(&mut self, acquired: Result<R, HalError>) -> (r: Result<(), HalError>)
        ensures
            old(self).state() is Opened ==> {
                &&& r == Err::<(), HalError>(HalError::IllegalState)
                &&& final(self).state() == old(self).state()
            },
            old(self).state() is Closed ==> match acquired {
                Ok(res) => {
                    &&& r == Ok::<(), HalError>(())
                    &&& final(self).state() == SessionState::Opened(res)
                },
                Err(e) => {
                    &&& r == Err::<(), HalError>(e)
                    &&& final(self).state() is Closed
                },
            },
            final(self).name_view() == old(self).name_view(),
            final(self).path_view() == old(self).path_view(),
    {
        if self.is_open() {
            return Err(HalError::IllegalState);
        }
        match acquired {
            Ok(res) => {
                self.state = SessionState::Opened(res);
                Ok(())
            },
            Err(e) => Err(e),
        }
    }

    /// Settles an open once the client has been told of it: if telling it
    /// failed, the chip is closed again and the connection's resources are
    /// handed back, with the error, to be torn down.
    pub fn settle_open(&mut self, signalled: Result<(), HalError>) -> (r: Result<(), (HalError, R)>)
        requires
            old(self).state() is Opened,
        ensures
            match signalled {
                Ok(()) => {
                    &&& r is Ok
                    &&& final(self).state() == old(self).state()
                },
                Err(e) => {
                    &&& final(self).state() is Closed
                    &&& r == Err::<(), (HalError, R)>((e, old(self).state()->Opened_0))
                },
            },
            final(self).name_view() == old(self).name_view(),
            final(self).path_view() == old(self).path_view(),
    {
        match signalled {
            Ok(()) => Ok(()),
            Err(e) => {
                let mut state = SessionState::Closed;
                std::mem::swap(&mut self.state, &mut state);
                match state {
                    SessionState::Opened(res) => Err((e, res)),
                    SessionState::Closed => {
                        proof {
                            assert(false);
                        }
                        Ok(())
                    },
                }
            },
        }
    }

    /// Gives back a connection whose shutdown handshake did not run (its
    /// unsubscribe failed): a closed chip is open again with the very same
    /// resources. A chip that is open meanwhile is left as it is, and the
    /// resources are handed back.
    pub fn reinstate(&mut self, res: R) -> (r: Option<R>)
        ensures
            old(self).state() is Closed ==> {
                &&& final(self).state() == SessionState::Opened(res)
                &&& r is None
            },
            old(self).state() is Opened ==> {
                &&& final(self).state() == old(self).state()
                &&& r == Some(res)
            },
            final(self).name_view() == old(self).name_view(),
            final(self).path_view() == old(self).path_view(),
    {
        if self.is_open() {
            Some(res)
        } else {
            self.state = SessionState::Opened(res);
            None
        }
    }

    /// Closes the connection and hands its resources to the shutdown
    /// handshake; `IllegalState` if already closed.
    pub fn close(&mut self) -> (r: Result<R, HalError>)
        ensures
            (final(self).state(), r) == close_spec(old(self).state()),
            final(self).name_view() == old(self).name_view(),
            final(self).path_view() == old(self).path_view(),
    {
        let mut state = SessionState::Closed;
        std::mem::swap(&mut self.state, &mut state);
        match state {
            SessionState::Opened(res) => Ok(res),
            SessionState::Closed => Err(HalError::IllegalState),
        }
    }

    /// The external termination trigger: closes the connection, if one is
    /// open, and hands its resources to the shutdown handshake.
    pub fn terminate(&mut self) -> (r: Option<R>)
        ensures
            (final(self).state(), r) == terminate_spec(old(self).state()),
            final(self).name_view() == old(self).name_view(),
            final(self).path_view() == old(self).path_view(),
    {
        let mut state = SessionState::Closed;
        std::mem::swap(&mut self.state, &mut state);
        match state {
            SessionState::Opened(res) => Some(res),
            SessionState::Closed => None,
        }
    }

    /// The open connection's resources, for an operation that needs one
    /// (sending a frame, completing core initialisation); `IllegalState` if
    /// closed.
    pub fn opened(&self) -> (r: Result<&R, HalError>)
        ensures
            match self.state() {
                SessionState::Opened(res) => r == Ok::<&R, HalError>(&res),
                SessionState::Closed => r == Err::<&R, HalError>(HalError::IllegalState),
            },
    {
        match &self.state {
            SessionState::Opened(res) => Ok(res),
            SessionState::Closed => Err(HalError::IllegalState),
        }
    }

    /// Session initialisation needs nothing of this engine: it succeeds in any state.
    pub fn session_init(&self, _id: i32) -> (r: Result<(), HalError>)
        ensures
            r == Ok::<(), HalError>(()),
    {
        Ok(())
    }

    /// The supported Android UCI interface version, a fixed constant.
    pub fn get_supported_android_uci_version(&self) -> (r: i32)
        ensures
            r == SUPPORTED_ANDROID_UCI_VERSION,
    {
        SUPPORTED_ANDROID_UCI_VERSION
    }
}

/// The outcome of sending `data_len` bytes on an open connection: the byte
/// count if the whole buffer was written, else a transport error.
pub fn send_result(data_len: usize, written_whole: bool) -> (r: Result<i32, HalError>)
    requires
        data_len <= i32::MAX,
    ensures
        r == if written_whole {
            Ok::<i32, HalError>(data_len as i32)
        } else {
            Err(HalError::Transport)
        },
{
    if written_whole {
        Ok(data_len as i32)
    } else {
        Err(HalError::Transport)
    }
}

/// However an explicit close and an external termination trigger race for
/// the lock, exactly one of them takes over an open connection (and so runs
/// the shutdown handshake), none does on a closed one, and the chip ends
/// closed either way.
pub proof fn lemma_close_and_terminate_race<R>(s: SessionState<R>)
    ensures
        ({
            let (s1, closed) = close_spec(s);
            let (s2, terminated) = terminate_spec(s1);
            &&& s2 is Closed
            &&& !(terminated is Some)
            &&& closed is Ok <==> s is Opened
        }),
        ({
            let (s1, terminated) = terminate_spec(s);
            let (s2, closed) = close_spec(s1);
            &&& s2 is Closed
            &&& closed == Err::<R, HalError>(HalError::IllegalState)
            &&& terminated is Some <==> s is Opened
        }),
{
}

} // verus!
