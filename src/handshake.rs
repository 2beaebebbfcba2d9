//! The shutdown handshake: unsubscribe from termination, stop the reader,
//! write the device-reset command, drain the two fixed confirmation frames,
//! then report the session closed.
use vstd::prelude::*;
use crate::error::HalError;

verus! {

/// Length of each confirmation frame.
pub const CONFIRMATION_FRAME_LEN: usize = 5;

/// Length of the whole confirmation: the reset response, then the status notification.
pub const CONFIRMATION_LEN: usize = 10;

/// The device-reset response the device sends first.
pub open spec fn device_reset_rsp() -> Seq<u8> {
    seq![64u8, 0u8, 0u8, 1u8, 0u8]
}

/// The device-status notification that follows it.
pub open spec fn device_status_ntf() -> Seq<u8> {
    seq![96u8, 1u8, 0u8, 1u8, 1u8]
}

/// The exact bytes that confirm a reset.
pub open spec fn reset_confirmation() -> Seq<u8> {
    device_reset_rsp() + device_status_ntf()
}

/// Whether `received` is exactly the reset response followed by the status notification.
pub fn is_reset_confirmation(received: &[u8]) -> (r: bool)
    ensures
        r == (received@ == reset_confirmation()),
{
    let ok = received.len() == CONFIRMATION_LEN
        && received[0] == 64 && received[1] == 0 && received[2] == 0 && received[3] == 1
        && received[4] == 0 && received[5] == 96 && received[6] == 1 && received[7] == 0
        && received[8] == 1 && received[9] == 1;
    proof {
        let c = reset_confirmation();
        assert(c.len() == 10);
        assert(c[0] == 64 && c[1] == 0 && c[2] == 0 && c[3] == 1 && c[4] == 0);
        assert(c[5] == 96 && c[6] == 1 && c[7] == 0 && c[8] == 1 && c[9] == 1);
        if ok {
            assert(received@ =~= c);
        }
    }
    ok
}

/// Where the handshake stands.
#[derive(PartialEq, Eq, Structural, Clone, Copy, Debug)]
pub enum HandshakeStep {
    /// Cancel the termination-trigger subscription.
    Unsubscribe,
    /// Cancel the reader and wait for it to end.
    StopReader,
    /// Write the reset command, one transport chunk at a time.
    WriteReset,
    /// Read the ten confirmation bytes.
    ReadConfirmation,
    /// Tell the client that the session is closed.
    SignalClosed,
    /// The handshake completed.
    Done,
    /// The handshake ended on an error.
    Aborted,
    /// Unsubscribing failed: the handshake did not run, and the connection,
    /// its reader and its subscription stay as they were.
    Declined,
}

/// What the outside world reports back to the handshake.
#[derive(PartialEq, Eq, Debug)]
pub enum HandshakeEvent {
    Unsubscribed,
    UnsubscribeFailed,
    ReaderStopped,
    /// The chunk handed out was written whole.
    Written,
    WriteFailed,
    /// A non-blocking read returned these bytes (empty: end of stream).
    Received(Vec<u8>),
    /// A non-blocking read found no data.
    WouldBlock,
    ReadFailed,
    Signalled,
    SignalFailed,
}

/// What the handshake asks to be done next.
#[derive(PartialEq, Eq, Debug)]
pub enum HandshakeAction {
    Unsubscribe,
    StopReader,
    /// Write this chunk whole.
    Write(Vec<u8>),
    /// Read, without blocking, at most this many bytes.
    Read(usize),
    SignalClosed,
    /// The handshake is over, with this outcome.
    Finish(Result<(), HalError>),
    /// The handshake did not run: give the connection back to the chip, still
    /// open, and fail with this error.
    KeepOpen(HalError),
}

/// The shutdown handshake's state: the reset command's chunks, how many were
/// written, the confirmation bytes received, the error it ended on, and (as
/// ghost history) the chunks written so far.
pub struct ShutdownHandshake {
    step: HandshakeStep,
    chunks: Vec<Vec<u8>>,
    next_chunk: usize,
    received: Vec<u8>,
    error: HalError,
    written: Ghost<Seq<Seq<u8>>>,
}

impl ShutdownHandshake {
    pub closed spec fn step(&self) -> HandshakeStep {
        self.step
    }

    /// The reset command, as the transport chunks to be written in order.
    pub closed spec fn chunks(&self) -> Seq<Seq<u8>> {
        self.chunks@.map_values(|c: Vec<u8>| c@)
    }

    /// The chunks written so far, in order.
    pub closed spec fn written(&self) -> Seq<Seq<u8>> {
        self.written@
    }

    /// The confirmation bytes read so far.
    pub closed spec fn received(&self) -> Seq<u8> {
        self.received@
    }

    /// The reader task has been cancelled and joined.
    pub open spec fn reader_stopped(&self) -> bool {
        &&& self.step() != HandshakeStep::Unsubscribe
        &&& self.step() != HandshakeStep::StopReader
        &&& self.step() != HandshakeStep::Declined
    }

    /// The error the handshake ended on, in steps `Aborted` and `Declined`.
    pub closed spec fn error(&self) -> HalError {
        self.error
    }

    pub closed spec fn wf(&self) -> bool {
        &&& self.written@.len() <= self.chunks@.len()
        &&& self.written@ == self.chunks().take(self.written@.len() as int)
        &&& self.received@.len() <= CONFIRMATION_LEN
        &&& (self.step == HandshakeStep::Unsubscribe || self.step == HandshakeStep::StopReader
            || self.step == HandshakeStep::Declined) ==> {
            &&& self.written@.len() == 0
            &&& self.received@.len() == 0
        }
        &&& self.step == HandshakeStep::WriteReset ==> {
            &&& self.next_chunk < self.chunks@.len()
            &&& self.written@.len() == self.next_chunk
            &&& self.received@.len() == 0
        }
        &&& self.step == HandshakeStep::ReadConfirmation ==> {
            &&& self.written@ == self.chunks()
            &&& self.received@.len() < CONFIRMATION_LEN
        }
        &&& (self.step == HandshakeStep::SignalClosed || self.step == HandshakeStep::Done) ==> {
            &&& self.written@ == self.chunks()
            &&& self.received@ == reset_confirmation()
        }
    }

    /// A handshake about to run for a reset command split into `chunks`; its
    /// first action is to unsubscribe from the termination trigger.
    pub fn new(chunks: Vec<Vec<u8>>) -> (r: (Self, HandshakeAction))
        ensures
            r.0.wf(),
            r.0.step() == HandshakeStep::Unsubscribe,
            r.0.chunks() == chunks@.map_values(|c: Vec<u8>| c@),
            r.0.written() == Seq::<Seq<u8>>::empty(),
            r.0.received() == Seq::<u8>::empty(),
            r.1 == HandshakeAction::Unsubscribe,
    {
        let h = ShutdownHandshake {
            step: HandshakeStep::Unsubscribe,
            chunks,
            next_chunk: 0,
            received: Vec::new(),
            error: HalError::IllegalState,
            written: Ghost(Seq::empty()),
        };
        proof {
            assert(h.chunks().take(0) =~= Seq::<Seq<u8>>::empty());
        }
        (h, HandshakeAction::Unsubscribe)
    }

    /// The handshake ends on `e`, having written and received what it had.
    pub open spec fn aborts(&self, next: &Self, action: HandshakeAction, e: HalError) -> bool {
        &&& next.step() == HandshakeStep::Aborted
        &&& next.error() == e
        &&& action == HandshakeAction::Finish(Err(e))
        &&& next.chunks() == self.chunks()
        &&& next.written() == self.written()
        &&& next.received() == self.received()
    }

    fn abort(&mut self, e: HalError) -> (action: HandshakeAction)
        requires
            old(self).wf(),
        ensures
            final(self).wf(),
            old(self).aborts(&*final(self), action, e),
    {
        self.step = HandshakeStep::Aborted;
        self.error = e;
        HandshakeAction::Finish(Err(e))
    }

    fn decline(&mut self, e: HalError) -> (action: HandshakeAction)
        requires
            old(self).wf(),
            old(self).step() == HandshakeStep::Unsubscribe,
        ensures
            final(self).wf(),
            final(self).step() == HandshakeStep::Declined,
            final(self).error() == e,
            final(self).chunks() == old(self).chunks(),
            final(self).written() == Seq::<Seq<u8>>::empty(),
            final(self).received() == Seq::<u8>::empty(),
            action == HandshakeAction::KeepOpen(e),
    {
        self.step = HandshakeStep::Declined;
        self.error = e;
        proof {
            assert(self.written@ =~= Seq::<Seq<u8>>::empty());
            assert(self.received@ =~= Seq::<u8>::empty());
        }
        HandshakeAction::KeepOpen(e)
    }

    /// Takes one outside event and says what to do next. The steps run in a
    /// fixed order: unsubscribe, stop the reader, write every chunk whole,
    /// read exactly the ten confirmation bytes, report the close. If
    /// unsubscribing fails, nothing else is done: the connection is to stay
    /// open, its reader running. Once unsubscribed, the handshake ends only
    /// after the reader has been stopped; an event that does not belong to
    /// the current step then ends it with `IllegalState`.
    pub fn on_event(&mut self, event: HandshakeEvent) -> (action: HandshakeAction)
        requires
            old(self).wf(),
        ensures
            final(self).wf(),
            final(self).chunks() == old(self).chunks(),
            action is Write ==> action->Write_0@ == final(self).chunks()[
                final(self).written().len() as int],
            action is Read ==> final(self).written() == final(self).chunks(),
            action == HandshakeAction::SignalClosed ==> {
                &&& final(self).written() == final(self).chunks()
                &&& final(self).received() == reset_confirmation()
            },
            action == HandshakeAction::Finish(Ok(())) ==> {
                &&& final(self).written() == final(self).chunks()
                &&& final(self).received() == reset_confirmation()
            },
            action is Finish ==> final(self).reader_stopped(),
            action is KeepOpen ==> {
                &&& final(self).step() == HandshakeStep::Declined
                &&& !final(self).reader_stopped()
                &&& final(self).written() == Seq::<Seq<u8>>::empty()
                &&& final(self).received() == Seq::<u8>::empty()
            },
            old(self).reader_stopped() ==> final(self).reader_stopped(),
            old(self).step() == HandshakeStep::Unsubscribe ==> {
                &&& final(self).written() == Seq::<Seq<u8>>::empty()
                &&& final(self).received() == Seq::<u8>::empty()
                &&& match event {
                    HandshakeEvent::Unsubscribed => {
                        &&& final(self).step() == HandshakeStep::StopReader
                        &&& action == HandshakeAction::StopReader
                    },
                    HandshakeEvent::UnsubscribeFailed => {
                        &&& final(self).step() == HandshakeStep::Declined
                        &&& final(self).error() == HalError::Callback
                        &&& action == HandshakeAction::KeepOpen(HalError::Callback)
                    },
                    _ => {
                        &&& final(self).step() == HandshakeStep::Declined
                        &&& final(self).error() == HalError::IllegalState
                        &&& action == HandshakeAction::KeepOpen(HalError::IllegalState)
                    },
                }
            },
            old(self).step() == HandshakeStep::StopReader ==> match event {
                HandshakeEvent::ReaderStopped => {
                    &&& final(self).written() == Seq::<Seq<u8>>::empty()
                    &&& final(self).received() == Seq::<u8>::empty()
                    &&& if old(self).chunks().len() == 0 {
                        &&& final(self).step() == HandshakeStep::ReadConfirmation
                        &&& action == HandshakeAction::Read(CONFIRMATION_LEN)
                    } else {
                        &&& final(self).step() == HandshakeStep::WriteReset
                        &&& action is Write
                        &&& action->Write_0@ == old(self).chunks()[0]
                    }
                },
                _ => {
                    &&& *final(self) == *old(self)
                    &&& action == HandshakeAction::StopReader
                },
            },
            old(self).step() == HandshakeStep::WriteReset ==> match event {
                HandshakeEvent::Written => {
                    let i = old(self).written().len() as int;
                    &&& final(self).written() == old(self).written().push(old(self).chunks()[i])
                    &&& final(self).received() == Seq::<u8>::empty()
                    &&& if i + 1 < old(self).chunks().len() {
                        &&& final(self).step() == HandshakeStep::WriteReset
                        &&& action is Write
                        &&& action->Write_0@ == old(self).chunks()[i + 1]
                    } else {
                        &&& final(self).step() == HandshakeStep::ReadConfirmation
                        &&& action == HandshakeAction::Read(CONFIRMATION_LEN)
                    }
                },
                HandshakeEvent::WriteFailed => old(self).aborts(
                    &*final(self),
                    action,
                    HalError::Transport,
                ),
                _ => old(self).aborts(&*final(self), action, HalError::IllegalState),
            },
            old(self).step() == HandshakeStep::ReadConfirmation ==> match event {
                HandshakeEvent::Received(d) => {
                    let r = old(self).received();
                    if d@.len() == 0 || d@.len() > CONFIRMATION_LEN - r.len() {
                        old(self).aborts(&*final(self), action, HalError::Transport)
                    } else if r.len() + d@.len() < CONFIRMATION_LEN {
                        &&& final(self).step() == HandshakeStep::ReadConfirmation
                        &&& final(self).received() == r + d@
                        &&& action == HandshakeAction::Read(
                            (CONFIRMATION_LEN - r.len() - d@.len()) as usize,
                        )
                    } else if r + d@ == reset_confirmation() {
                        &&& final(self).step() == HandshakeStep::SignalClosed
                        &&& final(self).received() == r + d@
                        &&& action == HandshakeAction::SignalClosed
                    } else {
                        &&& final(self).step() == HandshakeStep::Aborted
                        &&& final(self).error() == HalError::ProtocolViolation
                        &&& final(self).received() == r + d@
                        &&& final(self).written() == old(self).written()
                        &&& action == HandshakeAction::Finish(Err(HalError::ProtocolViolation))
                    }
                },
                HandshakeEvent::WouldBlock => {
                    &&& *final(self) == *old(self)
                    &&& action == HandshakeAction::Read(
                        (CONFIRMATION_LEN - old(self).received().len()) as usize,
                    )
                },
                HandshakeEvent::ReadFailed => old(self).aborts(
                    &*final(self),
                    action,
                    HalError::Transport,
                ),
                _ => old(self).aborts(&*final(self), action, HalError::IllegalState),
            },
            old(self).step() == HandshakeStep::SignalClosed ==> match event {
                HandshakeEvent::Signalled => {
                    &&& final(self).step() == HandshakeStep::Done
                    &&& action == HandshakeAction::Finish(Ok(()))
                },
                HandshakeEvent::SignalFailed => old(self).aborts(
                    &*final(self),
                    action,
                    HalError::Callback,
                ),
                _ => old(self).aborts(&*final(self), action, HalError::IllegalState),
            },
            old(self).step() == HandshakeStep::Done ==> {
                &&& *final(self) == *old(self)
                &&& action == HandshakeAction::Finish(Ok(()))
            },
            old(self).step() == HandshakeStep::Aborted ==> {
                &&& *final(self) == *old(self)
                &&& action == HandshakeAction::Finish(Err(old(self).error()))
            },
            old(self).step() == HandshakeStep::Declined ==> {
                &&& *final(self) == *old(self)
                &&& action == HandshakeAction::KeepOpen(old(self).error())
            },
    {
        match self.step {
            HandshakeStep::Unsubscribe => match event {
                HandshakeEvent::Unsubscribed => {
                    self.step = HandshakeStep::StopReader;
                    proof {
                        assert(self.written@ =~= Seq::<Seq<u8>>::empty());
                        assert(self.received@ =~= Seq::<u8>::empty());
                    }
                    HandshakeAction::StopReader
                },
                HandshakeEvent::UnsubscribeFailed => self.decline(HalError::Callback),
                _ => self.decline(HalError::IllegalState),
            },
            HandshakeStep::StopReader => match event {
                HandshakeEvent::ReaderStopped => {
                    proof {
                        assert(self.written@ =~= Seq::<Seq<u8>>::empty());
                        assert(self.received@ =~= Seq::<u8>::empty());
                    }
                    if self.chunks.len() == 0 {
                        self.step = HandshakeStep::ReadConfirmation;
                        proof {
                            assert(self.chunks() =~= Seq::<Seq<u8>>::empty());
                            assert(self.written@ =~= Seq::<Seq<u8>>::empty());
                        }
                        HandshakeAction::Read(CONFIRMATION_LEN)
                    } else {
                        self.step = HandshakeStep::WriteReset;
                        self.next_chunk = 0;
                        let c = self.chunks[0].clone();
                        proof {
                            assert(c@ =~= self.chunks@[0]@);
                        }
                        HandshakeAction::Write(c)
                    }
                },
                _ => HandshakeAction::StopReader,
            },
            HandshakeStep::WriteReset => match event {
                HandshakeEvent::Written => {
                    let i = self.next_chunk;
                    let n = self.chunks.len();
                    proof {
                        assert(self.chunks().take(i + 1) =~= self.written@.push(self.chunks()[i as int]));
                    }
                    self.written = Ghost(self.written@.push(self.chunks()[i as int]));
                    if i + 1 < n {
                        self.next_chunk = i + 1;
                        let c = self.chunks[i + 1].clone();
                        proof {
                            assert(c@ =~= self.chunks@[i + 1]@);
                        }
                        HandshakeAction::Write(c)
                    } else {
                        self.step = HandshakeStep::ReadConfirmation;
                        proof {
                            assert(self.chunks().take(i + 1) =~= self.chunks());
                        }
                        HandshakeAction::Read(CONFIRMATION_LEN)
                    }
                },
                HandshakeEvent::WriteFailed => self.abort(HalError::Transport),
                _ => self.abort(HalError::IllegalState),
            },
            HandshakeStep::ReadConfirmation => match event {
                HandshakeEvent::Received(d) => {
                    let have = self.received.len();
                    if d.len() == 0 || d.len() > CONFIRMATION_LEN - have {
                        self.abort(HalError::Transport)
                    } else {
                        let mut d = d;
                        self.received.append(&mut d);
                        let len = self.received.len();
                        if len < CONFIRMATION_LEN {
                            HandshakeAction::Read(CONFIRMATION_LEN - len)
                        } else if is_reset_confirmation(self.received.as_slice()) {
                            self.step = HandshakeStep::SignalClosed;
                            HandshakeAction::SignalClosed
                        } else {
                            self.step = HandshakeStep::Aborted;
                            self.error = HalError::ProtocolViolation;
                            HandshakeAction::Finish(Err(HalError::ProtocolViolation))
                        }
                    }
                },
                HandshakeEvent::WouldBlock => HandshakeAction::Read(CONFIRMATION_LEN - self.received.len()),
                HandshakeEvent::ReadFailed => self.abort(HalError::Transport),
                _ => self.abort(HalError::IllegalState),
            },
            HandshakeStep::SignalClosed => match event {
                HandshakeEvent::Signalled => {
                    self.step = HandshakeStep::Done;
                    HandshakeAction::Finish(Ok(()))
                },
                HandshakeEvent::SignalFailed => self.abort(HalError::Callback),
                _ => self.abort(HalError::IllegalState),
            },
            HandshakeStep::Done => HandshakeAction::Finish(Ok(())),
            HandshakeStep::Aborted => HandshakeAction::Finish(Err(self.error)),
            HandshakeStep::Declined => HandshakeAction::KeepOpen(self.error),
        }
    }
}

/// The handshake writes nothing but the reset command's chunks, in order; it
/// reads confirmation bytes only once every chunk has been written whole;
/// and it reaches the close report only after reading exactly the ten bytes
/// of the reset response and the status notification.
pub proof fn lemma_handshake_order(h: ShutdownHandshake)
    requires
        h.wf(),
    ensures
        h.written().len() <= h.chunks().len(),
        h.written() == h.chunks().take(h.written().len() as int),
        h.step() == HandshakeStep::ReadConfirmation ==> h.written() == h.chunks(),
        (h.step() == HandshakeStep::SignalClosed || h.step() == HandshakeStep::Done) ==> {
            &&& h.written() == h.chunks()
            &&& h.received().len() == CONFIRMATION_LEN
            &&& h.received().take(5) == device_reset_rsp()
            &&& h.received().skip(5) == device_status_ntf()
        },
{
    if h.step() == HandshakeStep::SignalClosed || h.step() == HandshakeStep::Done {
        assert(reset_confirmation().take(5) =~= device_reset_rsp());
        assert(reset_confirmation().skip(5) =~= device_status_ntf());
    }
}

} // verus!
