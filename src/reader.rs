//! The frame reader: reassembles UCI frames from whatever chunks a
//! non-blocking read hands back, and decides after each outside event what
//! the reading task does next. Cancellation is honoured only between frames.
use vstd::prelude::*;
use crate::frame::{
    declared_frame_len, frame_length, is_frame, message_type_of, DATA_MESSAGE_TYPE, UWB_HEADER_SIZE,
};

verus! {

/// The bytes of frames laid end to end.
pub open spec fn concat_frames(frames: Seq<Seq<u8>>) -> Seq<u8>
    decreases frames.len(),
{
    if frames.len() == 0 {
        Seq::empty()
    } else {
        frames[0] + concat_frames(frames.drop_first())
    }
}

/// `p` is the beginning of a frame that is not complete yet.
pub open spec fn is_partial(p: Seq<u8>) -> bool {
    p.len() < 4 || p.len() < declared_frame_len(p)
}

/// How many more bytes the unfinished frame `p` needs before its length is
/// known (header) or before it is complete (payload).
pub open spec fn bytes_wanted(p: Seq<u8>) -> nat {
    if p.len() < 4 {
        (4 - p.len()) as nat
    } else {
        (declared_frame_len(p) - p.len()) as nat
    }
}

/// The frames completed, and the unfinished frame left, when the bytes of
/// `input` arrive one by one after the unfinished frame `pending`.
pub open spec fn feed(pending: Seq<u8>, input: Seq<u8>) -> (Seq<Seq<u8>>, Seq<u8>)
    decreases input.len(),
{
    if input.len() == 0 {
        (Seq::empty(), pending)
    } else {
        let q = pending.push(input[0]);
        if is_frame(q) {
            let rest = feed(Seq::empty(), input.drop_first());
            (seq![q] + rest.0, rest.1)
        } else {
            feed(q, input.drop_first())
        }
    }
}

/// Feeding two inputs in turn is feeding their concatenation.
pub proof fn lemma_feed_append(p: Seq<u8>, a: Seq<u8>, b: Seq<u8>)
    ensures
        feed(p, a + b) == ({
            let first = feed(p, a);
            let second = feed(first.1, b);
            (first.0 + second.0, second.1)
        }),
    decreases a.len(),
{
    if a.len() == 0 {
        assert(a + b =~= b);
        assert(Seq::<Seq<u8>>::empty() + feed(p, b).0 =~= feed(p, b).0);
    } else {
        let q = p.push(a[0]);
        assert((a + b).drop_first() =~= a.drop_first() + b);
        assert((a + b)[0] == a[0]);
        if is_frame(q) {
            lemma_feed_append(Seq::empty(), a.drop_first(), b);
            let first = feed(Seq::empty(), a.drop_first());
            let second = feed(first.1, b);
            assert(seq![q] + (first.0 + second.0) =~= (seq![q] + first.0) + second.0);
        } else {
            lemma_feed_append(q, a.drop_first(), b);
        }
    }
}

/// No proper prefix of a frame is a frame.
proof fn lemma_prefix_not_frame(f: Seq<u8>, k: int)
    requires
        is_frame(f),
        0 <= k < f.len(),
    ensures
        !is_frame(f.take(k)),
        is_partial(f.take(k)),
{
    if k >= 4 {
        assert(f.take(k)[0] == f[0] && f.take(k)[2] == f[2] && f.take(k)[3] == f[3]);
    }
}

/// Once the first `k` bytes of the frame `f` are pending, the rest of `f`
/// completes exactly `f`, and what follows starts afresh.
proof fn lemma_feed_frame(f: Seq<u8>, k: int, rest: Seq<u8>)
    requires
        is_frame(f),
        0 <= k < f.len(),
    ensures
        feed(f.take(k), f.skip(k) + rest) == ({
            let after = feed(Seq::empty(), rest);
            (seq![f] + after.0, after.1)
        }),
    decreases f.len() - k,
{
    let input = f.skip(k) + rest;
    let q = f.take(k).push(input[0]);
    assert(input[0] == f[k]);
    assert(q =~= f.take(k + 1));
    if k + 1 == f.len() {
        assert(q =~= f);
        assert(input.drop_first() =~= rest);
    } else {
        lemma_prefix_not_frame(f, k + 1);
        assert(input.drop_first() =~= f.skip(k + 1) + rest);
        lemma_feed_frame(f, k + 1, rest);
    }
}

/// Frames written back to back are reassembled exactly, in order, with
/// nothing left over.
pub proof fn lemma_back_to_back_frames(frames: Seq<Seq<u8>>)
    requires
        forall|i: int| 0 <= i < frames.len() ==> is_frame(#[trigger] frames[i]),
    ensures
        feed(Seq::empty(), concat_frames(frames)) == (frames, Seq::<u8>::empty()),
    decreases frames.len(),
{
    if frames.len() == 0 {
    } else {
        let f = frames[0];
        let tail = frames.drop_first();
        assert forall|i: int| 0 <= i < tail.len() implies is_frame(#[trigger] tail[i]) by {
            assert(tail[i] == frames[i + 1]);
        }
        lemma_back_to_back_frames(tail);
        assert(f.take(0) =~= Seq::<u8>::empty());
        assert(f.skip(0) =~= f);
        lemma_feed_frame(f, 0, concat_frames(tail));
        assert(seq![f] + tail =~= frames);
    }
}

/// A chunk no longer than what the unfinished frame wants either leaves the
/// frame unfinished or completes it with its last byte.
proof fn lemma_feed_chunk(p: Seq<u8>, d: Seq<u8>)
    requires
        is_partial(p),
        0 < d.len() <= bytes_wanted(p),
    ensures
        feed(p, d) == (if is_frame(p + d) {
            (seq![p + d], Seq::<u8>::empty())
        } else {
            (Seq::<Seq<u8>>::empty(), p + d)
        }),
        !is_frame(p + d) ==> is_partial(p + d),
    decreases d.len(),
{
    let q = p.push(d[0]);
    if p.len() >= 4 {
        assert(q[0] == p[0] && q[2] == p[2] && q[3] == p[3]);
    }
    if d.len() == 1 {
        assert(p + d =~= q);
        assert(d.drop_first() =~= Seq::<u8>::empty());
        assert(feed(Seq::empty(), d.drop_first()) == (Seq::<Seq<u8>>::empty(), Seq::<u8>::empty()));
        assert(feed(q, d.drop_first()) == (Seq::<Seq<u8>>::empty(), q));
        assert(Seq::<Seq<u8>>::empty() + seq![q] =~= seq![q]);
        assert(seq![q] + Seq::<Seq<u8>>::empty() =~= seq![q]);
    } else {
        assert(!is_frame(q));
        assert(q + d.drop_first() =~= p + d);
        lemma_feed_chunk(q, d.drop_first());
    }
}

/// What the reading task is doing.
#[derive(PartialEq, Eq, Structural, Clone, Copy, Debug)]
pub enum ReaderPhase {
    /// Reading the current frame (or waiting for its first byte).
    Reading,
    /// A complete frame has been handed out and awaits its delivery.
    Delivering,
    /// The task ends normally: cancelled between frames, or the line closed.
    Stopped,
    /// The task ends on an unrecoverable fault.
    Failed,
}

/// What the outside world reports to the reader.
#[derive(PartialEq, Eq, Debug)]
pub enum ReadEvent {
    /// A non-blocking read returned these bytes (empty: end of stream).
    Bytes(Vec<u8>),
    /// A non-blocking read found no data.
    WouldBlock,
    /// The transport became readable.
    Readable,
    /// The cancellation token fired while waiting.
    Cancelled,
    /// A read failed with an error other than "would block".
    ReadFailed,
    /// The last frame handed out reached the client.
    Delivered,
    /// The last frame handed out could not be delivered.
    DeliveryFailed,
}

/// What the reading task is to do next.
#[derive(PartialEq, Eq, Debug)]
pub enum ReaderAction {
    /// Read, without blocking, at most this many bytes.
    Read(usize),
    /// Wait until the transport is readable or the token is cancelled.
    WaitReadableOrCancel,
    /// Hand this complete frame to the client.
    Deliver(Vec<u8>),
    /// End the task normally.
    Stop,
    /// End the task on an unrecoverable fault.
    Fail,
}

/// The frame reader's state: the unfinished frame, and, as ghost history,
/// every byte consumed from the transport and every frame assembled.
pub struct FrameReader {
    phase: ReaderPhase,
    buffer: Vec<u8>,
    consumed: Ghost<Seq<u8>>,
    assembled: Ghost<Seq<Seq<u8>>>,
}

impl FrameReader {
    pub closed spec fn phase(&self) -> ReaderPhase {
        self.phase
    }

    /// The bytes read of the frame in progress (empty while one is delivered).
    pub closed spec fn pending(&self) -> Seq<u8> {
        if self.phase == ReaderPhase::Delivering {
            Seq::empty()
        } else {
            self.buffer@
        }
    }

    /// The frame handed out for delivery, in phase `Delivering`.
    pub closed spec fn delivering(&self) -> Seq<u8> {
        self.buffer@
    }

    /// Every byte consumed from the transport so far.
    pub closed spec fn consumed(&self) -> Seq<u8> {
        self.consumed@
    }

    /// Every frame completed so far, in order.
    pub closed spec fn assembled(&self) -> Seq<Seq<u8>> {
        self.assembled@
    }

    pub closed spec fn wf(&self) -> bool {
        &&& feed(Seq::empty(), self.consumed@) == (self.assembled@, self.pending())
        &&& self.phase == ReaderPhase::Reading ==> is_partial(self.buffer@)
        &&& self.phase == ReaderPhase::Delivering ==> {
            &&& is_frame(self.buffer@)
            &&& self.assembled@.len() > 0
            &&& self.assembled@.last() == self.buffer@
        }
    }

    /// A reader that has read nothing yet.
    pub fn new() -> (r: Self)
        ensures
            r.wf(),
            r.phase() == ReaderPhase::Reading,
            r.pending() == Seq::<u8>::empty(),
            r.consumed() == Seq::<u8>::empty(),
            r.assembled() == Seq::<Seq<u8>>::empty(),
    {
        FrameReader {
            phase: ReaderPhase::Reading,
            buffer: Vec::new(),
            consumed: Ghost(Seq::empty()),
            assembled: Ghost(Seq::empty()),
        }
    }

    /// How many bytes the next read may take without reaching into the next
    /// frame: the rest of the header, or the rest of the payload.
    pub fn wanted(&self) -> (r: usize)
        requires
            self.wf(),
            self.phase() == ReaderPhase::Reading,
        ensures
            r == bytes_wanted(self.pending()),
            0 < r <= UWB_HEADER_SIZE + 0xffff,
    {
        let len = self.buffer.len();
        if len < UWB_HEADER_SIZE {
            UWB_HEADER_SIZE - len
        } else {
            frame_length(self.buffer.as_slice()) - len
        }
    }

    /// Takes one outside event and says what the task does next. A chunk of
    /// bytes extends the unfinished frame; the frame is handed out as soon as
    /// it holds exactly the length its header declares. Cancellation ends the
    /// task only while no byte of a new frame has been read; once a frame has
    /// begun, it is read to its end.
    pub fn on_event(&mut self, event: ReadEvent) -> (action: ReaderAction)
        requires
            old(self).wf(),
        ensures
            final(self).wf(),
            old(self).phase() == ReaderPhase::Reading ==> match event {
                ReadEvent::Bytes(d) => {
                    let p = old(self).pending();
                    if d@.len() == 0 {
                        &&& final(self).phase() == ReaderPhase::Stopped
                        &&& action == ReaderAction::Stop
                        &&& final(self).consumed() == old(self).consumed()
                        &&& final(self).assembled() == old(self).assembled()
                    } else if d@.len() > bytes_wanted(p) {
                        &&& final(self).phase() == ReaderPhase::Failed
                        &&& action == ReaderAction::Fail
                        &&& final(self).consumed() == old(self).consumed()
                        &&& final(self).assembled() == old(self).assembled()
                    } else if is_frame(p + d@) {
                        &&& final(self).phase() == ReaderPhase::Delivering
                        &&& action is Deliver
                        &&& action->Deliver_0@ == p + d@
                        &&& final(self).delivering() == p + d@
                        &&& final(self).consumed() == old(self).consumed() + d@
                        &&& final(self).assembled() == old(self).assembled().push(p + d@)
                    } else {
                        &&& final(self).phase() == ReaderPhase::Reading
                        &&& final(self).pending() == p + d@
                        &&& action == ReaderAction::Read(bytes_wanted(p + d@) as usize)
                        &&& final(self).consumed() == old(self).consumed() + d@
                        &&& final(self).assembled() == old(self).assembled()
                    }
                },
                ReadEvent::WouldBlock => {
                    &&& *final(self) == *old(self)
                    &&& action == if old(self).pending().len() == 0 {
                        ReaderAction::WaitReadableOrCancel
                    } else {
                        ReaderAction::Read(bytes_wanted(old(self).pending()) as usize)
                    }
                },
                ReadEvent::Readable => {
                    &&& *final(self) == *old(self)
                    &&& action == ReaderAction::Read(bytes_wanted(old(self).pending()) as usize)
                },
                ReadEvent::Cancelled => if old(self).pending().len() == 0 {
                    &&& final(self).phase() == ReaderPhase::Stopped
                    &&& action == ReaderAction::Stop
                    &&& final(self).consumed() == old(self).consumed()
                    &&& final(self).assembled() == old(self).assembled()
                } else {
                    &&& *final(self) == *old(self)
                    &&& action == ReaderAction::Read(bytes_wanted(old(self).pending()) as usize)
                },
                _ => {
                    &&& final(self).phase() == ReaderPhase::Failed
                    &&& action == ReaderAction::Fail
                    &&& final(self).consumed() == old(self).consumed()
                    &&& final(self).assembled() == old(self).assembled()
                },
            },
            old(self).phase() == ReaderPhase::Delivering ==> match event {
                ReadEvent::Delivered => {
                    &&& final(self).phase() == ReaderPhase::Reading
                    &&& final(self).pending() == Seq::<u8>::empty()
                    &&& action == ReaderAction::Read(UWB_HEADER_SIZE)
                    &&& final(self).consumed() == old(self).consumed()
                    &&& final(self).assembled() == old(self).assembled()
                },
                _ => {
                    &&& final(self).phase() == ReaderPhase::Failed
                    &&& action == ReaderAction::Fail
                    &&& final(self).consumed() == old(self).consumed()
                    &&& final(self).assembled() == old(self).assembled()
                },
            },
            old(self).phase() == ReaderPhase::Stopped ==> {
                &&& *final(self) == *old(self)
                &&& action == ReaderAction::Stop
            },
            old(self).phase() == ReaderPhase::Failed ==> {
                &&& *final(self) == *old(self)
                &&& action == ReaderAction::Fail
            },
    {
        match self.phase {
            ReaderPhase::Reading => match event {
                ReadEvent::Bytes(d) => {
                    let wanted = self.wanted();
                    if d.len() == 0 {
                        self.phase = ReaderPhase::Stopped;
                        ReaderAction::Stop
                    } else if d.len() > wanted {
                        self.phase = ReaderPhase::Failed;
                        ReaderAction::Fail
                    } else {
                        let ghost p = self.buffer@;
                        let ghost chunk = d@;
                        proof {
                            lemma_feed_chunk(p, chunk);
                            lemma_feed_append(Seq::empty(), self.consumed@, chunk);
                        }
                        let mut d = d;
                        self.buffer.append(&mut d);
                        self.consumed = Ghost(self.consumed@ + chunk);
                        let len = self.buffer.len();
                        if len >= UWB_HEADER_SIZE && len == frame_length(self.buffer.as_slice()) {
                            proof {
                                assert(self.assembled@ + seq![p + chunk] =~= self.assembled@.push(p + chunk));
                            }
                            self.assembled = Ghost(self.assembled@.push(self.buffer@));
                            self.phase = ReaderPhase::Delivering;
                            let frame = self.buffer.clone();
                            proof {
                                assert(frame@ =~= self.buffer@);
                            }
                            ReaderAction::Deliver(frame)
                        } else {
                            proof {
                                assert(self.assembled@ + Seq::<Seq<u8>>::empty() =~= self.assembled@);
                            }
                            ReaderAction::Read(self.wanted())
                        }
                    }
                },
                ReadEvent::WouldBlock => {
                    if self.buffer.len() == 0 {
                        ReaderAction::WaitReadableOrCancel
                    } else {
                        ReaderAction::Read(self.wanted())
                    }
                },
                ReadEvent::Readable => ReaderAction::Read(self.wanted()),
                ReadEvent::Cancelled => {
                    if self.buffer.len() == 0 {
                        self.phase = ReaderPhase::Stopped;
                        ReaderAction::Stop
                    } else {
                        ReaderAction::Read(self.wanted())
                    }
                },
                _ => {
                    self.phase = ReaderPhase::Failed;
                    ReaderAction::Fail
                },
            },
            ReaderPhase::Delivering => match event {
                ReadEvent::Delivered => {
                    self.buffer = Vec::new();
                    self.phase = ReaderPhase::Reading;
                    ReaderAction::Read(UWB_HEADER_SIZE)
                },
                _ => {
                    self.buffer = Vec::new();
                    self.phase = ReaderPhase::Failed;
                    ReaderAction::Fail
                },
            },
            ReaderPhase::Stopped => ReaderAction::Stop,
            ReaderPhase::Failed => ReaderAction::Fail,
        }
    }
}

/// However the transport split them into chunks: once the bytes a reader has
/// consumed are frames laid end to end, it has assembled exactly those
/// frames, byte for byte and in order, and holds no unfinished frame.
pub proof fn lemma_reader_assembles_frames_in_order(r: FrameReader, frames: Seq<Seq<u8>>)
    requires
        r.wf(),
        forall|i: int| 0 <= i < frames.len() ==> is_frame(#[trigger] frames[i]),
        r.consumed() == concat_frames(frames),
    ensures
        r.assembled() == frames,
        r.pending() == Seq::<u8>::empty(),
{
    lemma_back_to_back_frames(frames);
}

/// A frame handed out for delivery is 4 + L bytes long, where L is the
/// payload length its header declares: the 16-bit little-endian value at
/// bytes 2..4 for a data frame, byte 3 for any other frame.
pub proof fn lemma_delivered_frame_length(r: FrameReader)
    requires
        r.wf(),
        r.phase() == ReaderPhase::Delivering,
    ensures
        r.delivering() == r.assembled().last(),
        r.delivering().len() >= 4,
        message_type_of(r.delivering()[0]) == DATA_MESSAGE_TYPE ==> r.delivering().len() == 4
            + r.delivering()[2] as nat + 256 * (r.delivering()[3] as nat),
        message_type_of(r.delivering()[0]) != DATA_MESSAGE_TYPE ==> r.delivering().len() == 4
            + r.delivering()[3] as nat,
{
}

} // verus!
