use vstd::prelude::*;

use crate::chunk::{
    flatten,
    frames_of,
    lemma_flatten_append,
    lemma_frames_round_trip,
    split_frames,
    views,
    MAX_FRAME_DATA_LEN,
};

verus! {

/// Size of the buffer that one read from the TCP socket fills.
pub const READ_BUF_LEN: usize = 65535;

/// What happened on one of the two sides of a relay.
pub enum RelayEvent {
    /// A read from the TCP socket returned these bytes; none means the peer
    /// has no more to send.
    TcpRead(Vec<u8>),
    /// A receive on the stream returned this message, or `None` when the
    /// remote side closed its half.
    StreamMessage(Option<Vec<u8>>),
    /// A read or a write on either side failed.
    Failed,
}

/// What the relay asks its driver to do next.
pub enum RelayAction {
    /// Send each frame, in order, as one message on the stream.
    SendFrames(Vec<Vec<u8>>),
    /// Write the whole payload to the TCP socket.
    WriteAll(Vec<u8>),
    /// Stop and close both the socket and the stream.
    Close,
}

/// A relay action as plain values.
pub enum ActionView {
    Send(Seq<Seq<u8>>),
    Write(Seq<u8>),
    Close,
}

impl View for RelayAction {
    type V = ActionView;

    open spec fn view(&self) -> ActionView {
        match self {
            RelayAction::SendFrames(f) => ActionView::Send(views(f@)),
            RelayAction::WriteAll(d) => ActionView::Write(d@),
            RelayAction::Close => ActionView::Close,
        }
    }
}

/// The next open flag and action of a relay that is `open`, splits reads
/// into frames of `max` bytes and sees `ev`.
pub open spec fn relay_step(open: bool, max: nat, ev: RelayEvent) -> (bool, ActionView) {
    if !open {
        (false, ActionView::Close)
    } else {
        match ev {
            RelayEvent::TcpRead(d) => if d@.len() == 0 {
                (false, ActionView::Close)
            } else {
                (true, ActionView::Send(frames_of(d@, max)))
            },
            RelayEvent::StreamMessage(m) => match m {
                Some(d) => (true, ActionView::Write(d@)),
                None => (false, ActionView::Close),
            },
            RelayEvent::Failed => (false, ActionView::Close),
        }
    }
}

/// The state of one relay between a TCP socket and a stream.
pub struct Relay {
    open: bool,
    max_frame: usize,
}

impl Relay {
    pub closed spec fn is_open_spec(&self) -> bool {
        self.open
    }

    pub closed spec fn max_frame_spec(&self) -> nat {
        self.max_frame as nat
    }

    pub closed spec fn wf(&self) -> bool {
        self.max_frame > 0
    }

    /// A relay that is open and splits reads into frames of
    /// `MAX_FRAME_DATA_LEN` bytes.
    pub fn new() -> (r: Self)
        ensures
            r.wf(),
            r.is_open_spec(),
            r.max_frame_spec() == MAX_FRAME_DATA_LEN,
    {
        Relay { open: true, max_frame: MAX_FRAME_DATA_LEN }
    }

    pub fn is_open(&self) -> (r: bool)
        ensures
            r == self.is_open_spec(),
    {
        self.open
    }

    /// Decides what to do with one event.
    pub fn on_event(&mut self, ev: RelayEvent) -> (r: RelayAction)
        requires
            old(self).wf(),
        ensures
            final(self).wf(),
            final(self).max_frame_spec() == old(self).max_frame_spec(),
            (final(self).is_open_spec(), r@) == relay_step(
                old(self).is_open_spec(),
                old(self).max_frame_spec(),
                ev,
            ),
    {
        if !self.open {
            return RelayAction::Close;
        }
        match ev {
            RelayEvent::TcpRead(d) => {
                if d.len() == 0 {
                    self.open = false;
                    RelayAction::Close
                } else {
                    RelayAction::SendFrames(split_frames(d.as_slice(), self.max_frame))
                }
            },
            RelayEvent::StreamMessage(m) => match m {
                Some(d) => RelayAction::WriteAll(d),
                None => {
                    self.open = false;
                    RelayAction::Close
                },
            },
            RelayEvent::Failed => {
                self.open = false;
                RelayAction::Close
            },
        }
    }
}

/// The frames that a relay sends for a run of TCP reads, in order.
pub open spec fn frames_for_reads(reads: Seq<Seq<u8>>, max: nat) -> Seq<Seq<u8>>
    decreases reads.len(),
{
    if reads.len() == 0 {
        Seq::empty()
    } else {
        frames_for_reads(reads.drop_last(), max) + frames_of(reads.last(), max)
    }
}

proof fn lemma_frames_for_reads_flatten(reads: Seq<Seq<u8>>, max: nat)
    requires
        max > 0,
    ensures
        flatten(frames_for_reads(reads, max)) == flatten(reads),
    decreases reads.len(),
{
    if reads.len() > 0 {
        let init = reads.drop_last();
        let last = reads.last();
        lemma_frames_for_reads_flatten(init, max);
        lemma_flatten_append(frames_for_reads(init, max), frames_of(last, max));
        lemma_frames_round_trip(last, max);
        assert(reads =~= init + seq![last]);
        lemma_flatten_append(init, seq![last]);
        assert(seq![last].skip(1) =~= Seq::<Seq<u8>>::empty());
        assert(flatten(Seq::<Seq<u8>>::empty()) == Seq::<u8>::empty());
        assert(last + Seq::<u8>::empty() =~= last);
        assert(flatten(seq![last]) == last);
    }
}

/// The end of data on the TCP socket closes the relay, and a closed relay
/// sends nothing more whatever happens next.
pub proof fn lemma_half_close(max: nat, eof: Vec<u8>, later: RelayEvent)
    requires
        eof@.len() == 0,
    ensures
        relay_step(true, max, RelayEvent::TcpRead(eof)) == (false, ActionView::Close),
        relay_step(false, max, later) == (false, ActionView::Close),
{
}

/// The bytes of each read.
pub open spec fn read_views(reads: Seq<Vec<u8>>) -> Seq<Seq<u8>> {
    reads.map_values(|r: Vec<u8>| r@)
}

/// An open relay answers each non-empty TCP read with its frames and stays
/// open, and all the frames of a run of reads, joined, are the bytes read,
/// in the order read, whatever the frame boundaries.
pub proof fn lemma_relay_round_trip(reads: Seq<Vec<u8>>, max: nat)
    requires
        max > 0,
        forall|i: int| 0 <= i < reads.len() ==> (#[trigger] reads[i])@.len() > 0,
    ensures
        forall|i: int|
            0 <= i < reads.len() ==> relay_step(true, max, RelayEvent::TcpRead(#[trigger] reads[i]))
                == (true, ActionView::Send(frames_of(reads[i]@, max))),
        flatten(frames_for_reads(read_views(reads), max)) == flatten(read_views(reads)),
{
    lemma_frames_for_reads_flatten(read_views(reads), max);
}

/// The open flags of several relays after relay `k` saw `ev`.
pub open spec fn relays_after(open: Seq<bool>, max: nat, k: int, ev: RelayEvent) -> Seq<bool> {
    open.update(k, relay_step(open[k], max, ev).0)
}

/// A failure on either side of one relay closes that relay, and leaves
/// every other relay as it was.
pub proof fn lemma_failure_isolation(open: Seq<bool>, max: nat, k: int)
    requires
        0 <= k < open.len(),
    ensures
        relay_step(open[k], max, RelayEvent::Failed) == (false, ActionView::Close),
        relays_after(open, max, k, RelayEvent::Failed)[k] == false,
        relays_after(open, max, k, RelayEvent::Failed).len() == open.len(),
        forall|j: int|
            0 <= j < open.len() && j != k ==> #[trigger] relays_after(
                open,
                max,
                k,
                RelayEvent::Failed,
            )[j] == open[j],
{
}

} // verus!
