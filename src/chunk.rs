use vstd::prelude::*;

verus! {

/// Largest payload carried by one multiplexed message.
pub const MAX_FRAME_DATA_LEN: usize = 2048;

/// All frames joined end to end.
pub open spec fn flatten(frames: Seq<Seq<u8>>) -> Seq<u8>
    decreases frames.len(),
{
    if frames.len() == 0 {
        Seq::empty()
    } else {
        frames[0] + flatten(frames.skip(1))
    }
}

/// The split of `data` into consecutive frames of `max` bytes, the last one
/// possibly shorter.
pub open spec fn frames_of(data: Seq<u8>, max: nat) -> Seq<Seq<u8>>
    decreases data.len(),
{
    if data.len() == 0 || max == 0 {
        Seq::empty()
    } else if data.len() <= max {
        seq![data]
    } else {
        seq![data.take(max as int)] + frames_of(data.skip(max as int), max)
    }
}

/// The byte contents of a list of buffers.
pub open spec fn views(frames: Seq<Vec<u8>>) -> Seq<Seq<u8>> {
    frames.map_values(|f: Vec<u8>| f@)
}

/// Splitting into frames and joining them again gives back the same
/// bytes: chunking is invisible to the reader of the stream.
pub proof fn lemma_frames_round_trip(data: Seq<u8>, max: nat)
    requires
        max > 0,
    ensures
        flatten(frames_of(data, max)) == data,
    decreases data.len(),
{
    if data.len() == 0 {
    } else if data.len() <= max {
        let f = seq![data];
        assert(f.skip(1) =~= Seq::<Seq<u8>>::empty());
        assert(flatten(f.skip(1)) == Seq::<u8>::empty());
        assert(data + Seq::<u8>::empty() =~= data);
    } else {
        let rest = frames_of(data.skip(max as int), max);
        lemma_frames_round_trip(data.skip(max as int), max);
        let f = seq![data.take(max as int)] + rest;
        assert(f.skip(1) =~= rest);
        assert(data =~= data.take(max as int) + data.skip(max as int));
    }
}

/// Every frame is non-empty and holds at most `max` bytes.
pub proof fn lemma_frames_bounded(data: Seq<u8>, max: nat)
    requires
        max > 0,
    ensures
        forall|i: int|
            0 <= i < frames_of(data, max).len() ==> 0 < (#[trigger] frames_of(data, max)[i]).len()
                <= max,
    decreases data.len(),
{
    if data.len() > max {
        lemma_frames_bounded(data.skip(max as int), max);
        let rest = frames_of(data.skip(max as int), max);
        assert forall|i: int| 0 <= i < frames_of(data, max).len() implies 0 < (
        #[trigger] frames_of(data, max)[i]).len() <= max by {
            if i > 0 {
                assert(frames_of(data, max)[i] == rest[i - 1]);
            }
        }
    }
}

/// Joining two lists of frames joins their contents.
pub proof fn lemma_flatten_append(a: Seq<Seq<u8>>, b: Seq<Seq<u8>>)
    ensures
        flatten(a + b) == flatten(a) + flatten(b),
    decreases a.len(),
{
    if a.len() == 0 {
        assert(a + b =~= b);
    } else {
        lemma_flatten_append(a.skip(1), b);
        assert((a + b).skip(1) =~= a.skip(1) + b);
        assert((a + b)[0] == a[0]);
    }
}

/// Splits `data` into consecutive frames of at most `max` bytes, in order.
pub fn split_frames(data: &[u8], max: usize) -> (r: Vec<Vec<u8>>)
    requires
        max > 0,
    ensures
        views(r@) == frames_of(data@, max as nat),
{
    let mut r: Vec<Vec<u8>> = Vec::new();
    let mut pos: usize = 0;
    assert(data@.skip(0) =~= data@);
    assert(views(r@) =~= Seq::<Seq<u8>>::empty());
    assert(Seq::<Seq<u8>>::empty() + frames_of(data@, max as nat) =~= frames_of(data@, max as nat));
    while pos < data.len()
        invariant
            max > 0,
            pos <= data.len(),
            views(r@) + frames_of(data@.skip(pos as int), max as nat) == frames_of(
                data@,
                max as nat,
            ),
        decreases data.len() - pos,
    {
        let rest = Ghost(data@.skip(pos as int));
        let end: usize = if data.len() - pos > max {
            pos + max
        } else {
            data.len()
        };
        let mut frame: Vec<u8> = Vec::new();
        let mut j: usize = pos;
        while j < end
            invariant
                pos <= j <= end <= data.len(),
                frame@ == data@.subrange(pos as int, j as int),
            decreases end - j,
        {
            frame.push(data[j]);
            j = j + 1;
            assert(frame@ =~= data@.subrange(pos as int, j as int));
        }
        let ghost old_r = r@;
        r.push(frame);
        assert(views(r@) =~= views(old_r).push(frame@));
        assert(data@.skip(end as int) =~= rest@.skip((end - pos) as int));
        if end == data.len() {
            assert(frame@ =~= rest@);
            assert(data@.skip(end as int) =~= Seq::<u8>::empty());
        } else {
            assert(frame@ =~= rest@.take(max as int));
        }
        assert(frames_of(rest@, max as nat) =~= seq![frame@] + frames_of(
            data@.skip(end as int),
            max as nat,
        ));
        assert(views(r@) + frames_of(data@.skip(end as int), max as nat) =~= views(old_r) + (
        seq![frame@] + frames_of(data@.skip(end as int), max as nat)));
        pos = end;
    }
    assert(data@.skip(pos as int) =~= Seq::<u8>::empty());
    assert(views(r@) =~= views(r@) + frames_of(data@.skip(pos as int), max as nat));
    r
}

} // verus!
