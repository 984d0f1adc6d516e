//! Cutting a stream of bytes into JPEG images.

use vstd::prelude::*;

verus! {

/// The second byte of the marker that starts an image.
pub const START_OF_IMAGE: u8 = 0xD8;

/// The second byte of the marker that ends an image.
pub const END_OF_IMAGE: u8 = 0xD9;

/// A buffer of more bytes than this is cut.
pub const BUFFER_LIMIT: usize = 16_777_216;

/// The bytes that are kept of a buffer that is cut.
pub const BUFFER_KEPT: usize = 524_288;

/// Whether a marker stands at an index.
pub open spec fn marker_at(bytes: Seq<u8>, code: u8, at: int) -> bool {
    0 <= at && at + 1 < bytes.len() && bytes[at] == 0xFF && bytes[at + 1] == code
}

/// Whether a marker stands at an index, and nowhere before.
pub open spec fn first_marker_at(bytes: Seq<u8>, code: u8, at: int) -> bool {
    &&& marker_at(bytes, code, at)
    &&& forall|before: int| 0 <= before < at ==> !#[trigger] marker_at(bytes, code, before)
}

/// Whether a marker stands nowhere.
pub open spec fn no_marker(bytes: Seq<u8>, code: u8) -> bool {
    forall|at: int| !#[trigger] marker_at(bytes, code, at)
}

/// Whether bytes are one image: a start marker, and an end marker at the end and
/// nowhere before.
pub open spec fn image(bytes: Seq<u8>) -> bool {
    &&& marker_at(bytes, START_OF_IMAGE, 0)
    &&& first_marker_at(bytes, END_OF_IMAGE, bytes.len() - 2)
}

/// What taking an image out of a buffer gives and leaves. The image reaches from
/// the first start marker to the first end marker behind it. Bytes before the
/// start marker are dropped, also where the end is still missing.
pub open spec fn extracted(before: Seq<u8>, frame: Option<Seq<u8>>, after: Seq<u8>) -> bool {
    ||| {
        &&& no_marker(before, START_OF_IMAGE)
        &&& frame is None
        &&& after == before
    }
    ||| exists|start: int|
        {
            &&& #[trigger] first_marker_at(before, START_OF_IMAGE, start)
            &&& cut_at_end(before.skip(start), frame, after)
        }
}

/// What taking an image out of bytes that start with one gives and leaves.
pub open spec fn cut_at_end(bytes: Seq<u8>, frame: Option<Seq<u8>>, after: Seq<u8>) -> bool {
    ||| {
        &&& no_marker(bytes, END_OF_IMAGE)
        &&& frame is None
        &&& after == bytes
    }
    ||| exists|end: int|
        {
            &&& #[trigger] first_marker_at(bytes, END_OF_IMAGE, end)
            &&& frame == Some(bytes.take(end + 2))
            &&& after == bytes.skip(end + 2)
        }
}

/// A buffer after bytes were added to it: too large a buffer keeps its last bytes
/// only.
pub open spec fn absorbed(before: Seq<u8>, chunk: Seq<u8>) -> Seq<u8> {
    let all = before + chunk;
    if all.len() > BUFFER_LIMIT {
        all.skip(all.len() - BUFFER_KEPT)
    } else {
        all
    }
}

/// Where the first marker stands.
pub fn find_marker(bytes: &Vec<u8>, code: u8) -> (r: Option<usize>)
    ensures
        match r {
            Some(at) => first_marker_at(bytes@, code, at as int),
            None => no_marker(bytes@, code),
        },
{
    let mut at: usize = 0;
    while at < bytes.len() && bytes.len() - at >= 2
        invariant
            at <= bytes.len(),
            forall|before: int| 0 <= before < at ==> !#[trigger] marker_at(bytes@, code, before),
        decreases bytes.len() - at,
    {
        if bytes[at] == 0xFF && bytes[at + 1] == code {
            return Some(at);
        }
        at += 1;
    }
    None
}

/// Takes the first image out of a buffer, if the buffer holds one.
pub fn extract_jpeg_frame(buffer: &mut Vec<u8>) -> (r: Option<Vec<u8>>)
    ensures
        extracted(
            old(buffer)@,
            match r {
                Some(frame) => Some(frame@),
                None => None,
            },
            final(buffer)@,
        ),
        final(buffer).len() <= old(buffer).len(),
{
    let start = match find_marker(buffer, START_OF_IMAGE) {
        Some(start) => start,
        None => {
            return None;
        },
    };
    if start > 0 {
        let rest = buffer.split_off(start);
        *buffer = rest;
    }
    assert(buffer@ =~= old(buffer)@.skip(start as int));
    let end = match find_marker(buffer, END_OF_IMAGE) {
        Some(end) => end,
        None => {
            return None;
        },
    };
    let ghost bytes = buffer@;
    assert(end + 1 < buffer.len());
    let mut frame = buffer.split_off(end + 2);
    std::mem::swap(&mut frame, buffer);
    assert(frame@ =~= bytes.take(end + 2));
    assert(buffer@ =~= bytes.skip(end + 2));
    Some(frame)
}

/// Adds bytes to a buffer; too large a buffer keeps its last bytes only.
pub fn absorb(buffer: &mut Vec<u8>, chunk: &Vec<u8>)
    requires
        old(buffer).len() + chunk.len() <= usize::MAX,
    ensures
        final(buffer)@ == absorbed(old(buffer)@, chunk@),
        final(buffer).len() <= BUFFER_LIMIT,
{
    let mut i: usize = 0;
    while i < chunk.len()
        invariant
            i <= chunk.len(),
            buffer@ == old(buffer)@ + chunk@.take(i as int),
        decreases chunk.len() - i,
    {
        buffer.push(chunk[i]);
        i += 1;
        assert(chunk@.take(i as int) =~= chunk@.take(i - 1).push(chunk@[i - 1]));
    }
    assert(buffer@ =~= old(buffer)@ + chunk@);
    if buffer.len() > BUFFER_LIMIT {
        let keep_from: usize = buffer.len() - BUFFER_KEPT;
        let rest = buffer.split_off(keep_from);
        *buffer = rest;
        assert(buffer@ =~= (old(buffer)@ + chunk@).skip(keep_from as int));
    }
}

/// What follows a read from the stream.
#[derive(Debug)]
pub enum FrameStep {
    /// An image is there.
    Frame(Vec<u8>),
    /// More bytes have to be read.
    More,
    /// The stream is at its end, and no image is left.
    Finished,
}

/// The outcome of a read that gave `chunk`; no bytes mean the end of the stream.
pub open spec fn fed(before: Seq<u8>, chunk: Seq<u8>, step: FrameStep, after: Seq<u8>) -> bool {
    let held = if chunk.len() == 0 {
        before
    } else {
        absorbed(before, chunk)
    };
    match step {
        FrameStep::Frame(frame) => extracted(held, Some(frame@), after),
        FrameStep::More => chunk.len() > 0 && extracted(held, None, after),
        FrameStep::Finished => chunk.len() == 0 && extracted(held, None, after),
    }
}

/// Takes in what a read gave, and says what follows; no bytes mean the end of the
/// stream.
pub fn feed(buffer: &mut Vec<u8>, chunk: &Vec<u8>) -> (r: FrameStep)
    requires
        old(buffer).len() + chunk.len() <= usize::MAX,
    ensures
        fed(old(buffer)@, chunk@, r, final(buffer)@),
        old(buffer).len() <= BUFFER_LIMIT ==> final(buffer).len() <= BUFFER_LIMIT,
{
    if chunk.len() == 0 {
        return match extract_jpeg_frame(buffer) {
            Some(frame) => FrameStep::Frame(frame),
            None => FrameStep::Finished,
        };
    }
    absorb(buffer, chunk);
    match extract_jpeg_frame(buffer) {
        Some(frame) => FrameStep::Frame(frame),
        None => FrameStep::More,
    }
}

/// Only one image can come out of a buffer, and only one buffer can be left.
pub proof fn one_extraction(
    before: Seq<u8>,
    frame: Option<Seq<u8>>,
    after: Seq<u8>,
    other_frame: Option<Seq<u8>>,
    other_after: Seq<u8>,
)
    requires
        extracted(before, frame, after),
        extracted(before, other_frame, other_after),
    ensures
        frame == other_frame,
        after == other_after,
{
    if !no_marker(before, START_OF_IMAGE) {
        let start = choose|start: int|
            {
                &&& #[trigger] first_marker_at(before, START_OF_IMAGE, start)
                &&& cut_at_end(before.skip(start), frame, after)
            };
        let other = choose|other: int|
            {
                &&& #[trigger] first_marker_at(before, START_OF_IMAGE, other)
                &&& cut_at_end(before.skip(other), other_frame, other_after)
            };
        assert(marker_at(before, START_OF_IMAGE, start) && marker_at(
            before,
            START_OF_IMAGE,
            other,
        ));
        assert(start == other);
        let bytes = before.skip(start);
        if !no_marker(bytes, END_OF_IMAGE) {
            let end = choose|end: int|
                {
                    &&& #[trigger] first_marker_at(bytes, END_OF_IMAGE, end)
                    &&& frame == Some(bytes.take(end + 2))
                    &&& after == bytes.skip(end + 2)
                };
            let other_end = choose|end: int|
                {
                    &&& #[trigger] first_marker_at(bytes, END_OF_IMAGE, end)
                    &&& other_frame == Some(bytes.take(end + 2))
                    &&& other_after == bytes.skip(end + 2)
                };
            assert(marker_at(bytes, END_OF_IMAGE, end) && marker_at(
                bytes,
                END_OF_IMAGE,
                other_end,
            ));
            assert(end == other_end);
        }
    }
}

/// What comes out of a buffer is an image, and the buffer was some bytes without a
/// start marker, the image, and what is left.
pub proof fn frames_are_images(before: Seq<u8>, frame: Seq<u8>, after: Seq<u8>)
    requires
        extracted(before, Some(frame), after),
    ensures
        image(frame),
        exists|dropped: Seq<u8>|
            before == #[trigger] (dropped + frame) + after && no_marker(dropped, START_OF_IMAGE),
{
    let start = choose|start: int|
        {
            &&& #[trigger] first_marker_at(before, START_OF_IMAGE, start)
            &&& cut_at_end(before.skip(start), Some(frame), after)
        };
    let bytes = before.skip(start);
    let end = choose|end: int|
        {
            &&& #[trigger] first_marker_at(bytes, END_OF_IMAGE, end)
            &&& frame == bytes.take(end + 2)
            &&& after == bytes.skip(end + 2)
        };
    assert(marker_at(before, START_OF_IMAGE, start));
    assert(marker_at(bytes, END_OF_IMAGE, end));
    assert(bytes[0] == before[start] && bytes[1] == before[start + 1]);
    assert forall|at: int| 0 <= at < end implies !#[trigger] marker_at(frame, END_OF_IMAGE, at) by {
        assert(!marker_at(bytes, END_OF_IMAGE, at));
    }
    let dropped = before.take(start);
    assert(before =~= (dropped + frame) + after);
    assert forall|at: int| !#[trigger] marker_at(dropped, START_OF_IMAGE, at) by {
        assert(!(0 <= at < start) || !marker_at(before, START_OF_IMAGE, at));
    }
}

/// An image that follows bytes without a start marker comes out whole, and what
/// follows it is left.
pub proof fn images_come_out(dropped: Seq<u8>, frame: Seq<u8>, after: Seq<u8>)
    requires
        image(frame),
        no_marker(dropped + frame.take(1), START_OF_IMAGE),
    ensures
        extracted((dropped + frame) + after, Some(frame), after),
{
    let before = (dropped + frame) + after;
    let start = dropped.len() as int;
    let bytes = before.skip(start);
    assert(bytes =~= frame + after);
    assert forall|at: int| 0 <= at < start implies !#[trigger] marker_at(
        before,
        START_OF_IMAGE,
        at,
    ) by {
        assert(!marker_at(dropped + frame.take(1), START_OF_IMAGE, at));
        assert((dropped + frame.take(1))[at] == before[at]);
        assert((dropped + frame.take(1))[at + 1] == before[at + 1]);
    }
    assert(first_marker_at(before, START_OF_IMAGE, start));
    let end = frame.len() - 2;
    assert(marker_at(frame, END_OF_IMAGE, end));
    assert forall|at: int| 0 <= at < end implies !#[trigger] marker_at(bytes, END_OF_IMAGE, at) by {
        assert(!marker_at(frame, END_OF_IMAGE, at));
    }
    assert(first_marker_at(bytes, END_OF_IMAGE, end));
    assert(bytes.take(end + 2) =~= frame);
    assert(bytes.skip(end + 2) =~= after);
    assert(cut_at_end(bytes, Some(frame), after));
}

/// A buffer that gave no image gives none until bytes are added, and stays as it
/// was left.
pub proof fn nothing_left_to_extract(before: Seq<u8>, after: Seq<u8>)
    requires
        extracted(before, None, after),
    ensures
        extracted(after, None, after),
{
    if !no_marker(before, START_OF_IMAGE) {
        let start = choose|start: int|
            {
                &&& #[trigger] first_marker_at(before, START_OF_IMAGE, start)
                &&& cut_at_end(before.skip(start), None, after)
            };
        assert(marker_at(before, START_OF_IMAGE, start));
        assert(after == before.skip(start));
        assert(after[0] == before[start] && after[1] == before[start + 1]);
        assert(first_marker_at(after, START_OF_IMAGE, 0));
        assert(after.skip(0) =~= after);
        assert(cut_at_end(after.skip(0), None, after));
    }
}

/// The first marker stays where it is when bytes are added.
proof fn lemma_first_marker_stays(bytes: Seq<u8>, code: u8, at: int, more: Seq<u8>)
    requires
        first_marker_at(bytes, code, at),
    ensures
        first_marker_at(bytes + more, code, at),
{
    assert(marker_at(bytes, code, at));
    assert forall|before: int| 0 <= before < at implies !#[trigger] marker_at(
        bytes + more,
        code,
        before,
    ) by {
        assert(!marker_at(bytes, code, before));
    }
}

/// An image that is whole comes out the same, whatever is read behind it.
pub proof fn later_bytes_do_not_matter(
    before: Seq<u8>,
    frame: Seq<u8>,
    after: Seq<u8>,
    more: Seq<u8>,
)
    requires
        extracted(before, Some(frame), after),
    ensures
        extracted(before + more, Some(frame), after + more),
{
    let start = choose|start: int|
        {
            &&& #[trigger] first_marker_at(before, START_OF_IMAGE, start)
            &&& cut_at_end(before.skip(start), Some(frame), after)
        };
    let bytes = before.skip(start);
    let end = choose|end: int|
        {
            &&& #[trigger] first_marker_at(bytes, END_OF_IMAGE, end)
            &&& frame == bytes.take(end + 2)
            &&& after == bytes.skip(end + 2)
        };
    assert(marker_at(before, START_OF_IMAGE, start) && marker_at(bytes, END_OF_IMAGE, end));
    lemma_first_marker_stays(before, START_OF_IMAGE, start, more);
    lemma_first_marker_stays(bytes, END_OF_IMAGE, end, more);
    assert((before + more).skip(start) =~= bytes + more);
    assert((bytes + more).take(end + 2) =~= frame);
    assert((bytes + more).skip(end + 2) =~= after + more);
    assert(cut_at_end(bytes + more, Some(frame), after + more));
}

/// What is dropped before an unfinished image is not missed: with the bytes that
/// come later, the same image comes out, and the same bytes are left.
pub proof fn dropped_bytes_are_not_missed(
    before: Seq<u8>,
    after: Seq<u8>,
    more: Seq<u8>,
    frame: Option<Seq<u8>>,
    rest: Seq<u8>,
)
    requires
        extracted(before, None, after),
        extracted(after + more, frame, rest),
    ensures
        extracted(before + more, frame, rest),
{
    if !no_marker(before, START_OF_IMAGE) {
        let start = choose|start: int|
            {
                &&& #[trigger] first_marker_at(before, START_OF_IMAGE, start)
                &&& cut_at_end(before.skip(start), None, after)
            };
        assert(marker_at(before, START_OF_IMAGE, start));
        assert(after == before.skip(start));
        lemma_first_marker_stays(before, START_OF_IMAGE, start, more);
        assert((before + more).skip(start) =~= after + more);
        assert(marker_at(after + more, START_OF_IMAGE, 0));
        let found = choose|found: int|
            {
                &&& #[trigger] first_marker_at(after + more, START_OF_IMAGE, found)
                &&& cut_at_end((after + more).skip(found), frame, rest)
            };
        assert(marker_at(after + more, START_OF_IMAGE, found));
        assert(found == 0);
        assert((after + more).skip(0) =~= after + more);
        assert(cut_at_end((before + more).skip(start), frame, rest));
    }
}

/// What the next read gives; no bytes mean the end of the stream.
pub open spec fn next_read(chunks: Seq<Seq<u8>>) -> Seq<u8> {
    if chunks.len() == 0 {
        Seq::empty()
    } else {
        chunks[0]
    }
}

/// What reading on comes to, for a buffer that holds no whole image: `chunks` are
/// the reads until the stream is at its end, `read` is how many of them were
/// taken, `frame` is the image, and `rest` is what is left in the buffer.
pub open spec fn reads_on(
    buffer: Seq<u8>,
    chunks: Seq<Seq<u8>>,
    read: int,
    frame: Option<Seq<u8>>,
    rest: Seq<u8>,
) -> bool
    decreases chunks.len(),
{
    exists|step: FrameStep, after: Seq<u8>|
        {
            &&& #[trigger] fed(buffer, next_read(chunks), step, after)
            &&& match step {
                FrameStep::Frame(image) => {
                    &&& frame == Some(image@)
                    &&& rest == after
                    &&& read == if chunks.len() == 0 {
                        0int
                    } else {
                        1
                    }
                },
                FrameStep::Finished => frame is None && rest == after && read == 0,
                FrameStep::More => chunks.len() > 0 && reads_on(
                    after,
                    chunks.drop_first(),
                    read - 1,
                    frame,
                    rest,
                ),
            }
        }
}

/// What waiting for the next image comes to: it is taken out of the buffer where
/// the buffer holds it whole, and else the stream is read on.
pub open spec fn next_frame(
    buffer: Seq<u8>,
    chunks: Seq<Seq<u8>>,
    read: int,
    frame: Option<Seq<u8>>,
    rest: Seq<u8>,
) -> bool {
    ||| frame is Some && read == 0 && extracted(buffer, frame, rest)
    ||| exists|after: Seq<u8>| #[trigger]
        extracted(buffer, None, after) && reads_on(after, chunks, read, frame, rest)
}

/// Reading on gives the image that all bytes together hold.
proof fn lemma_reads_on(
    buffer: Seq<u8>,
    chunks: Seq<Seq<u8>>,
    read: int,
    frame: Option<Seq<u8>>,
    rest: Seq<u8>,
)
    requires
        extracted(buffer, None, buffer),
        reads_on(buffer, chunks, read, frame, rest),
        forall|i: int| 0 <= i < chunks.len() ==> (#[trigger] chunks[i]).len() > 0,
        (buffer + chunks.flatten()).len() <= BUFFER_LIMIT,
    ensures
        0 <= read <= chunks.len(),
        frame is None ==> read == chunks.len(),
        extracted(buffer + chunks.flatten(), frame, rest + chunks.skip(read).flatten()),
    decreases chunks.len(),
{
    let chunk = next_read(chunks);
    let (step, after) = choose|step: FrameStep, after: Seq<u8>|
        {
            &&& #[trigger] fed(buffer, next_read(chunks), step, after)
            &&& match step {
                FrameStep::Frame(image) => {
                    &&& frame == Some(image@)
                    &&& rest == after
                    &&& read == if chunks.len() == 0 {
                        0int
                    } else {
                        1
                    }
                },
                FrameStep::Finished => frame is None && rest == after && read == 0,
                FrameStep::More => chunks.len() > 0 && reads_on(
                    after,
                    chunks.drop_first(),
                    read - 1,
                    frame,
                    rest,
                ),
            }
        };
    if chunks.len() == 0 {
        assert(chunks.flatten() =~= Seq::<u8>::empty());
        assert(chunks.skip(0).flatten() =~= Seq::<u8>::empty());
        assert(buffer + chunks.flatten() =~= buffer);
        assert(rest + chunks.skip(0).flatten() =~= rest);
        match step {
            FrameStep::Frame(image) => {
                one_extraction(buffer, None, buffer, Some(image@), after);
            },
            _ => {},
        }
    } else {
        let later = chunks.drop_first();
        let more = later.flatten();
        let held = buffer + chunk;
        assert(chunks[0].len() > 0);
        assert(chunks.flatten() == chunk + more);
        assert(buffer + chunks.flatten() =~= held + more);
        assert(absorbed(buffer, chunk) == held);
        match step {
            FrameStep::Frame(image) => {
                later_bytes_do_not_matter(held, image@, after, more);
                assert(chunks.skip(1) =~= later);
            },
            FrameStep::More => {
                nothing_left_to_extract(held, after);
                assert(after.len() <= held.len()) by {
                    lemma_nothing_is_added(held, after);
                }
                assert forall|i: int| 0 <= i < later.len() implies (#[trigger] later[i]).len()
                    > 0 by {
                    assert(later[i] == chunks[i + 1]);
                }
                lemma_reads_on(after, later, read - 1, frame, rest);
                let left = rest + later.skip(read - 1).flatten();
                dropped_bytes_are_not_missed(held, after, more, frame, left);
                assert(chunks.skip(read) =~= later.skip(read - 1));
            },
            FrameStep::Finished => {},
        }
    }
}

/// A buffer that gave no image is not longer than before.
proof fn lemma_nothing_is_added(before: Seq<u8>, after: Seq<u8>)
    requires
        extracted(before, None, after),
    ensures
        after.len() <= before.len(),
{
    if !no_marker(before, START_OF_IMAGE) {
        let start = choose|start: int|
            {
                &&& #[trigger] first_marker_at(before, START_OF_IMAGE, start)
                &&& cut_at_end(before.skip(start), None, after)
            };
        assert(marker_at(before, START_OF_IMAGE, start));
    }
}

/// The next image is the one that a single extraction on all bytes gives, those of
/// the buffer and those of the stream to its end, however the stream is cut into
/// reads; what is left then is the rest of the buffer and the reads not taken.
/// There is no image only once every read was taken, and nothing is read where the
/// buffer holds a whole image. This holds as long as the buffer need not be cut.
pub proof fn next_frame_is_the_first_of_the_stream(
    buffer: Seq<u8>,
    chunks: Seq<Seq<u8>>,
    read: int,
    frame: Option<Seq<u8>>,
    rest: Seq<u8>,
)
    requires
        next_frame(buffer, chunks, read, frame, rest),
        forall|i: int| 0 <= i < chunks.len() ==> (#[trigger] chunks[i]).len() > 0,
        (buffer + chunks.flatten()).len() <= BUFFER_LIMIT,
    ensures
        0 <= read <= chunks.len(),
        extracted(buffer + chunks.flatten(), frame, rest + chunks.skip(read).flatten()),
        frame is None ==> read == chunks.len(),
        (exists|image: Seq<u8>, after: Seq<u8>| #[trigger]
            extracted(buffer, Some(image), after)) ==> read == 0 && frame is Some,
{
    let all = chunks.flatten();
    if frame is Some && read == 0 && extracted(buffer, frame, rest) {
        later_bytes_do_not_matter(buffer, frame->0, rest, all);
        assert(chunks.skip(0) =~= chunks);
    } else {
        let after = choose|after: Seq<u8>| #[trigger]
            extracted(buffer, None, after) && reads_on(after, chunks, read, frame, rest);
        nothing_left_to_extract(buffer, after);
        lemma_nothing_is_added(buffer, after);
        lemma_reads_on(after, chunks, read, frame, rest);
        dropped_bytes_are_not_missed(
            buffer,
            after,
            all,
            frame,
            rest + chunks.skip(read).flatten(),
        );
        if exists|image: Seq<u8>, left: Seq<u8>| #[trigger] extracted(buffer, Some(image), left) {
            let (image, left) = choose|image: Seq<u8>, left: Seq<u8>| #[trigger]
                extracted(buffer, Some(image), left);
            one_extraction(buffer, None, after, Some(image), left);
        }
    }
}

} // verus!
