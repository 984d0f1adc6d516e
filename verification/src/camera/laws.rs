//! What holds of every source of frames, and of every stream of images.

use vstd::prelude::*;

use crate::camera::cli::{
    camera_words, chosen, mode_count, video_words, words, PublishArgs, SourceMode,
};
use crate::camera::frames::{
    elapsed, follows, next_image, number_behind, over, CameraFrame, ImageStep, StreamAction,
    StreamEvent,
};
use crate::camera::jpeg::{
    absorbed, cut_at_end, extracted, fed, first_marker_at, image, images_come_out, marker_at,
    no_marker, one_extraction, FrameStep, END_OF_IMAGE, START_OF_IMAGE,
};
use crate::camera::receive::{answers_with, file_name, latest_after, LatestAnswer};
use crate::text::decimal;
use crate::text_laws::{number_of, numbers_are_printed_as_they_are};

verus! {

/// For all arguments the word that follows `-i` is the camera device, the one that
/// follows `-framerate` is the number of frames per second, and the one that follows
/// `-video_size` is the width, an `x` and the height. No earlier word is `-i`.
pub proof fn camera_words_follow_their_names(arguments: Seq<String>, args: PublishArgs)
    requires
        words(arguments) == camera_words(args),
    ensures
        arguments.len() == 16,
        forall|k: int| 0 <= k < 9 ==> (#[trigger] arguments[k])@ != "-i"@,
        arguments[9]@ == "-i"@,
        arguments[10]@ == args.camera_device@,
        arguments[5]@ == "-framerate"@,
        number_of(arguments[6]@) == args.fps,
        arguments[7]@ == "-video_size"@,
        arguments[8]@ == decimal(args.width as nat) + "x"@ + decimal(args.height as nat),
        number_of(decimal(args.width as nat)) == args.width,
        number_of(decimal(args.height as nat)) == args.height,
{
    numbers_are_printed_as_they_are(args.fps as nat);
    numbers_are_printed_as_they_are(args.width as nat);
    numbers_are_printed_as_they_are(args.height as nat);
    assert(words(arguments).len() == arguments.len());
    assert(camera_words(args).len() == 16);
    assert forall|k: int| 0 <= k < 16 implies (#[trigger] arguments[k])@ == camera_words(
        args,
    )[k] by {
        assert(words(arguments)[k] == arguments[k]@);
    }
    reveal_strlit("-hide_banner");
    reveal_strlit("-loglevel");
    reveal_strlit("error");
    reveal_strlit("-f");
    reveal_strlit("v4l2");
    reveal_strlit("-framerate");
    reveal_strlit("-video_size");
    reveal_strlit("-i");
    assert forall|k: int| 0 <= k < 9 implies (#[trigger] arguments[k])@ != "-i"@ by {
        let word = arguments[k]@;
        if k == 3 {
            assert(word[1] == 'f');
        } else if k == 6 {
            assert(word == decimal(args.fps as nat));
            assert('0' <= word[0]);
            assert("-i"@[0] == '-');
        } else if k == 8 {
            assert(word[0] == decimal(args.width as nat)[0]);
            assert('0' <= decimal(args.width as nat)[0]);
            assert("-i"@[0] == '-');
        } else {
            assert(word.len() != 2);
        }
    }
}

/// Two sets of arguments that differ in the device, the number of frames per
/// second, the width or the height give different words; nothing else of the
/// arguments matters.
pub proof fn camera_words_tell_cameras_apart(a: PublishArgs, b: PublishArgs)
    ensures
        a.camera_device@ != b.camera_device@ ==> camera_words(a) != camera_words(b),
        a.fps != b.fps ==> camera_words(a) != camera_words(b),
        a.height == b.height && a.width != b.width ==> camera_words(a) != camera_words(b),
        a.width == b.width && a.height != b.height ==> camera_words(a) != camera_words(b),
        a.camera_device@ == b.camera_device@ && a.fps == b.fps && a.width == b.width && a.height
            == b.height ==> camera_words(a) == camera_words(b),
{
    numbers_are_printed_as_they_are(a.fps as nat);
    numbers_are_printed_as_they_are(b.fps as nat);
    numbers_are_printed_as_they_are(a.width as nat);
    numbers_are_printed_as_they_are(b.width as nat);
    numbers_are_printed_as_they_are(a.height as nat);
    numbers_are_printed_as_they_are(b.height as nat);
    if camera_words(a) == camera_words(b) {
        assert(camera_words(a)[10] == camera_words(b)[10]);
        assert(camera_words(a)[6] == camera_words(b)[6]);
        assert(camera_words(a)[8] == camera_words(b)[8]);
        let (aw, ah) = (decimal(a.width as nat), decimal(a.height as nat));
        let (bw, bh) = (decimal(b.width as nat), decimal(b.height as nat));
        assert(aw + "x"@ + ah == bw + "x"@ + bh);
        if a.height == b.height {
            let x = aw + "x"@ + ah;
            let y = bw + "x"@ + bh;
            assert(aw.len() == bw.len());
            assert(aw =~= x.take(aw.len() as int));
            assert(bw =~= y.take(bw.len() as int));
        }
        if a.width == b.width {
            let x = aw + "x"@ + ah;
            let y = bw + "x"@ + bh;
            assert(ah =~= x.skip((aw.len() + "x"@.len()) as int));
            assert(bh =~= y.skip((bw.len() + "x"@.len()) as int));
        }
    }
}

/// For every path the word that follows `-i` is the path, and no earlier word is
/// `-i`; so different videos give different words.
pub proof fn video_words_name_the_video(arguments: Seq<String>, path: Seq<char>, other: Seq<char>)
    requires
        words(arguments) == video_words(path),
    ensures
        arguments.len() == 11,
        forall|k: int| 0 <= k < 4 ==> (#[trigger] arguments[k])@ != "-i"@,
        arguments[4]@ == "-i"@,
        arguments[5]@ == path,
        path != other ==> video_words(path) != video_words(other),
{
    assert(words(arguments).len() == arguments.len());
    assert(video_words(path).len() == 11);
    assert forall|k: int| 0 <= k < 11 implies (#[trigger] arguments[k])@ == video_words(
        path,
    )[k] by {
        assert(words(arguments)[k] == arguments[k]@);
    }
    reveal_strlit("-hide_banner");
    reveal_strlit("-loglevel");
    reveal_strlit("error");
    reveal_strlit("-re");
    reveal_strlit("-i");
    assert forall|k: int| 0 <= k < 4 implies (#[trigger] arguments[k])@ != "-i"@ by {
        assert(arguments[k]@ == video_words(path)[k]);
        assert(arguments[k]@.len() != 2);
    }
    assert(video_words(path)[5] == path && video_words(other)[5] == other);
}

/// The images of a camera and those of a video come in the same form: both lists of
/// words are quiet but for errors, and end with the same five words.
pub proof fn both_streams_have_one_form(args: PublishArgs, path: Seq<char>)
    ensures
        camera_words(args).take(3) == seq!["-hide_banner"@, "-loglevel"@, "error"@],
        video_words(path).take(3) == camera_words(args).take(3),
        camera_words(args).skip(11) == seq!["-f"@, "image2pipe"@, "-vcodec"@, "mjpeg"@, "-"@],
        video_words(path).skip(6) == camera_words(args).skip(11),
        camera_words(args).subrange(3, 5) == seq!["-f"@, "v4l2"@],
        video_words(path)[3] == "-re"@,
{
}

/// There is at most one source exactly where no two are named.
pub proof fn sources_exclude_each_other(args: PublishArgs)
    ensures
        mode_count(args) <= 1 <==> !(args.image is Some && args.video is Some) && !(
        args.image is Some && args.camera) && !(args.video is Some && args.camera),
        mode_count(args) == 0 <==> args.image is None && args.video is None && !args.camera,
{
}

/// The time that has passed is that between the two readings, and none where the
/// clock ran backwards.
pub proof fn time_passes_from_the_start(started: u128, now: u128, passed: nat)
    ensures
        now == started + passed ==> elapsed(started, now) == passed,
        now <= started ==> elapsed(started, now) == 0,
{
}

/// Frames come from the image where one is named, from the video where one is named
/// and no image is, and from the camera otherwise, be it named or not.
pub proof fn sources_are_chosen(args: PublishArgs, mode: SourceMode)
    requires
        chosen(args, mode),
    ensures
        args.image matches Some(path) ==> mode == SourceMode::Image(path),
        args.image is None ==> (args.video matches Some(path) ==> mode == SourceMode::Video(path)),
        args.image is None && args.video is None ==> mode is Camera,
{
}

/// An image is published exactly as often as is asked for, with numbers from zero on,
/// and with the pause between any two frames and nowhere else.
pub proof fn images_are_published_as_often_as_asked(
    steps: Seq<ImageStep>,
    repeat: u64,
    interval_ms: u64,
    i: int,
)
    requires
        forall|k: int|
            0 <= k < steps.len() ==> #[trigger] steps[k] == next_image(
                k as u64,
                repeat,
                interval_ms,
            ),
        steps.len() == repeat + 1,
        0 <= i < steps.len(),
    ensures
        steps[i] is Done <==> i == repeat,
        i < repeat ==> (steps[i] matches ImageStep::Publish { sequence, pause_ms } && sequence == i
            && (pause_ms == if i + 1 < repeat {
            Some(interval_ms)
        } else {
            None
        })),
{
}

/// A stream without a limit is never over; one with a limit is over exactly from so
/// many seconds after its start on, and at once where that is none.
pub proof fn streams_end_in_time(started: u128, secs: u64, now: u128)
    ensures
        !over(started, None, now),
        secs > 0 ==> (over(started, Some(secs), now) <==> now >= started + 1000 * secs),
        over(started, Some(0), now),
{
}

/// Every frame of a stream is published, with its bytes as they are and the next
/// number; an interruption and the end stop the stream.
pub proof fn every_frame_is_published(event: StreamEvent, sequence: u64, action: StreamAction)
    requires
        follows(event, sequence, action),
    ensures
        event matches StreamEvent::Frame(frame) ==> (
        action matches StreamAction::Publish { sequence: number, data } && number == sequence
            && data@ == frame@),
        event is Interrupted ==> action is Stop,
        event is Ended ==> action is Stop,
{
}

/// The frames of a stream are numbered from zero on without a gap.
pub proof fn frames_are_numbered_without_gaps(numbers: Seq<u64>, i: int)
    requires
        numbers.len() > 0,
        numbers[0] == 0,
        numbers.len() <= u64::MAX,
        forall|k: int|
            0 <= k && k + 1 < numbers.len() ==> numbers[k + 1] == number_behind(
                #[trigger] numbers[k],
            ),
        0 <= i < numbers.len(),
    ensures
        numbers[i] == i,
    decreases i,
{
    if i > 0 {
        frames_are_numbered_without_gaps(numbers, i - 1);
        assert(numbers[i - 1 + 1] == number_behind(numbers[i - 1]));
    }
}

/// The latest frame is the last one that was written; one that could not be written
/// does not take its place. The viewer answers with its media type and its bytes, and
/// without a frame only where none was written.
pub proof fn the_latest_frame_is_shown(
    latest: Option<CameraFrame>,
    frame: CameraFrame,
    answer: LatestAnswer,
)
    ensures
        latest_after(latest, frame, true) == Some(frame),
        latest_after(latest, frame, false) == latest,
        answers_with(None, answer) ==> answer is NoContent,
        answers_with(Some(frame), answer) ==> (
        answer matches LatestAnswer::Frame { content_type, body } && content_type@ == frame.mime@
            && body@ == frame.data@),
{
}

/// Two numbers with an underscore between them can be told apart.
proof fn lemma_numbers_apart(a: nat, b: nat, c: nat, d: nat)
    requires
        decimal(a) + "_"@ + decimal(b) == decimal(c) + "_"@ + decimal(d),
    ensures
        a == c,
        b == d,
{
    reveal_strlit("_");
    numbers_are_printed_as_they_are(a);
    numbers_are_printed_as_they_are(b);
    numbers_are_printed_as_they_are(c);
    numbers_are_printed_as_they_are(d);
    let this = decimal(a) + "_"@ + decimal(b);
    let that = decimal(c) + "_"@ + decimal(d);
    let (m, n) = (decimal(a).len() as int, decimal(c).len() as int);
    assert(this[m] == '_' && that[n] == '_');
    if m < n {
        assert(that[m] == decimal(c)[m]);
    } else if n < m {
        assert(this[n] == decimal(a)[n]);
    }
    assert(decimal(a) =~= this.take(m));
    assert(decimal(c) =~= that.take(n));
    assert(decimal(b) =~= this.skip(m + 1));
    assert(decimal(d) =~= that.skip(n + 1));
}

/// No frame is written over another of the same source: frames that differ in number
/// or in time go into different files.
pub proof fn frames_go_into_their_own_files(
    source_name: Seq<char>,
    extension: Seq<char>,
    sequence: nat,
    captured_at_ms: nat,
    other_sequence: nat,
    other_time: nat,
)
    requires
        file_name(source_name, sequence, captured_at_ms, extension) == file_name(
            source_name,
            other_sequence,
            other_time,
            extension,
        ),
    ensures
        sequence == other_sequence,
        captured_at_ms == other_time,
{
    let this = file_name(source_name, sequence, captured_at_ms, extension);
    let that = file_name(source_name, other_sequence, other_time, extension);
    let numbers = decimal(sequence) + "_"@ + decimal(captured_at_ms);
    let others = decimal(other_sequence) + "_"@ + decimal(other_time);
    let from = (source_name.len() + "_"@.len()) as int;
    let end = ("."@.len() + extension.len()) as int;
    assert(numbers =~= this.subrange(from, this.len() - end));
    assert(others =~= that.subrange(from, that.len() - end));
    lemma_numbers_apart(sequence, captured_at_ms, other_sequence, other_time);
}

/// A file is named after its source, and ends in the extension.
pub proof fn files_are_named_after_their_source(
    source_name: Seq<char>,
    sequence: nat,
    captured_at_ms: nat,
    extension: Seq<char>,
)
    ensures
        ({
            let name = file_name(source_name, sequence, captured_at_ms, extension);
            &&& source_name.is_prefix_of(name)
            &&& name.skip(name.len() - extension.len()) == extension
            &&& name == source_name + "_"@ + decimal(sequence) + "_"@ + decimal(captured_at_ms)
                + "."@ + extension
        }),
{
    let name = file_name(source_name, sequence, captured_at_ms, extension);
    assert(name.subrange(0, source_name.len() as int) =~= source_name);
    assert(name.skip(name.len() - extension.len()) =~= extension);
}

/// Whether no two neighbouring bytes are `0xFF` and the given byte.
pub open spec fn no_pair(bytes: Seq<u8>, second: u8) -> bool {
    forall|i: int|
        0 <= i && i + 1 < bytes.len() ==> !(#[trigger] bytes[i] == 0xFF && bytes[i + 1] == second)
}

/// A marker is the byte `0xFF` and its code, one behind the other.
pub proof fn markers_are_two_bytes(before: Seq<u8>, code: u8, after: Seq<u8>)
    ensures
        marker_at((before + seq![0xFFu8, code]) + after, code, before.len() as int),
        no_marker(before, code) <==> no_pair(before, code),
        no_pair(before + seq![0xFFu8], code) ==> first_marker_at(
            (before + seq![0xFFu8, code]) + after,
            code,
            before.len() as int,
        ),
{
    let all = (before + seq![0xFFu8, code]) + after;
    if no_marker(before, code) {
        assert forall|i: int| 0 <= i && i + 1 < before.len() implies !(#[trigger] before[i] == 0xFF
            && before[i + 1] == code) by {
            assert(!marker_at(before, code, i));
        }
    }
    if no_pair(before + seq![0xFFu8], code) {
        let start = before + seq![0xFFu8];
        assert forall|at: int| 0 <= at < before.len() implies !#[trigger] marker_at(
            all,
            code,
            at,
        ) by {
            assert(start[at] == all[at] && start[at + 1] == all[at + 1]);
        }
    }
}

/// A marker that stands in some bytes is the byte `0xFF` and its code there.
pub proof fn markers_are_nothing_else(bytes: Seq<u8>, code: u8, at: int)
    requires
        marker_at(bytes, code, at),
    ensures
        0 <= at,
        at + 1 < bytes.len(),
        bytes[at] == 0xFF,
        bytes[at + 1] == code,
{
}

/// The first marker is unique.
pub proof fn one_first_marker(bytes: Seq<u8>, code: u8, at: int, other: int)
    requires
        first_marker_at(bytes, code, at),
        first_marker_at(bytes, code, other),
    ensures
        at == other,
        no_pair(bytes.take(at + 1), code),
{
    assert(marker_at(bytes, code, at) && marker_at(bytes, code, other));
    let start = bytes.take(at + 1);
    assert forall|i: int| 0 <= i && i + 1 < start.len() implies !(#[trigger] start[i] == 0xFF
        && start[i + 1] == code) by {
        assert(!marker_at(bytes, code, i));
    }
}

/// The image with this body: the bytes `FF D8`, the body, and the bytes `FF D9`.
pub open spec fn image_of(body: Seq<u8>) -> Seq<u8> {
    (seq![0xFFu8, 0xD8u8] + body) + seq![0xFFu8, 0xD9u8]
}

/// The bytes `FF D8`, any body without the bytes `FF D9` in it, and the bytes
/// `FF D9` are an image.
pub proof fn bodies_make_images(body: Seq<u8>)
    requires
        no_pair(body + seq![0xFFu8], 0xD9),
    ensures
        image(image_of(body)),
{
    let bytes = image_of(body);
    let tail = body + seq![0xFFu8];
    let end = bytes.len() - 2;
    assert(marker_at(bytes, START_OF_IMAGE, 0));
    assert(marker_at(bytes, END_OF_IMAGE, end));
    assert forall|at: int| 0 <= at < end implies !#[trigger] marker_at(
        bytes,
        END_OF_IMAGE,
        at,
    ) by {
        if at >= 2 {
            assert(tail[at - 2] == bytes[at]);
            assert(tail[at - 2 + 1] == bytes[at + 1]);
        }
    }
}

/// Every image is the bytes `FF D8`, a body without the bytes `FF D9` in it, and
/// the bytes `FF D9`.
pub proof fn images_have_bodies(bytes: Seq<u8>) -> (body: Seq<u8>)
    requires
        image(bytes),
    ensures
        bytes == image_of(body),
        no_pair(body + seq![0xFFu8], 0xD9),
{
    let end = bytes.len() - 2;
    assert(marker_at(bytes, START_OF_IMAGE, 0));
    assert(marker_at(bytes, END_OF_IMAGE, end));
    assert(end >= 2);
    let body = bytes.subrange(2, end);
    assert(bytes =~= image_of(body));
    let tail = body + seq![0xFFu8];
    assert forall|i: int| 0 <= i && i + 1 < tail.len() implies !(#[trigger] tail[i] == 0xFF
        && tail[i + 1] == 0xD9) by {
        assert(!marker_at(bytes, END_OF_IMAGE, i + 2));
        assert(tail[i] == bytes[i + 2] && tail[i + 1] == bytes[i + 3]);
    }
    body
}

/// An image comes out of a buffer whole, whatever stands before it and behind it, as
/// long as no image starts earlier: nothing of it is missing and nothing is added,
/// what stood before it is gone, and what stands behind it is left.
pub proof fn whole_images_are_taken(
    dropped: Seq<u8>,
    body: Seq<u8>,
    behind: Seq<u8>,
    frame: Option<Seq<u8>>,
    after: Seq<u8>,
)
    requires
        no_pair(dropped + seq![0xFFu8], 0xD8),
        no_pair(body + seq![0xFFu8], 0xD9),
        extracted((dropped + image_of(body)) + behind, frame, after),
    ensures
        frame == Some(image_of(body)),
        after == behind,
{
    bodies_make_images(body);
    markers_are_two_bytes(dropped + seq![0xFFu8], START_OF_IMAGE, Seq::empty());
    assert(image_of(body).take(1) =~= seq![0xFFu8]);
    images_come_out(dropped, image_of(body), behind);
    one_extraction(
        (dropped + image_of(body)) + behind,
        frame,
        after,
        Some(image_of(body)),
        behind,
    );
}

/// Without the bytes `FF D8` there is no image, and every byte stays.
pub proof fn bytes_without_a_start_stay(
    before: Seq<u8>,
    frame: Option<Seq<u8>>,
    after: Seq<u8>,
)
    requires
        no_pair(before, 0xD8),
        extracted(before, frame, after),
    ensures
        frame is None,
        after == before,
{
    markers_are_two_bytes(before, START_OF_IMAGE, Seq::empty());
    assert(extracted(before, None, before));
    one_extraction(before, frame, after, None, before);
}

/// An image whose end is still missing waits in the buffer from its first byte on;
/// what stood before it is gone.
pub proof fn unfinished_images_wait(
    dropped: Seq<u8>,
    body: Seq<u8>,
    frame: Option<Seq<u8>>,
    after: Seq<u8>,
)
    requires
        no_pair(dropped + seq![0xFFu8], 0xD8),
        no_pair(body, 0xD9),
        extracted((dropped + seq![0xFFu8, 0xD8u8]) + body, frame, after),
    ensures
        frame is None,
        after == seq![0xFFu8, 0xD8u8] + body,
{
    let before = (dropped + seq![0xFFu8, 0xD8u8]) + body;
    let start = dropped.len() as int;
    let bytes = seq![0xFFu8, 0xD8u8] + body;
    markers_are_two_bytes(dropped, START_OF_IMAGE, body);
    assert(first_marker_at(before, START_OF_IMAGE, start));
    assert(before.skip(start) =~= bytes);
    assert forall|at: int| !#[trigger] marker_at(bytes, END_OF_IMAGE, at) by {
        if at >= 2 && at + 1 < bytes.len() {
            assert(body[at - 2] == bytes[at]);
            assert(body[at - 2 + 1] == bytes[at + 1]);
        }
    }
    assert(cut_at_end(before.skip(start), None, bytes));
    assert(extracted(before, None, bytes));
    one_extraction(before, frame, after, None, bytes);
}

/// A buffer keeps every byte in its order up to sixteen mebibytes; a larger one
/// keeps its last half mebibyte.
pub proof fn buffers_keep_their_end(before: Seq<u8>, chunk: Seq<u8>) -> (lost: Seq<u8>)
    ensures
        before + chunk == lost + absorbed(before, chunk),
        before.len() + chunk.len() <= 16 * 1024 * 1024 ==> lost.len() == 0,
        before.len() + chunk.len() > 16 * 1024 * 1024 ==> absorbed(before, chunk).len() == 512
            * 1024,
{
    let all = before + chunk;
    let kept = absorbed(before, chunk);
    let lost = all.take(all.len() - kept.len());
    assert(all =~= lost + kept);
    lost
}

/// A read that gives bytes leads to an image or to another read, and one that gives
/// none to an image or to the end. The image is the one in the buffer with the bytes
/// that were read.
pub proof fn reads_lead_on(before: Seq<u8>, chunk: Seq<u8>, step: FrameStep, after: Seq<u8>)
    requires
        fed(before, chunk, step, after),
        before.len() + chunk.len() <= 16 * 1024 * 1024,
    ensures
        extracted(
            before + chunk,
            match step {
                FrameStep::Frame(frame) => Some(frame@),
                _ => None,
            },
            after,
        ),
        step is Finished ==> chunk.len() == 0,
        step is More ==> chunk.len() > 0,
{
    if chunk.len() == 0 {
        assert(before + chunk =~= before);
    }
}

} // verus!
