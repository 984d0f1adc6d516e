//! The frames that are received: where each is written, and what is shown.

use vstd::prelude::*;

use crate::camera::frames::CameraFrame;
use crate::text::{decimal, decimal_string};

verus! {

/// How the start of the receiver is reported.
pub fn listening_line(topic: &str, out_dir: &str) -> (r: String)
    ensures
        r@ == "Listening for frames on topic '"@ + topic@ + "' and writing into "@ + out_dir@,
{
    let mut r = "Listening for frames on topic '".to_string();
    r.append(topic);
    r.append("' and writing into ");
    r.append(out_dir);
    r
}

/// The name of the file for a frame with this number, captured at this time.
pub open spec fn file_name(
    source_name: Seq<char>,
    sequence: nat,
    captured_at_ms: nat,
    extension: Seq<char>,
) -> Seq<char> {
    source_name + "_"@ + decimal(sequence) + "_"@ + decimal(captured_at_ms) + "."@ + extension
}

/// The name of the file that a frame is written into, given a form of the source
/// that can stand in a file name, and the extension of the frame's media type.
pub fn frame_file_name(source_name: &str, frame: &CameraFrame, extension: &str) -> (r: String)
    ensures
        r@ == source_name@ + "_"@ + decimal(frame.sequence as nat) + "_"@ + decimal(
            frame.captured_at_ms as nat,
        ) + "."@ + extension@,
        r@ == file_name(
            source_name@,
            frame.sequence as nat,
            frame.captured_at_ms as nat,
            extension@,
        ),
{
    let mut r = source_name.to_string();
    r.append("_");
    r.append(&decimal_string(frame.sequence as u128));
    r.append("_");
    r.append(&decimal_string(frame.captured_at_ms));
    r.append(".");
    r.append(extension);
    r
}

/// How a received frame is reported.
pub fn received_line(frame: &CameraFrame, saved: &str) -> (r: String)
    ensures
        r@ == "Received frame source="@ + frame.source@ + " seq="@ + decimal(frame.sequence as nat)
            + " mime="@ + frame.mime@ + " bytes="@ + decimal(frame.data@.len()) + " saved="@
            + saved@,
{
    let mut r = "Received frame source=".to_string();
    r.append(&frame.source);
    r.append(" seq=");
    r.append(&decimal_string(frame.sequence as u128));
    r.append(" mime=");
    r.append(&frame.mime);
    r.append(" bytes=");
    r.append(&decimal_string(frame.data.len() as u128));
    r.append(" saved=");
    r.append(saved);
    r
}

/// The latest frame after one was written to a file, or could not be.
pub open spec fn latest_after(
    latest: Option<CameraFrame>,
    frame: CameraFrame,
    written: bool,
) -> Option<CameraFrame> {
    if written {
        Some(frame)
    } else {
        latest
    }
}

/// What the receiver has: the frame that was written last.
#[derive(Debug)]
pub struct Receiver {
    latest: Option<CameraFrame>,
    print_meta: bool,
}

/// What the viewer answers when it is asked for the latest frame.
#[derive(Debug)]
pub enum LatestAnswer {
    /// There is no frame yet.
    NoContent,
    /// The frame's media type and bytes.
    Frame { content_type: String, body: Vec<u8> },
}

/// Whether the viewer answers with the latest frame, or without one where there is
/// none.
pub open spec fn answers_with(latest: Option<CameraFrame>, answer: LatestAnswer) -> bool {
    match latest {
        Some(frame) => answer matches LatestAnswer::Frame { content_type, body } && content_type@
            == frame.mime@ && body@ == frame.data@,
        None => answer is NoContent,
    }
}

impl Receiver {
    /// The frame that was written last.
    pub closed spec fn latest_frame(&self) -> Option<CameraFrame> {
        self.latest
    }

    /// Whether received frames are reported.
    pub closed spec fn prints(&self) -> bool {
        self.print_meta
    }

    /// A receiver without a frame.
    pub fn new(print_meta: bool) -> (r: Receiver)
        ensures
            r.latest_frame() is None,
            r.prints() == print_meta,
    {
        Receiver { latest: None, print_meta }
    }

    /// Takes a frame after it was written to a file, or could not be. A frame that
    /// was written is the latest, and is reported if the receiver reports frames.
    pub fn frame_saved(&mut self, frame: CameraFrame, saved: &str, written: bool) -> (r: Option<
        String,
    >)
        ensures
            final(self).prints() == old(self).prints(),
            final(self).latest_frame() == if written {
                Some(frame)
            } else {
                old(self).latest_frame()
            },
            final(self).latest_frame() == latest_after(old(self).latest_frame(), frame, written),
            r is Some <==> written && old(self).prints(),
            r matches Some(line) ==> line@ == "Received frame source="@ + frame.source@ + " seq="@
                + decimal(frame.sequence as nat) + " mime="@ + frame.mime@ + " bytes="@ + decimal(
                frame.data@.len(),
            ) + " saved="@ + saved@,
    {
        if !written {
            return None;
        }
        let line = if self.print_meta {
            Some(received_line(&frame, saved))
        } else {
            None
        };
        self.latest = Some(frame);
        line
    }

    /// What the viewer answers when it is asked for the latest frame.
    pub fn latest(&self) -> (r: LatestAnswer)
        ensures
            match r {
                LatestAnswer::NoContent => self.latest_frame() is None,
                LatestAnswer::Frame { content_type, body } => self.latest_frame() matches Some(f)
                    && content_type@ == f.mime@ && body@ == f.data@,
            },
            answers_with(self.latest_frame(), r),
    {
        match &self.latest {
            None => LatestAnswer::NoContent,
            Some(frame) => {
                let body = frame.data.clone();
                assert(body@ =~= frame.data@);
                LatestAnswer::Frame { content_type: frame.mime.clone(), body }
            },
        }
    }
}

/// The address on which the viewer listens.
pub fn viewer_address(host: &str, port: u16) -> (r: String)
    ensures
        r@ == host@ + ":"@ + decimal(port as nat),
{
    let mut r = host.to_string();
    r.append(":");
    r.append(&decimal_string(port as u128));
    r
}

/// The address under which the viewer is seen on this machine.
pub fn viewer_url(port: u16) -> (r: String)
    ensures
        r@ == "http://127.0.0.1:"@ + decimal(port as nat) + "/"@,
{
    let mut r = "http://127.0.0.1:".to_string();
    r.append(&decimal_string(port as u128));
    r.append("/");
    r
}

} // verus!
