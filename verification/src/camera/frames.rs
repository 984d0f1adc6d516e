//! The frames that are published: how each is made, and when.

use vstd::prelude::*;

use crate::camera::cli::PublishArgs;
use crate::text::{decimal, decimal_string};

verus! {

/// A frame as it goes over the bus.
#[derive(Debug)]
pub struct CameraFrame {
    pub source: String,
    pub mime: String,
    pub sequence: u64,
    pub captured_at_ms: u128,
    pub data: Vec<u8>,
}

impl Clone for CameraFrame {
    fn clone(&self) -> (r: Self)
        ensures
            r.source@ == self.source@,
            r.mime@ == self.mime@,
            r.sequence == self.sequence,
            r.captured_at_ms == self.captured_at_ms,
            r.data@ == self.data@,
    {
        let data = self.data.clone();
        assert(data@ =~= self.data@);
        CameraFrame {
            source: self.source.clone(),
            mime: self.mime.clone(),
            sequence: self.sequence,
            captured_at_ms: self.captured_at_ms,
            data,
        }
    }
}

/// The frame with the given number and bytes, captured at the given time.
pub fn camera_frame(
    sequence: u64,
    data: Vec<u8>,
    source: &str,
    mime: &str,
    captured_at_ms: u128,
) -> (r: CameraFrame)
    ensures
        r.source@ == source@,
        r.mime@ == mime@,
        r.sequence == sequence,
        r.captured_at_ms == captured_at_ms,
        r.data == data,
{
    CameraFrame {
        source: source.to_string(),
        mime: mime.to_string(),
        sequence,
        captured_at_ms,
        data,
    }
}

/// How a published frame is reported.
pub fn published_line(frame: &CameraFrame, topic: &str) -> (r: String)
    ensures
        r@ == "Published frame #"@ + decimal(frame.sequence as nat) + " ("@ + decimal(
            frame.data@.len(),
        ) + " bytes) on topic '"@ + topic@ + "'"@,
{
    let mut r = "Published frame #".to_string();
    r.append(&decimal_string(frame.sequence as u128));
    r.append(" (");
    r.append(&decimal_string(frame.data.len() as u128));
    r.append(" bytes) on topic '");
    r.append(topic);
    r.append("'");
    r
}

/// How a frame that could not be published is reported.
pub fn failed_line(sequence: u64, topic: &str) -> (r: String)
    ensures
        r@ == "failed to publish frame #"@ + decimal(sequence as nat) + " to topic "@ + topic@,
{
    let mut r = "failed to publish frame #".to_string();
    r.append(&decimal_string(sequence as u128));
    r.append(" to topic ");
    r.append(topic);
    r
}

/// What is next in publishing an image again and again.
#[derive(Debug, Clone, Copy, PartialEq, Eq, Structural)]
pub enum ImageStep {
    /// Publish a frame with this number, then pause if a time is given.
    Publish { sequence: u64, pause_ms: Option<u64> },
    /// Nothing: all is published.
    Done,
}

/// What is next after some frames of an image were published, of so many that are
/// asked for, with so much time between two of them.
pub open spec fn next_image(published: u64, repeat: u64, interval_ms: u64) -> ImageStep {
    if published >= repeat {
        ImageStep::Done
    } else if published == repeat - 1 {
        ImageStep::Publish { sequence: published, pause_ms: None }
    } else {
        ImageStep::Publish { sequence: published, pause_ms: Some(interval_ms) }
    }
}

/// What is next after some frames of an image were published. There is a pause
/// after every frame but the last.
pub fn image_step(published: u64, args: &PublishArgs) -> (r: ImageStep)
    ensures
        r == if published >= args.repeat {
            ImageStep::Done
        } else {
            ImageStep::Publish {
                sequence: published,
                pause_ms: if published + 1 < args.repeat {
                    Some(args.interval_ms)
                } else {
                    None
                },
            }
        },
        r == next_image(published, args.repeat, args.interval_ms),
{
    if published >= args.repeat {
        return ImageStep::Done;
    }
    let pause_ms = if published + 1 < args.repeat {
        Some(args.interval_ms)
    } else {
        None
    };
    ImageStep::Publish { sequence: published, pause_ms }
}

/// The time since `started`; none where the clock ran backwards.
pub open spec fn elapsed(started: u128, now: u128) -> int {
    if now >= started {
        now - started
    } else {
        0
    }
}

/// What happens while a stream is published.
#[derive(Debug)]
pub enum StreamEvent {
    /// The user interrupts.
    Interrupted,
    /// The stream gives its next frame.
    Frame(Vec<u8>),
    /// The stream is at its end.
    Ended,
}

/// What follows an event.
#[derive(Debug)]
pub enum StreamAction {
    /// Stop the stream.
    Stop,
    /// Publish a frame with this number and these bytes.
    Publish { sequence: u64, data: Vec<u8> },
}

/// Whether a stream is over that started at a time and may last so many seconds.
pub open spec fn over(started: u128, limit_secs: Option<u64>, now: u128) -> bool {
    limit_secs matches Some(secs) && elapsed(started, now) >= secs * 1000
}

/// Whether an action follows an event, where the next frame has this number.
pub open spec fn follows(event: StreamEvent, sequence: u64, action: StreamAction) -> bool {
    match event {
        StreamEvent::Frame(frame) => action matches StreamAction::Publish { sequence: number, data }
            && number == sequence && data@ == frame@,
        _ => action is Stop,
    }
}

/// The number of the frame behind one with this number.
pub open spec fn number_behind(sequence: u64) -> u64 {
    if sequence == u64::MAX {
        sequence
    } else {
        (sequence + 1) as u64
    }
}

/// A stream that is being published.
#[derive(Debug)]
pub struct Stream {
    started_ms: u128,
    limit_secs: Option<u64>,
    sequence: u64,
}

impl Stream {
    /// When the stream started, in milliseconds.
    pub closed spec fn started(&self) -> u128 {
        self.started_ms
    }

    /// For how many seconds the stream may last, if there is a limit.
    pub closed spec fn limit(&self) -> Option<u64> {
        self.limit_secs
    }

    /// The number of the next frame.
    pub closed spec fn next_sequence(&self) -> u64 {
        self.sequence
    }

    /// A stream of which nothing is published.
    pub fn new(started_ms: u128, args: &PublishArgs) -> (r: Stream)
        ensures
            r.started() == started_ms,
            r.limit() == args.duration_secs,
            r.next_sequence() == 0,
    {
        Stream { started_ms, limit_secs: args.duration_secs, sequence: 0 }
    }

    /// Whether the stream's time is over.
    pub fn is_over(&self, now_ms: u128) -> (r: bool)
        ensures
            r <==> (self.limit() matches Some(secs) && elapsed(self.started(), now_ms) >= secs
                * 1000),
            r == over(self.started(), self.limit(), now_ms),
    {
        match self.limit_secs {
            Some(secs) => {
                let elapsed_ms: u128 = if now_ms >= self.started_ms {
                    now_ms - self.started_ms
                } else {
                    0
                };
                elapsed_ms >= secs as u128 * 1000
            },
            None => false,
        }
    }

    /// What follows an event.
    pub fn react(&self, event: StreamEvent) -> (r: StreamAction)
        ensures
            match event {
                StreamEvent::Frame(frame) => r == (StreamAction::Publish {
                    sequence: self.next_sequence(),
                    data: frame,
                }),
                _ => r == StreamAction::Stop,
            },
            follows(event, self.next_sequence(), r),
    {
        match event {
            StreamEvent::Frame(data) => StreamAction::Publish { sequence: self.sequence, data },
            _ => StreamAction::Stop,
        }
    }

    /// Counts a frame that was published; the count stays at its largest value.
    pub fn published(&mut self)
        ensures
            final(self).started() == old(self).started(),
            final(self).limit() == old(self).limit(),
            final(self).next_sequence() == if old(self).next_sequence() == u64::MAX {
                u64::MAX
            } else {
                (old(self).next_sequence() + 1) as u64
            },
            final(self).next_sequence() == number_behind(old(self).next_sequence()),
    {
        if self.sequence < u64::MAX {
            self.sequence += 1;
        }
    }

    /// How the end of the stream is reported.
    pub fn stopped_line(&self) -> (r: String)
        ensures
            r@ == "Stopped streaming after publishing "@ + decimal(self.next_sequence() as nat)
                + " frames"@,
    {
        let mut r = "Stopped streaming after publishing ".to_string();
        r.append(&decimal_string(self.sequence as u128));
        r.append(" frames");
        r
    }
}

} // verus!
