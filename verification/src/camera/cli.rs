//! What the camera node is asked to do.

use vstd::prelude::*;


use crate::text::{decimal, decimal_string};

verus! {

/// The topic that frames go over, where none is given.
pub const DEFAULT_TOPIC: &'static str = "camera/frames";

/// The port on which the relay listens, where none is given.
pub const DEFAULT_PORT: u16 = 8787;

/// The directory that frames are written into, where none is given.
pub const DEFAULT_OUT_DIR: &'static str = "./camera_frames";

/// The host on which the viewer listens, where none is given.
pub const DEFAULT_WEB_HOST: &'static str = "0.0.0.0";

/// The port on which the viewer listens, where none is given.
pub const DEFAULT_WEB_PORT: u16 = 8080;

/// The camera device, where none is given.
pub const DEFAULT_DEVICE: &'static str = "/dev/video0";

/// Frames per second, where no number is given.
pub const DEFAULT_FPS: u32 = 10;

/// The width of a frame, where none is given.
pub const DEFAULT_WIDTH: u32 = 640;

/// The height of a frame, where none is given.
pub const DEFAULT_HEIGHT: u32 = 480;

/// The name of the source, where none is given.
pub const DEFAULT_SOURCE: &'static str = "camera-local";

/// The media type of a frame, where none is given.
pub const DEFAULT_MIME: &'static str = "image/jpeg";

/// How often an image is published, where no number is given.
pub const DEFAULT_REPEAT: u64 = 1;

/// The time between two images, where none is given, in milliseconds.
pub const DEFAULT_INTERVAL_MS: u64 = 200;

/// What the camera node is asked to do.
#[derive(Debug)]
pub struct Cli {
    pub topic: String,
    pub port: u16,
    pub command: CameraCommand,
}

/// Whether frames are published or received.
#[derive(Debug)]
pub enum CameraCommand {
    Publish(PublishArgs),
    Receive { out_dir: String, print_meta: bool, web_host: String, web_port: u16 },
}

/// Which frames are published, and how.
#[derive(Debug)]
pub struct PublishArgs {
    pub image: Option<String>,
    pub video: Option<String>,
    pub camera: bool,
    pub camera_device: String,
    pub fps: u32,
    pub width: u32,
    pub height: u32,
    pub duration_secs: Option<u64>,
    pub source: String,
    pub mime: String,
    pub repeat: u64,
    pub interval_ms: u64,
}

/// Where frames come from.
#[derive(Debug)]
pub enum SourceMode {
    /// The image in a file.
    Image(String),
    /// The video in a file.
    Video(String),
    /// The camera.
    Camera,
}

/// How more than one source reads.
pub const ONE_SOURCE_ONLY: &'static str =
    "use only one source mode: --image OR --video OR --camera";

/// How many sources are named.
pub open spec fn mode_count(args: PublishArgs) -> int {
    (if args.image is Some {
        1int
    } else {
        0
    }) + (if args.video is Some {
        1int
    } else {
        0
    }) + (if args.camera {
        1int
    } else {
        0
    })
}

/// Whether frames come from this source: the one that is named, or else the camera.
pub open spec fn chosen(args: PublishArgs, mode: SourceMode) -> bool {
    match (args.image, args.video) {
        (Some(path), _) => mode == SourceMode::Image(path),
        (None, Some(path)) => mode == SourceMode::Video(path),
        (None, None) => mode is Camera,
    }
}

/// Where frames come from: the one source that is named, or else the camera. An
/// error where more than one is named.
pub fn source_mode(args: &PublishArgs) -> (r: Result<SourceMode, &'static str>)
    ensures
        r is Ok <==> mode_count(*args) <= 1,
        match r {
            Ok(SourceMode::Image(path)) => args.image == Some(path),
            Ok(SourceMode::Video(path)) => args.image is None && args.video == Some(path),
            Ok(SourceMode::Camera) => args.image is None && args.video is None,
            Err(text) => text@ == ONE_SOURCE_ONLY@,
        },
        r matches Ok(mode) ==> chosen(*args, mode),
{
    let images: u8 = if args.image.is_some() {
        1
    } else {
        0
    };
    let videos: u8 = if args.video.is_some() {
        1
    } else {
        0
    };
    let cameras: u8 = if args.camera {
        1
    } else {
        0
    };
    if images + videos + cameras > 1 {
        return Err(ONE_SOURCE_ONLY);
    }
    if let Some(path) = &args.image {
        return Ok(SourceMode::Image(path.clone()));
    }
    if let Some(path) = &args.video {
        return Ok(SourceMode::Video(path.clone()));
    }
    Ok(SourceMode::Camera)
}

/// The texts of some arguments.
pub open spec fn words(arguments: Seq<String>) -> Seq<Seq<char>> {
    arguments.map_values(|a: String| a@)
}

/// The arguments with which `ffmpeg` streams a camera.
pub open spec fn camera_words(args: PublishArgs) -> Seq<Seq<char>> {
    seq![
        "-hide_banner"@,
        "-loglevel"@,
        "error"@,
        "-f"@,
        "v4l2"@,
        "-framerate"@,
        decimal(args.fps as nat),
        "-video_size"@,
        decimal(args.width as nat) + "x"@ + decimal(args.height as nat),
        "-i"@,
        args.camera_device@,
        "-f"@,
        "image2pipe"@,
        "-vcodec"@,
        "mjpeg"@,
        "-"@,
    ]
}

/// The arguments with which `ffmpeg` streams a video.
pub open spec fn video_words(path: Seq<char>) -> Seq<Seq<char>> {
    seq![
        "-hide_banner"@,
        "-loglevel"@,
        "error"@,
        "-re"@,
        "-i"@,
        path,
        "-f"@,
        "image2pipe"@,
        "-vcodec"@,
        "mjpeg"@,
        "-"@,
    ]
}

/// The arguments with which `ffmpeg` streams a camera.
pub fn camera_arguments(args: &PublishArgs) -> (r: Vec<String>)
    ensures
        words(r@) == camera_words(*args),
{
    let mut size = decimal_string(args.width as u128);
    size.append("x");
    let height = decimal_string(args.height as u128);
    size.append(&height);
    let r = vec![
        "-hide_banner".to_string(),
        "-loglevel".to_string(),
        "error".to_string(),
        "-f".to_string(),
        "v4l2".to_string(),
        "-framerate".to_string(),
        decimal_string(args.fps as u128),
        "-video_size".to_string(),
        size,
        "-i".to_string(),
        args.camera_device.clone(),
        "-f".to_string(),
        "image2pipe".to_string(),
        "-vcodec".to_string(),
        "mjpeg".to_string(),
        "-".to_string(),
    ];
    assert(words(r@) =~= camera_words(*args));
    r
}

/// The arguments with which `ffmpeg` streams a video.
pub fn video_arguments(path: &str) -> (r: Vec<String>)
    ensures
        words(r@) == video_words(path@),
{
    let r = vec![
        "-hide_banner".to_string(),
        "-loglevel".to_string(),
        "error".to_string(),
        "-re".to_string(),
        "-i".to_string(),
        path.to_string(),
        "-f".to_string(),
        "image2pipe".to_string(),
        "-vcodec".to_string(),
        "mjpeg".to_string(),
        "-".to_string(),
    ];
    assert(words(r@) =~= video_words(path@));
    r
}

} // verus!
