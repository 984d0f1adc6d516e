use sebeke::camera::cli::{
    camera_arguments, source_mode, video_arguments, PublishArgs, SourceMode, ONE_SOURCE_ONLY,
};
use sebeke::camera::frames::{
    camera_frame, failed_line, image_step, published_line, ImageStep, Stream, StreamAction,
    StreamEvent,
};
use sebeke::camera::jpeg::{absorb, extract_jpeg_frame, feed, find_marker, FrameStep};
use sebeke::camera::receive::{
    frame_file_name, listening_line, viewer_address, viewer_url, LatestAnswer, Receiver,
};
use sebeke::codec::{
    check_encoding, decode_failure_text, encode_failure_text, Encoding, Speaker,
};
use sebeke::joining::{relay_notices, relay_plan};
use sebeke::node::{
    dropped_notice, log_line, probe_result, publish_failure, published_notice, query_failure,
    subscribe_failure, topic_selector, CoreConfig, ProbeEvent, SebekeNode, Session, TopicSet,
};
use sebeke::tunnel::Tunnel;

fn args() -> PublishArgs {
    PublishArgs {
        image: None,
        video: None,
        camera: false,
        camera_device: "/dev/video0".to_string(),
        fps: 10,
        width: 640,
        height: 480,
        duration_secs: None,
        source: "camera-local".to_string(),
        mime: "image/jpeg".to_string(),
        repeat: 1,
        interval_ms: 200,
    }
}

#[test]
fn one_source_at_most() {
    assert!(matches!(source_mode(&args()), Ok(SourceMode::Camera)));
    let mut a = args();
    a.camera = true;
    assert!(matches!(source_mode(&a), Ok(SourceMode::Camera)));
    a.video = Some("v".to_string());
    assert_eq!(source_mode(&a).unwrap_err(), ONE_SOURCE_ONLY);
    a.camera = false;
    assert!(matches!(source_mode(&a), Ok(SourceMode::Video(p)) if p == "v"));
    a.image = Some("i".to_string());
    assert_eq!(
        source_mode(&a).unwrap_err(),
        "use only one source mode: --image OR --video OR --camera"
    );
    a.video = None;
    assert!(matches!(source_mode(&a), Ok(SourceMode::Image(p)) if p == "i"));
}

#[test]
fn ffmpeg_arguments() {
    assert_eq!(
        camera_arguments(&args()),
        vec![
            "-hide_banner",
            "-loglevel",
            "error",
            "-f",
            "v4l2",
            "-framerate",
            "10",
            "-video_size",
            "640x480",
            "-i",
            "/dev/video0",
            "-f",
            "image2pipe",
            "-vcodec",
            "mjpeg",
            "-"
        ]
    );
    assert_eq!(
        video_arguments("a b.mp4"),
        vec![
            "-hide_banner",
            "-loglevel",
            "error",
            "-re",
            "-i",
            "a b.mp4",
            "-f",
            "image2pipe",
            "-vcodec",
            "mjpeg",
            "-"
        ]
    );
}

#[test]
fn frames_and_reports() {
    let frame = camera_frame(3, vec![1, 2], "cam", "image/png", 99);
    assert_eq!(frame.source, "cam");
    assert_eq!(frame.mime, "image/png");
    assert_eq!(frame.sequence, 3);
    assert_eq!(frame.captured_at_ms, 99);
    assert_eq!(frame.data, vec![1, 2]);
    assert_eq!(
        published_line(&frame, "camera/frames"),
        "Published frame #3 (2 bytes) on topic 'camera/frames'"
    );
    assert_eq!(failed_line(3, "t"), "failed to publish frame #3 to topic t");
    assert_eq!(frame_file_name("cam", &frame, "png"), "cam_3_99.png");
    let copy = frame.clone();
    assert_eq!(copy.data, frame.data);
}

#[test]
fn images_are_repeated() {
    let mut a = args();
    a.repeat = 3;
    a.interval_ms = 7;
    assert_eq!(
        image_step(0, &a),
        ImageStep::Publish { sequence: 0, pause_ms: Some(7) }
    );
    assert_eq!(
        image_step(1, &a),
        ImageStep::Publish { sequence: 1, pause_ms: Some(7) }
    );
    assert_eq!(image_step(2, &a), ImageStep::Publish { sequence: 2, pause_ms: None });
    assert_eq!(image_step(3, &a), ImageStep::Done);
    a.repeat = 0;
    assert_eq!(image_step(0, &a), ImageStep::Done);
}

#[test]
fn streams_count_and_end() {
    let mut a = args();
    let endless = Stream::new(1_000, &a);
    assert!(!endless.is_over(u128::MAX));
    a.duration_secs = Some(2);
    let mut stream = Stream::new(1_000, &a);
    assert!(!stream.is_over(0));
    assert!(!stream.is_over(2_999));
    assert!(stream.is_over(3_000));
    match stream.react(StreamEvent::Frame(vec![5])) {
        StreamAction::Publish { sequence, data } => {
            assert_eq!(sequence, 0);
            assert_eq!(data, vec![5]);
        }
        StreamAction::Stop => panic!("a frame is published"),
    }
    stream.published();
    assert!(matches!(
        stream.react(StreamEvent::Frame(vec![])),
        StreamAction::Publish { sequence: 1, .. }
    ));
    assert!(matches!(stream.react(StreamEvent::Interrupted), StreamAction::Stop));
    assert!(matches!(stream.react(StreamEvent::Ended), StreamAction::Stop));
    assert_eq!(stream.stopped_line(), "Stopped streaming after publishing 1 frames");
    a.duration_secs = Some(0);
    assert!(Stream::new(5, &a).is_over(5));
    assert!(Stream::new(5, &a).is_over(1));
}

#[test]
fn images_are_cut_out_of_a_stream() {
    let mut buffer = vec![0, 1, 0xFF, 0xD8, 7, 0xFF, 0xD9, 0xFF, 0xD8];
    assert_eq!(extract_jpeg_frame(&mut buffer), Some(vec![0xFF, 0xD8, 7, 0xFF, 0xD9]));
    assert_eq!(buffer, vec![0xFF, 0xD8]);
    assert_eq!(extract_jpeg_frame(&mut buffer), None);
    assert_eq!(buffer, vec![0xFF, 0xD8]);
    buffer.extend([0xFF, 0xD9]);
    assert_eq!(extract_jpeg_frame(&mut buffer), Some(vec![0xFF, 0xD8, 0xFF, 0xD9]));
    assert!(buffer.is_empty());
    assert_eq!(extract_jpeg_frame(&mut buffer), None);
}

#[test]
fn bytes_before_an_image_are_dropped() {
    let mut buffer = vec![1, 0xFF, 0xD9, 2, 0xFF, 0xD8, 3];
    assert_eq!(extract_jpeg_frame(&mut buffer), None);
    assert_eq!(buffer, vec![0xFF, 0xD8, 3]);
    let mut nothing = vec![1, 2, 0xFF];
    assert_eq!(extract_jpeg_frame(&mut nothing), None);
    assert_eq!(nothing, vec![1, 2, 0xFF]);
    assert_eq!(find_marker(&vec![0xFF, 0xFF, 0xD8], 0xD8), Some(1));
    assert_eq!(find_marker(&vec![0xFF], 0xD8), None);
}

#[test]
fn reads_do_not_matter() {
    let bytes = vec![9, 0xFF, 0xD8, 1, 0xFF, 0xD9, 0xFF, 0xD8, 2, 0xFF, 0xD9];
    let mut frames = Vec::new();
    let mut buffer = Vec::new();
    for byte in bytes {
        if let FrameStep::Frame(frame) = feed(&mut buffer, &vec![byte]) {
            frames.push(frame);
        }
    }
    assert!(matches!(feed(&mut buffer, &vec![]), FrameStep::Finished));
    assert_eq!(
        frames,
        vec![vec![0xFF, 0xD8, 1, 0xFF, 0xD9], vec![0xFF, 0xD8, 2, 0xFF, 0xD9]]
    );
}

#[test]
fn every_cut_of_a_stream_gives_the_same_image() {
    let bytes = vec![9, 0xFF, 0xFF, 0xD8, 1, 0xFF, 0xFF, 0xD9, 0xFF, 0xD8, 2];
    let whole = extract_jpeg_frame(&mut bytes.clone());
    assert_eq!(whole, Some(vec![0xFF, 0xD8, 1, 0xFF, 0xFF, 0xD9]));
    for size in 1..=bytes.len() {
        let mut buffer = Vec::new();
        let mut found = None;
        for chunk in bytes.chunks(size) {
            if let FrameStep::Frame(frame) = feed(&mut buffer, &chunk.to_vec()) {
                found = Some(frame);
                break;
            }
        }
        assert_eq!(found, whole);
    }
}

#[test]
fn the_end_of_a_stream_can_hold_an_image() {
    let mut buffer = vec![0xFF, 0xD8, 0xFF, 0xD9];
    assert!(matches!(feed(&mut buffer, &vec![]), FrameStep::Frame(_)));
    assert!(matches!(feed(&mut buffer, &vec![1]), FrameStep::More));
}

#[test]
fn large_buffers_keep_their_end() {
    let mut buffer = vec![1u8; 16 * 1024 * 1024];
    absorb(&mut buffer, &vec![]);
    assert_eq!(buffer.len(), 16 * 1024 * 1024);
    absorb(&mut buffer, &vec![2, 3]);
    assert_eq!(buffer.len(), 512 * 1024);
    assert_eq!(&buffer[buffer.len() - 3..], &[1, 2, 3]);
}

#[test]
fn received_frames() {
    let mut receiver = Receiver::new(true);
    assert!(matches!(receiver.latest(), LatestAnswer::NoContent));
    let frame = camera_frame(4, vec![1], "cam", "image/jpeg", 8);
    assert_eq!(receiver.frame_saved(frame.clone(), "d/f.jpg", false), None);
    assert!(matches!(receiver.latest(), LatestAnswer::NoContent));
    assert_eq!(
        receiver.frame_saved(frame.clone(), "d/f.jpg", true).unwrap(),
        "Received frame source=cam seq=4 mime=image/jpeg bytes=1 saved=d/f.jpg"
    );
    match receiver.latest() {
        LatestAnswer::Frame { content_type, body } => {
            assert_eq!(content_type, "image/jpeg");
            assert_eq!(body, vec![1]);
        }
        LatestAnswer::NoContent => panic!("there is a frame"),
    }
    assert_eq!(Receiver::new(false).frame_saved(frame, "x", true), None);
    assert_eq!(
        listening_line("t", "./out"),
        "Listening for frames on topic 't' and writing into ./out"
    );
    assert_eq!(viewer_address("0.0.0.0", 8080), "0.0.0.0:8080");
    assert_eq!(viewer_url(8080), "http://127.0.0.1:8080/");
}

#[test]
fn telemetry_is_bound_and_media_attached() {
    let plan = relay_plan("telemetry_chat", "8787", "me");
    assert!(plan.bind);
    assert_eq!(plan.config.api_token, "local-dev-token");
    assert_eq!(plan.config.machine_id, "me");
    assert_eq!(plan.config.push_path, "/push");
    assert_eq!(plan.config.ws_path, "/ws");
    assert_eq!(plan.config.pull_path, "/pull");
    assert_eq!(plan.config.bind_path, "/bind");
    assert_eq!(plan.config.local_address, "0.0.0.0:8787");
    assert_eq!(
        plan.proxy_url,
        "https://cloudflare.abdelmanan-abdelrahman03.workers.dev/"
    );
    assert!(!relay_plan("camera/frames", "1", "me").bind);
    let notices = relay_notices("telemetry", 8787);
    assert_eq!(
        notices.0,
        "Starting relay and binding worker on port 8787 using https://cloudflare.abdelmanan-abdelrahman03.workers.dev"
    );
    assert_eq!(
        notices.1,
        "Warning: topic 'telemetry' is classified as telemetry and will use HTTP push, not Durable Object websocket."
    );
    let notices = relay_notices("camera/frames", 8787);
    assert_eq!(
        notices.0,
        "Starting relay in websocket-only mode using https://cloudflare.abdelmanan-abdelrahman03.workers.dev (skipping bind/tunnel)"
    );
    assert_eq!(
        notices.1,
        "Topic 'camera/frames' is multimedia; relay will use Durable Object websocket path '/ws'."
    );
}

#[test]
fn only_cbor_is_understood() {
    assert_eq!(check_encoding(Encoding::Cbor, Speaker::Node), Ok(()));
    assert_eq!(
        check_encoding(Encoding::Other, Speaker::Node).unwrap_err(),
        "Unsupported serialization format"
    );
    assert_eq!(
        check_encoding(Encoding::Other, Speaker::HttpRelay).unwrap_err(),
        "unsupported serialization encoding"
    );
    assert_eq!(
        encode_failure_text(Speaker::HttpRelay, "x"),
        "CBOR serialization failed: x"
    );
    assert_eq!(
        encode_failure_text(Speaker::Node, "x"),
        "Failed to serialize sample into CBOR format"
    );
    assert_eq!(
        decode_failure_text(Speaker::HttpRelay, "T", "x"),
        "CBOR deserialization into T failed: x"
    );
    assert_eq!(
        decode_failure_text(Speaker::Node, "T", "x"),
        "Failed to deserialize CBOR bytes into the T type"
    );
}

#[test]
fn node_reports() {
    assert_eq!(log_line("id", "hi"), "[id] hi");
    assert_eq!(query_failure("e"), "Failed to query liveliness: e");
    assert_eq!(subscribe_failure("t", "e"), "Failed to subscribe to t: e");
    assert_eq!(
        dropped_notice("t", "e"),
        "DROPPED: Malformed packet on topic 't'. e"
    );
    assert_eq!(publish_failure("t", "e"), "Zenoh publish error on topic 't': e");
    assert_eq!(published_notice("t"), "Published message to t");
    assert_eq!(topic_selector(None), "**");
    assert_eq!(topic_selector(Some("a/**")), "a/**");
}

#[test]
fn the_first_answer_ends_the_search() {
    assert!(probe_result(ProbeEvent::Hello));
    assert!(!probe_result(ProbeEvent::Closed));
    assert!(!probe_result(ProbeEvent::TimedOut));
}

#[test]
fn topics_are_listed_once() {
    let mut topics = TopicSet::new();
    topics.reply(Some("a".to_string()));
    topics.reply(None);
    topics.reply(Some("b".to_string()));
    topics.reply(Some("a".to_string()));
    assert_eq!(topics.into_topics(), vec!["a", "b"]);
}

#[test]
fn media_go_under_the_namespace() {
    assert_eq!(CoreConfig::default().namespace, "robotics/sebeke");
    let node = SebekeNode::new(Session {});
    assert_eq!(node.media_path("cam/1"), "robotics/sebeke/cam/1");
}

#[test]
fn tunnel_arguments() {
    assert_eq!(Tunnel::set_protocol("http2"), "http2");
    assert_eq!(Tunnel::set_protocol("quic"), "quic");
    assert_eq!(Tunnel::set_protocol("https"), "https");
    assert_eq!(Tunnel::set_protocol("tcp"), "https");
    assert_eq!(Tunnel::set_protocol(""), "https");
    assert!(Tunnel::is_known_protocol("https"));
    assert!(Tunnel::is_known_protocol("quic"));
    assert!(Tunnel::is_known_protocol("http2"));
    assert!(!Tunnel::is_known_protocol("tcp"));
    assert_eq!(
        Tunnel::arguments(8787, "quic"),
        vec!["tunnel", "--protocol", "quic", "--url", "http://127.0.0.1:8787"]
    );
    assert!(Tunnel::ensure_cloudflared(true).is_ok());
    assert!(Tunnel::ensure_cloudflared(false)
        .unwrap_err()
        .starts_with("`cloudflared` is required. Install: https://"));
}

#[test]
fn tunnel_addresses() {
    assert_eq!(
        Tunnel::address_in("INF |  https://two-Words-42.trycloudflare.com  |").unwrap(),
        "https://two-Words-42.trycloudflare.com"
    );
    assert_eq!(
        Tunnel::address_in("https://a.trycloudflare.com https://b.trycloudflare.com/x").unwrap(),
        "https://a.trycloudflare.com"
    );
    assert_eq!(
        Tunnel::address_in("https://https://c.trycloudflare.com").unwrap(),
        "https://c.trycloudflare.com"
    );
    assert_eq!(Tunnel::address_in("https://.trycloudflare.com"), None);
    assert_eq!(Tunnel::address_in("https://a.b.trycloudflare.com"), None);
    assert_eq!(Tunnel::address_in("http://a.trycloudflare.com"), None);
    assert_eq!(Tunnel::address_in(""), None);
    let open = Tunnel::opened(Tunnel::address_in("https://a.trycloudflare.com")).unwrap();
    assert_eq!(open.public_url, "https://a.trycloudflare.com");
    assert_eq!(
        Tunnel::opened(None).unwrap_err(),
        "Failed to extract TryCloudflare URL."
    );
    assert!(Tunnel::opened(Some(String::new())).is_err());
}
