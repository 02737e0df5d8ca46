use camera_mgr::model::copy_streams;
use camera_mgr::text::decimal;
use camera_mgr::{derive_recast_url, recast_url_string, BasicCameraInfo, Camera, Stream};

fn sample() -> Camera {
    Camera {
        id: "abc".to_string(),
        name: "Lobby".to_string(),
        streams: vec![
            Stream { id: 1, source_url: "rtsp://cam1".to_string(), recast_url: None },
            Stream {
                id: 2,
                source_url: "rtsp://cam2".to_string(),
                recast_url: Some("http://h/r".to_string()),
            },
        ],
    }
}

#[test]
fn decimal_writes_numerals() {
    assert_eq!(decimal(0), "0");
    assert_eq!(decimal(7), "7");
    assert_eq!(decimal(9), "9");
    assert_eq!(decimal(10), "10");
    assert_eq!(decimal(42), "42");
    assert_eq!(decimal(100), "100");
    assert_eq!(decimal(1234567890), "1234567890");
    assert_eq!(decimal(u64::MAX), "18446744073709551615");
}

#[test]
fn decimal_agrees_with_std() {
    let mut n: u64 = 1;
    for _ in 0..64 {
        assert_eq!(decimal(n), n.to_string());
        assert_eq!(decimal(n - 1), (n - 1).to_string());
        n = n.wrapping_mul(2);
        if n == 0 {
            break;
        }
    }
}

#[test]
fn recast_url_text_is_assembled_in_order() {
    assert_eq!(
        recast_url_string("http://localhost:8000", "abc", 1),
        "http://localhost:8000/v0/cameras/abc/streams/1/sdp"
    );
    assert_eq!(recast_url_string("", "", 0), "/v0/cameras//streams/0/sdp");
    assert_eq!(recast_url_string("b", "c", 305), "b/v0/cameras/c/streams/305/sdp");
}

#[test]
fn derived_recast_url_of_a_plain_base() {
    assert_eq!(
        derive_recast_url("http://localhost:8000", "Ab3dE6gh", 1),
        Some("http://localhost:8000/v0/cameras/Ab3dE6gh/streams/1/sdp".to_string())
    );
}

#[test]
fn derived_recast_url_is_the_parsed_url() {
    assert_eq!(
        derive_recast_url("HTTP://Example.COM:80", "abc", 12),
        Some("http://example.com/v0/cameras/abc/streams/12/sdp".to_string())
    );
    assert_eq!(
        derive_recast_url("http://", "abc", 1),
        Some("http://v0/cameras/abc/streams/1/sdp".to_string())
    );
    assert_eq!(
        derive_recast_url("https://host/a b", "abc", 3),
        Some("https://host/a%20b/v0/cameras/abc/streams/3/sdp".to_string())
    );
}

#[test]
fn derived_recast_url_of_a_malformed_base_is_absent() {
    assert_eq!(derive_recast_url("not a url", "abc", 1), None);
    assert_eq!(derive_recast_url("", "abc", 1), None);
    assert_eq!(derive_recast_url("localhost", "abc", 1), None);
    assert_eq!(derive_recast_url("http://[::1", "abc", 1), None);
}

#[test]
fn or_recast_fills_only_what_is_missing() {
    let bare = Stream { id: 1, source_url: "rtsp://cam1".to_string(), recast_url: None };
    let filled = bare.clone().or_recast(Some("http://h/x".to_string()));
    assert_eq!(
        filled,
        Stream {
            id: 1,
            source_url: "rtsp://cam1".to_string(),
            recast_url: Some("http://h/x".to_string())
        }
    );
    assert_eq!(filled.clone().or_recast(Some("http://h/y".to_string())), filled);
    assert_eq!(filled.clone().or_recast(None), filled);
    assert_eq!(bare.clone().or_recast(None), bare);
}

#[test]
fn basic_projection_keeps_id_and_name() {
    let cam = sample();
    let expected = BasicCameraInfo { id: "abc".to_string(), name: "Lobby".to_string() };
    assert_eq!(cam.basic(), expected);
    assert_eq!(BasicCameraInfo::from(cam), expected);
    assert_eq!(expected.clone(), expected);
}

#[test]
fn camera_stream_lookup() {
    let cam = sample();
    assert_eq!(cam.stream(2), Some(&cam.streams[1]));
    assert_eq!(cam.stream(1), Some(&cam.streams[0]));
    assert_eq!(cam.stream(3), None);
    let none = Camera { id: "x".to_string(), name: "y".to_string(), streams: vec![] };
    assert_eq!(none.stream(1), None);
}

#[test]
fn clones_are_equal() {
    let cam = sample();
    assert_eq!(cam.clone(), cam);
    assert_eq!(cam.streams[1].clone(), cam.streams[1]);
    assert_eq!(copy_streams(&cam.streams), cam.streams);
    assert_eq!(camera_mgr::model::copy_text(&None), None);
    assert_eq!(camera_mgr::model::copy_text(&Some("a".to_string())), Some("a".to_string()));
}

#[test]
fn distinct_stream_ids_are_told_from_repeated_ones() {
    assert!(sample().has_distinct_stream_ids());
    let none = Camera { id: "x".to_string(), name: "y".to_string(), streams: vec![] };
    assert!(none.has_distinct_stream_ids());
    let mut twin = sample();
    twin.streams.push(Stream { id: 1, source_url: "rtsp://other".to_string(), recast_url: None });
    assert!(!twin.has_distinct_stream_ids());
    let mut late = sample();
    late.streams.push(Stream { id: 3, source_url: "rtsp://3".to_string(), recast_url: None });
    late.streams.push(Stream { id: 3, source_url: "rtsp://3b".to_string(), recast_url: None });
    assert!(!late.has_distinct_stream_ids());
}

#[test]
fn with_id_changes_the_id_alone() {
    let cam = sample();
    let moved = cam.clone().with_id("xyz".to_string());
    assert_eq!(moved.id, "xyz");
    assert_eq!(moved.name, cam.name);
    assert_eq!(moved.streams, cam.streams);
    assert_eq!(cam.clone().with_id("abc".to_string()), cam);
}
