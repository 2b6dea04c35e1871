use oxideav_core::error::Error;
use oxideav_core::registry::source::{split_scheme, SourceOpener, SourceRegistry};
use std::io::{Cursor, Read};

type BytesOpener = fn(&str) -> Cursor<Vec<u8>>;
type PacketsOpener = fn(&str) -> Vec<Vec<u8>>;
type FramesOpener = fn(&str) -> Vec<u32>;
type Reg = SourceRegistry<BytesOpener, PacketsOpener, FramesOpener>;

fn open_bytes_mock(_uri: &str) -> Cursor<Vec<u8>> {
    Cursor::new(b"hello world".to_vec())
}

fn open_packets_mock(_uri: &str) -> Vec<Vec<u8>> {
    vec![vec![1, 2, 3, 4]]
}

fn open_frames_mock(_uri: &str) -> Vec<u32> {
    vec![1]
}

#[test]
fn register_bytes_and_open_returns_bytes_variant() {
    let mut reg = Reg::new();
    reg.register_bytes("mockb", open_bytes_mock);
    let out = reg.open("mockb://anything").ok().expect("open");
    match out {
        SourceOpener::Bytes(open) => {
            let mut r = open("mockb://anything");
            let mut buf = String::new();
            r.read_to_string(&mut buf).unwrap();
            assert_eq!(buf, "hello world");
        }
        _ => panic!("expected SourceOpener::Bytes"),
    }
}

#[test]
fn register_packets_and_open_returns_packets_variant() {
    let mut reg = Reg::new();
    reg.register_packets("mockp", open_packets_mock);
    let out = reg.open("mockp://anything").ok().expect("open");
    match out {
        SourceOpener::Packets(open) => {
            let packets = open("mockp://anything");
            assert_eq!(packets.len(), 1);
            assert_eq!(packets[0], vec![1, 2, 3, 4]);
        }
        _ => panic!("expected SourceOpener::Packets"),
    }
}

#[test]
fn register_frames_and_open_returns_frames_variant() {
    let mut reg = Reg::new();
    reg.register_frames("mockf", open_frames_mock);
    let out = reg.open("mockf://anything").ok().expect("open");
    match out {
        SourceOpener::Frames(open) => assert_eq!(open("mockf://anything"), vec![1]),
        _ => panic!("expected SourceOpener::Frames"),
    }
}

#[test]
fn unknown_scheme_falls_back_to_file_when_registered() {
    let mut reg = Reg::new();
    reg.register_bytes("file", open_bytes_mock);
    // No `foo` driver — falls through to the `file` driver.
    let out = reg.open("foo://x").ok().expect("fallback open");
    assert!(matches!(out, SourceOpener::Bytes(_)));
}

#[test]
fn unknown_scheme_with_no_file_driver_errors() {
    let reg = Reg::new();
    let r = reg.open("nope://x");
    assert!(matches!(r, Err(Error::Unsupported(_))));
}

#[test]
fn register_overrides_prior_kind() {
    let mut reg = Reg::new();
    reg.register_bytes("mock", open_bytes_mock);
    reg.register_frames("mock", open_frames_mock);
    let out = reg.open("mock://x").ok().expect("open");
    assert!(matches!(out, SourceOpener::Frames(_)));
}

#[test]
fn schemes_iterator_lists_registered() {
    let mut reg = Reg::new();
    reg.register_bytes("mockb", open_bytes_mock);
    reg.register_packets("mockp", open_packets_mock);
    reg.register_frames("mockf", open_frames_mock);
    let mut names: Vec<&str> = reg.schemes();
    names.sort();
    assert_eq!(names, vec!["mockb", "mockf", "mockp"]);
}

// ───────────── further cases ─────────────

#[test]
fn split_scheme_cases() {
    let s = |u: &str| {
        let (a, b) = split_scheme(u);
        (a, b)
    };
    assert_eq!(s("http://example.com/a"), ("http".to_string(), "example.com/a".to_string()));
    assert_eq!(s("rtmp:live"), ("rtmp".to_string(), "live".to_string()));
    assert_eq!(s("/tmp/a.wav"), ("file".to_string(), "/tmp/a.wav".to_string()));
    assert_eq!(s("c:\\music\\a.flac"), ("file".to_string(), "c:\\music\\a.flac".to_string()));
    assert_eq!(s("1abc://x"), ("file".to_string(), "1abc://x".to_string()));
    assert_eq!(s("a_b://x"), ("file".to_string(), "a_b://x".to_string()));
    assert_eq!(s(":x"), ("file".to_string(), ":x".to_string()));
    assert_eq!(s("svn+ssh://h"), ("svn+ssh".to_string(), "h".to_string()));
    assert_eq!(s("ab:/"), ("ab".to_string(), "/".to_string()));
}

#[test]
fn schemes_are_case_insensitive() {
    let mut reg = Reg::new();
    reg.register_packets("RTMP", open_packets_mock);
    assert_eq!(reg.schemes(), vec!["rtmp"]);
    assert!(matches!(reg.open("Rtmp://host/app").ok(), Some(SourceOpener::Packets(_))));
}

#[test]
fn missing_driver_message_names_scheme_and_uri() {
    let reg = Reg::new();
    match reg.open("NOPE://x") {
        Err(Error::Unsupported(m)) => {
            assert_eq!(m, "no source driver for scheme 'nope' (URI: NOPE://x)")
        }
        _ => panic!("expected Unsupported"),
    }
    match reg.open("/bare/path") {
        Err(Error::Unsupported(m)) => {
            assert_eq!(m, "no source driver for scheme 'file' (URI: /bare/path)")
        }
        _ => panic!("expected Unsupported"),
    }
}
