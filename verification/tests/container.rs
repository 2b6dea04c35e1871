use oxideav_core::error::Error;
use oxideav_core::registry::container::{
    ContainerRegistry, Demuxer, ProbeCandidate, ProbeData, ProbeScore, DEFAULT_PRIORITY,
};
use oxideav_core::stream::StreamInfo;

struct DummyDemuxer;

impl Demuxer for DummyDemuxer {
    fn format_name(&self) -> &str {
        "dummy"
    }
    fn streams(&self) -> &[StreamInfo] {
        &[]
    }
}

type ContainerProbeFn = fn(&ProbeData) -> ProbeScore;

type Reg = ContainerRegistry<ContainerProbeFn, (), ()>;

fn always(score: ProbeScore) -> ContainerProbeFn {
    match score {
        100 => |_: &ProbeData| 100,
        90 => |_: &ProbeData| 90,
        50 => |_: &ProbeData| 50,
        _ => |_: &ProbeData| 0,
    }
}

fn names<'a>(cands: &'a [ProbeCandidate<'a>]) -> Vec<&'a str> {
    cands.iter().map(|c| c.name).collect()
}

fn probe_cursor(reg: &Reg, bytes: &[u8]) -> String {
    reg.probe_buffer(bytes, None).expect("some probe matches")
}

#[test]
fn default_seek_to_is_unsupported() {
    let mut d = DummyDemuxer;
    match d.seek_to(0, 0) {
        Err(Error::Unsupported(_)) => {}
        other => panic!(
            "expected default seek_to to return Unsupported, got {:?}",
            other
        ),
    }
}

#[test]
fn equal_scores_resolve_by_registration_order_across_fresh_registries() {
    const ORDER: [&str; 6] = ["zeta", "alpha", "omicron", "beta", "kappa", "mu"];
    for _ in 0..1000 {
        let mut reg = Reg::new();
        for name in ORDER {
            reg.register_probe(name, always(100));
        }
        assert_eq!(probe_cursor(&reg, b"any bytes"), "zeta");
        let cands = reg.probe_candidates(&ProbeData {
            buf: b"any bytes",
            ext: None,
        });
        assert_eq!(names(&cands), ORDER.to_vec());
    }
}

#[test]
fn registration_order_is_the_only_remaining_discriminator() {
    let mut a = Reg::new();
    a.register_probe("second-by-name", always(100));
    a.register_probe("first-by-name", always(100));
    assert_eq!(probe_cursor(&a, b"x"), "second-by-name");

    let mut b = Reg::new();
    b.register_probe("first-by-name", always(100));
    b.register_probe("second-by-name", always(100));
    assert_eq!(probe_cursor(&b, b"x"), "first-by-name");
}

#[test]
fn lower_priority_number_beats_registration_order() {
    let mut reg = Reg::new();
    reg.register_probe("earlier", always(100));
    reg.register_probe_with_priority("later-but-preferred", always(100), 10);
    assert_eq!(probe_cursor(&reg, b"x"), "later-but-preferred");
    let cands = reg.probe_candidates(&ProbeData {
        buf: b"x",
        ext: None,
    });
    assert_eq!(names(&cands), vec!["later-but-preferred", "earlier"]);
    assert_eq!(cands[0].priority, 10);
    assert_eq!(cands[0].order, 1);
    assert_eq!(cands[1].priority, DEFAULT_PRIORITY);
    assert_eq!(cands[1].order, 0);
}

#[test]
fn score_always_beats_priority() {
    let mut reg = Reg::new();
    reg.register_probe_with_priority("confident-but-yielding", always(90), i32::MIN);
    reg.register_probe("weakly-prioritised-but-certain", always(100));
    assert_eq!(probe_cursor(&reg, b"x"), "weakly-prioritised-but-certain");
}

#[test]
fn probe_candidates_excludes_zero_scores_and_ranks_fully() {
    let mut reg = Reg::new();
    reg.register_probe("silent", always(0));
    reg.register_probe("half", always(50));
    reg.register_probe_with_priority("full-late-preferred", always(100), 1);
    reg.register_probe("full-early", always(100));
    reg.register_probe("half-again", always(50));
    let cands = reg.probe_candidates(&ProbeData {
        buf: b"x",
        ext: None,
    });
    assert_eq!(
        names(&cands),
        vec!["full-late-preferred", "full-early", "half", "half-again"]
    );
    assert_eq!(
        cands.iter().map(|c| c.order).collect::<Vec<_>>(),
        vec![2, 3, 1, 4]
    );
    assert!(cands.iter().all(|c| c.score != 0));
}

#[test]
fn re_registering_a_name_replaces_in_place() {
    let mut reg = Reg::new();
    reg.register_probe_with_priority("first", always(100), 5);
    reg.register_probe("second", always(100));
    assert_eq!(reg.probe_priority("first"), Some(5));
    assert_eq!(probe_cursor(&reg, b"x"), "first");

    reg.register_probe("first", always(0));
    assert_eq!(reg.probe_priority("first"), Some(DEFAULT_PRIORITY));
    assert_eq!(probe_cursor(&reg, b"x"), "second");

    reg.register_probe("first", always(100));
    let cands = reg.probe_candidates(&ProbeData {
        buf: b"x",
        ext: None,
    });
    assert_eq!(names(&cands), vec!["first", "second"]);
    assert_eq!(cands[0].order, 0);
    assert_eq!(reg.probe_priority("never-registered"), None);
}

#[test]
fn probe_input_falls_back_to_extension_when_nothing_scores() {
    let mut reg = Reg::new();
    reg.register_probe("silent", always(0));
    reg.register_extension("xyz", "by-extension");
    assert_eq!(
        reg.probe_buffer(b"bytes", Some("XYZ")).unwrap(),
        "by-extension"
    );
    assert!(matches!(
        reg.probe_buffer(b"bytes", Some("abc")),
        Err(Error::FormatNotFound(_))
    ));
}

#[test]
fn extension_equal_priority_most_recent_wins_deterministically() {
    for _ in 0..1000 {
        let mut reg = Reg::new();
        reg.register_extension("SYN", "first");
        reg.register_extension("syn", "second");
        reg.register_extension("Syn", "third");
        assert_eq!(reg.container_for_extension("syn"), Some("third"));
        assert_eq!(reg.container_for_extension("SYN"), Some("third"));
        let cands = reg.extension_candidates("syn");
        assert_eq!(
            cands.iter().map(|c| c.container).collect::<Vec<_>>(),
            vec!["third", "second", "first"]
        );
        assert_eq!(
            cands.iter().map(|c| c.order).collect::<Vec<_>>(),
            vec![2, 1, 0]
        );
    }
}

#[test]
fn extension_priority_beats_registration_recency() {
    let mut reg = Reg::new();
    reg.register_extension_with_priority("syn", "pinned", 10);
    reg.register_extension("syn", "later-default");
    reg.register_extension("syn", "latest-default");
    assert_eq!(reg.container_for_extension("syn"), Some("pinned"));
    let cands = reg.extension_candidates("syn");
    assert_eq!(
        cands.iter().map(|c| c.container).collect::<Vec<_>>(),
        vec!["pinned", "latest-default", "later-default"]
    );
    assert_eq!(cands[0].priority, 10);
    assert_eq!(cands[1].priority, DEFAULT_PRIORITY);

    reg.register_extension_with_priority("syn", "pinned-harder", 1);
    assert_eq!(reg.container_for_extension("syn"), Some("pinned-harder"));
    reg.register_extension("other", "elsewhere");
    assert_eq!(reg.container_for_extension("other"), Some("elsewhere"));
    assert!(reg.extension_candidates("nope").is_empty());
    assert_eq!(reg.container_for_extension("nope"), None);
}

#[test]
fn extension_order_is_global_across_extensions() {
    let mut reg = Reg::new();
    reg.register_extension("a", "x");
    reg.register_extension("b", "y");
    reg.register_extension("a", "z");
    let a = reg.extension_candidates("a");
    let b = reg.extension_candidates("b");
    assert_eq!(a.iter().map(|c| c.order).collect::<Vec<_>>(), vec![2, 0]);
    assert_eq!(b[0].order, 1);
}

#[test]
fn default_chapters_and_attachments_are_empty() {
    let d = DummyDemuxer;
    assert!(d.attached_pictures().is_empty());
    assert!(d.metadata().is_empty());
    assert_eq!(d.duration_micros(), None);
}

// ───────────── further cases ─────────────

#[test]
fn demuxer_lookup_reads_back_the_latest_registration() {
    let mut reg: ContainerRegistry<ContainerProbeFn, u32, &'static str> = ContainerRegistry::new();
    reg.register_demuxer("wav", 1);
    reg.register_demuxer("flac", 2);
    reg.register_demuxer("wav", 3);
    assert_eq!(reg.open_demuxer("wav").ok(), Some(&3));
    assert_eq!(reg.open_demuxer("flac").ok(), Some(&2));
    assert_eq!(reg.demuxer_names(), vec!["wav", "flac"]);
    match reg.open_demuxer("mkv") {
        Err(Error::FormatNotFound(name)) => assert_eq!(name, "mkv"),
        _ => panic!("expected FormatNotFound"),
    }
    reg.register_muxer("wav", "wav-writer");
    assert_eq!(reg.open_muxer("wav").ok(), Some(&"wav-writer"));
    assert_eq!(reg.muxer_names(), vec!["wav"]);
    assert!(matches!(reg.open_muxer("ogg"), Err(Error::FormatNotFound(_))));
}

#[test]
fn nothing_recognised_is_format_not_found() {
    let reg = Reg::new();
    match reg.probe_buffer(b"bytes", None) {
        Err(Error::FormatNotFound(msg)) => {
            assert_eq!(msg, "no registered demuxer recognises this input")
        }
        _ => panic!("expected FormatNotFound"),
    }
}

#[test]
fn probes_see_the_lower_cased_extension() {
    fn ext_probe(data: &ProbeData) -> ProbeScore {
        if data.ext == Some("mp3") {
            75
        } else {
            0
        }
    }
    let mut reg: Reg = ContainerRegistry::new();
    reg.register_probe("mp3", ext_probe);
    assert_eq!(reg.probe_buffer(b"", Some("MP3")).unwrap(), "mp3");
    assert!(reg.probe_buffer(b"", Some("wav")).is_err());
}

#[test]
fn rank_probe_scores_orders_by_score_priority_order() {
    let mut reg = Reg::new();
    reg.register_probe("a", always(0));
    reg.register_probe_with_priority("b", always(0), 7);
    reg.register_probe("c", always(0));
    let ranked = reg.rank_probe_scores(&[30, 30, 0]);
    assert_eq!(names(&ranked), vec!["b", "a"]);
    assert_eq!(ranked[0].score, 30);
    assert_eq!(
        reg.resolve_probe_scores(&[0, 0, 40], None).unwrap(),
        "c"
    );
}
