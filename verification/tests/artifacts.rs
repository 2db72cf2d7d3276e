//! Session names, timestamps, metadata and retention.

use bumps_pipe::calendar::ymdhms;
use bumps_pipe::capture::{
    config_snapshot, default_data_dir, iso_basic, iso_human, millis, sanitise, session_id,
    ConfigSnapshot, SessionMetadata,
};
use bumps_pipe::encoder::{EncoderKind, EncoderSettings};
use bumps_pipe::events::{CaptureEvent, FieldValue};
use bumps_pipe::retention::{newest_first, retention_victims};

fn config() -> ConfigSnapshot {
    ConfigSnapshot {
        encoder: "x264".to_string(),
        bitrate_kbps: 8000,
        gop_size: 30,
        srt_uri: "srt://a:1".to_string(),
    }
}

#[test]
fn dates_of_known_moments() {
    assert_eq!(ymdhms(0), (1970, 1, 1, 0, 0, 0));
    assert_eq!(ymdhms(951_782_400), (2000, 2, 29, 0, 0, 0));
    assert_eq!(ymdhms(1_709_251_199), (2024, 2, 29, 23, 59, 59));
    assert_eq!(ymdhms(1_709_251_200), (2024, 3, 1, 0, 0, 0));
    assert_eq!(ymdhms(4_107_542_400), (2100, 3, 1, 0, 0, 0));
    assert_eq!(ymdhms(4_107_542_399), (2100, 2, 28, 23, 59, 59));
    assert_eq!(ymdhms(253_402_300_799), (9999, 12, 31, 23, 59, 59));
}

#[test]
fn dates_run_in_order() {
    let mut last = ymdhms(0);
    for day in 1..200_000u64 {
        let next = ymdhms(day * 86_400);
        assert!((next.0, next.1, next.2) > (last.0, last.1, last.2));
        assert!(next.2 == last.2 + 1 || next.2 == 1);
        last = next;
    }
}

#[test]
fn timestamps_as_text() {
    assert_eq!(iso_basic(1_700_000_000_123), "20231114T221320Z");
    assert_eq!(iso_human(1_700_000_000_123), "2023-11-14T22:13:20.123Z");
    assert_eq!(iso_human(7), "1970-01-01T00:00:00.007Z");
}

#[test]
fn stream_keys_are_sanitised() {
    assert_eq!(sanitise(""), "anon");
    assert_eq!(sanitise("live/Drone 1"), "live_Drone_1");
    assert_eq!(sanitise("né"), "n_");
    assert_eq!(sanitise("../.."), "_____");
    assert_eq!(sanitise(&"a".repeat(100)), "a".repeat(64));
}

#[test]
fn session_id_from_parts() {
    assert_eq!(
        session_id(1_700_000_000_123_456, "my key"),
        "20231114T221320Z-123456-my_key"
    );
    assert_eq!(
        session_id(1_700_000_000_000_042, ""),
        "20231114T221320Z-000042-anon"
    );
}

#[test]
fn session_ids_of_two_moments_differ() {
    assert_ne!(
        session_id(1_700_000_000_000_001, "k"),
        session_id(1_700_000_000_000_002, "k")
    );
    assert_ne!(
        session_id(1_700_000_000_000_001, "k"),
        session_id(1_700_000_001_000_001, "k")
    );
}

#[test]
fn compact_timestamps_sort_as_time() {
    let moments: [u64; 6] = [
        0,
        999_999,
        86_399_000,
        86_400_000,
        1_700_000_000_000,
        253_402_300_799_000,
    ];
    for w in moments.windows(2) {
        let (a, b) = (iso_basic(w[0]), iso_basic(w[1]));
        assert!(a < b, "{a} {b}");
        assert_eq!((a.len(), &a[8..9], &a[15..]), (16, "T", "Z"));
    }
}

#[test]
fn session_ids_past_the_year_9999() {
    assert_eq!(
        session_id(253_402_300_800_000_001, "k"),
        "100000101T000000Z-000001-k"
    );
    assert_ne!(
        session_id(253_402_300_800_000_001, "k"),
        session_id(253_402_300_799_000_001, "k")
    );
}

#[test]
fn session_id_holds_no_separator() {
    let id = session_id(1_700_000_000_000_001, "../../etc/passwd");
    assert!(id.chars().all(|c| c.is_ascii_alphanumeric() || c == '-' || c == '_'));
}

#[test]
fn microseconds_in_milliseconds() {
    assert_eq!(millis(1_700_000_000_123_999), 1_700_000_000_123);
}

#[test]
fn data_dir_priority() {
    let given = default_data_dir(Some("/data".to_string()), Some("/home/a".to_string()));
    assert_eq!((given.base.as_str(), given.below.as_str()), ("/data", ""));
    let home = default_data_dir(None, Some("/home/a".to_string()));
    assert_eq!(
        (home.base.as_str(), home.below.as_str()),
        ("/home/a", ".local/share/bumps-pipe")
    );
    let neither = default_data_dir(None, None);
    assert_eq!((neither.base.as_str(), neither.below.as_str()), ("bumps-data", ""));
}

#[test]
fn metadata_opens_and_closes() {
    let mut m = SessionMetadata::open(
        1_700_000_000_123_456,
        "key".to_string(),
        "1.2.3.4:5".to_string(),
        "0.1.0".to_string(),
        config(),
    );
    assert_eq!(m.session_id, "20231114T221320Z-123456-key");
    assert_eq!(m.start_unix_ms, 1_700_000_000_123);
    assert_eq!(m.start_iso_utc, "2023-11-14T22:13:20.123Z");
    assert_eq!(m.stop_unix_ms, None);
    assert_eq!(m.stop_reason, None);
    m.close(1_700_000_002_500, "restart".to_string());
    assert_eq!(m.stop_unix_ms, Some(1_700_000_002_500));
    assert_eq!(m.stop_iso_utc, Some("2023-11-14T22:13:22.500Z".to_string()));
    assert_eq!(m.duration_ms, Some(2_377));
    assert_eq!(m.stop_reason, Some("restart".to_string()));
    m.close(0, "x".to_string());
    assert_eq!(m.duration_ms, Some(0));
}

#[test]
fn configuration_is_recorded() {
    let s = EncoderSettings {
        kind: EncoderKind::VaAv1,
        bitrate_kbps: 3000,
        max_bitrate_kbps: 3600,
        gop_size: 60,
        target_usage: 3,
        speed_preset: "faster".to_string(),
    };
    let c = config_snapshot(&s, "srt://b:2");
    assert_eq!(c.encoder, "va-av1");
    assert_eq!(c.bitrate_kbps, 3000);
    assert_eq!(c.gop_size, 60);
    assert_eq!(c.srt_uri, "srt://b:2");
}

#[test]
fn newest_sessions_first() {
    assert_eq!(newest_first(&vec![30, 10, 20]), vec![0, 2, 1]);
    assert_eq!(newest_first(&vec![5, 5, 5]), vec![2, 1, 0]);
    assert_eq!(newest_first(&vec![]), Vec::<usize>::new());
}

#[test]
fn sweep_deletes_the_oldest() {
    assert_eq!(retention_victims(&vec![30, 10, 20, 40], 2), vec![2, 1]);
    assert_eq!(retention_victims(&vec![30, 10], 2), Vec::<usize>::new());
    assert_eq!(retention_victims(&vec![30, 10], 20), Vec::<usize>::new());
    assert_eq!(retention_victims(&vec![30, 10], 0), vec![0, 1]);
    assert_eq!(retention_victims(&vec![-5, 10], 1), vec![0]);
}

#[test]
fn records_have_kind_and_details() {
    let r = CaptureEvent::SessionStarted {
        app: "live".to_string(),
        stream_key: "k".to_string(),
        peer: "p".to_string(),
        pipeline_built: true,
    }
    .to_request();
    assert_eq!(r.kind, "session_started");
    assert_eq!(r.details.len(), 4);
    assert_eq!(r.details[0].key, "app");
    assert_eq!(r.details[0].value, FieldValue::Text("live".to_string()));
    assert_eq!(r.details[3].key, "pipeline_built");
    assert_eq!(r.details[3].value, FieldValue::Flag(true));

    let f = CaptureEvent::PipelineFailed {
        src: "enc".to_string(),
        message: "boom".to_string(),
    }
    .to_request();
    assert_eq!(f.kind, "pipeline_error");
    assert_eq!(f.details[0].value, FieldValue::Text("enc: boom".to_string()));

    let p = CaptureEvent::PushFailed {
        error: "full".to_string(),
    }
    .to_request();
    assert_eq!(p.kind, "pipeline_error");
    assert_eq!(p.details[0].key, "where");
    assert_eq!(p.details[0].value, FieldValue::Text("push_flv".to_string()));

    let up = CaptureEvent::BitrateChanged {
        from_kbps: 4000,
        to_kbps: 5000,
    }
    .to_request();
    assert_eq!(up.details[0].value, FieldValue::Number(4000));
    assert_eq!(up.details[2].value, FieldValue::Text("up".to_string()));
    let down = CaptureEvent::BitrateChanged {
        from_kbps: 4000,
        to_kbps: 3000,
    }
    .to_request();
    assert_eq!(down.details[2].value, FieldValue::Text("down".to_string()));
    let none = CaptureEvent::DownlinkResumed.to_request();
    assert_eq!(none.kind, "downlink_resumed");
    assert!(none.details.is_empty());
}
