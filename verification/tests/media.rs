//! Encoders, the pipeline's plan, codec strings, timestamps and the preview tap.

use bumps_pipe::codec::{
    av1_codec_string, av1_seq_level_idx, check_level, h264_codec_string, hevc_codec_string,
    init_from_caps, parse_h264_level, parse_hevc_level, VideoCaps,
};
use bumps_pipe::encoder::{
    encoder_factory, encoder_props, parser_factory, parser_props, Bitstream, EncoderKind,
    EncoderSettings, PropValue,
};
use bumps_pipe::flatten::{FlattenState, Stamps};
use bumps_pipe::preview::PreviewTap;
use bumps_pipe::topology::{
    on_demux_pad, pipeline_links, pipeline_stages, stage_factory, stage_name, stage_props, Join,
    PadDecision, Stage,
};

fn settings(kind: EncoderKind) -> EncoderSettings {
    EncoderSettings {
        kind,
        bitrate_kbps: 8000,
        max_bitrate_kbps: 9600,
        gop_size: 30,
        target_usage: 1,
        speed_preset: "medium".to_string(),
    }
}

fn value_of(kind: EncoderKind, key: &str) -> Option<PropValue> {
    encoder_props(&settings(kind))
        .into_iter()
        .find(|p| p.key == key)
        .map(|p| p.value)
}

const KINDS: [EncoderKind; 6] = [
    EncoderKind::QsvHevc,
    EncoderKind::VtHevc,
    EncoderKind::X264,
    EncoderKind::QsvAv1,
    EncoderKind::VaHevc,
    EncoderKind::VaAv1,
];

#[test]
fn encoder_names() {
    assert_eq!(EncoderKind::default_on(true), EncoderKind::VtHevc);
    assert_eq!(EncoderKind::default_on(false), EncoderKind::QsvHevc);
    let labels: Vec<&str> = KINDS.iter().map(|k| k.label()).collect();
    assert_eq!(labels, vec!["qsv-hevc", "vt-hevc", "x264", "qsv-av1", "va-hevc", "va-av1"]);
    let factories: Vec<&str> = KINDS.iter().map(|k| encoder_factory(*k)).collect();
    assert_eq!(
        factories,
        vec!["qsvh265enc", "vtenc_h265", "x264enc", "qsvav1enc", "vah265enc", "vaav1enc"]
    );
    assert_eq!(parser_factory(Bitstream::H264), "h264parse");
    assert_eq!(parser_factory(Bitstream::H265), "h265parse");
    assert_eq!(parser_factory(Bitstream::Av1), "av1parse");
    assert_eq!(EncoderKind::VaAv1.bitstream(), Bitstream::Av1);
}

#[test]
fn every_encoder_starts_at_the_bitrate() {
    for k in KINDS {
        let props = encoder_props(&settings(k));
        assert_eq!(props[0].key, "bitrate");
        assert_eq!(props[0].value, PropValue::U32(8000));
    }
}

#[test]
fn encoder_settings_by_kind() {
    assert_eq!(
        value_of(EncoderKind::QsvHevc, "target-usage"),
        Some(PropValue::U32(1))
    );
    assert_eq!(
        value_of(EncoderKind::QsvAv1, "target-usage"),
        Some(PropValue::U32(3))
    );
    assert_eq!(
        value_of(EncoderKind::VaAv1, "target-usage"),
        Some(PropValue::U32(3))
    );
    assert_eq!(
        value_of(EncoderKind::QsvHevc, "max-bitrate"),
        Some(PropValue::U32(9600))
    );
    assert_eq!(value_of(EncoderKind::VaHevc, "cpb-size"), Some(PropValue::U32(8000)));
    assert_eq!(
        value_of(EncoderKind::VaHevc, "rate-control"),
        Some(PropValue::Named("cbr".to_string()))
    );
    assert_eq!(
        value_of(EncoderKind::QsvAv1, "rate-control"),
        Some(PropValue::Named("vbr".to_string()))
    );
    assert_eq!(
        value_of(EncoderKind::X264, "option-string"),
        Some(PropValue::Text("vbv-maxrate=9600:vbv-bufsize=19200".to_string()))
    );
    assert_eq!(
        value_of(EncoderKind::X264, "speed-preset"),
        Some(PropValue::Named("medium".to_string()))
    );
    assert_eq!(
        value_of(EncoderKind::VtHevc, "max-keyframe-interval"),
        Some(PropValue::I32(30))
    );
    assert_eq!(value_of(EncoderKind::VtHevc, "quality"), Some(PropValue::Quality));
    assert_eq!(parser_props(Bitstream::H264)[0].value, PropValue::I32(1));
    assert!(parser_props(Bitstream::Av1).is_empty());
}

#[test]
fn plan_is_a_tree_from_the_source() {
    for preview in [false, true] {
        let stages = pipeline_stages(preview);
        let links = pipeline_links(preview);
        assert_eq!(stages.len(), if preview { 15 } else { 13 });
        assert_eq!(links.len() + 1, stages.len());
        for s in &stages {
            let feeds = links.iter().filter(|l| l.to == *s).count();
            assert_eq!(feeds, if *s == Stage::Ingest { 0 } else { 1 });
        }
        for l in &links {
            assert!(stages.contains(&l.from) && stages.contains(&l.to));
        }
    }
    let dynamic: Vec<_> = pipeline_links(true)
        .into_iter()
        .filter(|l| l.join == Join::DemuxPad)
        .collect();
    assert_eq!(dynamic.len(), 1);
    assert_eq!((dynamic[0].from, dynamic[0].to), (Stage::Demux, Stage::ParseIn));
}

#[test]
fn stages_by_name_and_factory() {
    let e = settings(EncoderKind::X264);
    assert_eq!(stage_name(Stage::SrtSink), "uplink");
    assert_eq!(stage_name(Stage::Ingest), "ingest");
    assert_eq!(stage_factory(Stage::SrtSink, &e), "srtsink");
    assert_eq!(stage_factory(Stage::Encode, &e), "x264enc");
    assert_eq!(stage_factory(Stage::ParseOut, &e), "h264parse");
    assert_eq!(stage_factory(Stage::QueuePreview, &e), "queue");
}

#[test]
fn only_the_preview_queue_leaks() {
    let e = settings(EncoderKind::X264);
    let srt = stage_props(Stage::QueueSrt, &e, "");
    assert!(srt.iter().all(|p| p.key != "leaky"));
    assert_eq!(srt[0].value, PropValue::U32(200));
    assert_eq!(srt[2].value, PropValue::U64(6_000_000_000));
    let preview = stage_props(Stage::QueuePreview, &e, "");
    assert_eq!(preview[0].value, PropValue::U32(60));
    assert_eq!(preview[3].key, "leaky");
    assert_eq!(preview[3].value, PropValue::Named("downstream".to_string()));
}

#[test]
fn stage_properties() {
    let e = settings(EncoderKind::QsvHevc);
    let sink = stage_props(Stage::SrtSink, &e, "srt://h:1");
    assert_eq!(sink[0].value, PropValue::Text("srt://h:1".to_string()));
    assert_eq!(sink[2].key, "sync");
    assert_eq!(sink[2].value, PropValue::Bool(false));
    let tap = stage_props(Stage::PreviewSink, &e, "");
    match &tap[4].value {
        PropValue::Caps { media, fields } => {
            assert_eq!(media, "video/x-h265");
            assert_eq!(fields[0].key, "stream-format");
            assert_eq!(fields[0].value, "byte-stream");
            assert_eq!(fields[1].value, "au");
        }
        other => panic!("unexpected {other:?}"),
    }
    let av1 = settings(EncoderKind::VaAv1);
    assert_eq!(stage_props(Stage::PreviewSink, &av1, "").len(), 4);
    assert_eq!(stage_props(Stage::Ingest, &e, "").len(), 6);
    assert!(stage_props(Stage::Decode, &e, "").is_empty());
    assert_eq!(stage_props(Stage::Encode, &e, "").len(), 6);
}

#[test]
fn demuxer_pads() {
    assert_eq!(on_demux_pad("audio_0", true, true, false), PadDecision::NotVideo);
    assert_eq!(on_demux_pad("video", false, true, false), PadDecision::ParserGone);
    assert_eq!(on_demux_pad("video", true, false, false), PadDecision::NoSinkPad);
    assert_eq!(on_demux_pad("video", true, true, true), PadDecision::AlreadyLinked);
    assert_eq!(on_demux_pad("video_0", true, true, false), PadDecision::Link);
}

#[test]
fn h264_levels_and_strings() {
    assert_eq!(parse_h264_level("3.1"), Some(31));
    assert_eq!(parse_h264_level("4"), Some(40));
    assert_eq!(parse_h264_level("4.x"), Some(40));
    assert_eq!(parse_h264_level("x.1"), None);
    assert_eq!(parse_h264_level(""), None);
    assert_eq!(parse_h264_level("256"), None);
    assert_eq!(h264_codec_string("constrained-baseline", "3.1"), "avc1.42C01F");
    assert_eq!(h264_codec_string("main", "4"), "avc1.4D4028");
    assert_eq!(h264_codec_string("extended", "bad"), "avc1.58001F");
    assert_eq!(h264_codec_string("high", "5.2"), "avc1.640034");
    assert_eq!(h264_codec_string("odd", "3.1"), "avc1.42C01F");
}

#[test]
fn hevc_levels_and_strings() {
    assert_eq!(parse_hevc_level("3.1"), Some(93));
    assert_eq!(parse_hevc_level("5"), Some(150));
    assert_eq!(parse_hevc_level("five"), None);
    assert_eq!(hevc_codec_string("main", "main", "3.1"), "hev1.1.6.L93.B0");
    assert_eq!(hevc_codec_string("main-10", "HIGH", "4.1"), "hev1.2.6.H123.B0");
    assert_eq!(hevc_codec_string("main-still-picture", "x", "?"), "hev1.3.6.L93.B0");
}

#[test]
fn av1_levels_and_strings() {
    assert_eq!(av1_seq_level_idx("4.0"), Some(8));
    assert_eq!(av1_seq_level_idx("2.1"), Some(1));
    assert_eq!(av1_seq_level_idx("1.3"), Some(3));
    assert_eq!(av1_seq_level_idx("+5.1.9"), Some(13));
    assert_eq!(av1_codec_string("main", "main", "4.0", 8), "av01.0.08M.08");
    assert_eq!(av1_codec_string("high", "High", "6.3", 10), "av01.1.19H.10");
    assert_eq!(av1_codec_string("professional", "main", "-", 120), "av01.2.08M.120");
}

fn caps(media: &str) -> VideoCaps {
    VideoCaps {
        media: media.to_string(),
        width: Some(1920),
        height: Some(1080),
        framerate: None,
        profile: None,
        tier: None,
        level: None,
        bit_depth: None,
        bit_depth_signed: None,
    }
}

#[test]
fn formats_with_defaults() {
    let h264 = init_from_caps(&caps("video/x-h264")).unwrap();
    assert_eq!(h264.codec, "avc1.42C01F");
    assert_eq!((h264.width, h264.height), (1920, 1080));
    assert_eq!((h264.fps_num, h264.fps_den), (30, 1));
    assert_eq!(init_from_caps(&caps("video/x-h265")).unwrap().codec, "hev1.1.6.L93.B0");
    assert_eq!(init_from_caps(&caps("video/x-av1")).unwrap().codec, "av01.0.08M.08");
    assert!(init_from_caps(&caps("video/x-vp9")).is_none());
}

#[test]
fn formats_with_fields() {
    let mut c = caps("video/x-av1");
    c.framerate = Some((60_000, 1001));
    c.bit_depth_signed = Some(10);
    c.level = Some("5.0".to_string());
    let i = init_from_caps(&c).unwrap();
    assert_eq!(i.codec, "av01.0.12M.10");
    assert_eq!((i.fps_num, i.fps_den), (60_000, 1001));
    c.bit_depth = Some(12);
    assert_eq!(init_from_caps(&c).unwrap().codec, "av01.0.12M.12");
    c.width = None;
    assert!(init_from_caps(&c).is_none());
}

#[test]
fn levels_out_of_range_are_told() {
    let mut c = caps("video/x-h264");
    c.level = Some("25.6".to_string());
    assert!(!check_level(&c));
    c.level = Some("25.5".to_string());
    assert!(check_level(&c));
    assert_eq!(parse_h264_level("25.5"), Some(255));
    c.media = "video/x-h265".to_string();
    c.level = Some("4294967295".to_string());
    assert!(!check_level(&c));
    c.media = "video/x-av1".to_string();
    assert!(!check_level(&c));
    c.media = "other".to_string();
    assert!(check_level(&c));
}

#[test]
fn init_is_published_once() {
    let mut tap = PreviewTap::new();
    assert!(tap.on_format(&None).is_none());
    assert!(tap.on_format(&Some(caps("video/x-vp9"))).is_none());
    let first = tap.on_format(&Some(caps("video/x-h265")));
    assert_eq!(first.unwrap().codec, "hev1.1.6.L93.B0");
    assert!(tap.on_format(&Some(caps("video/x-h264"))).is_none());
}

#[test]
fn a_timestamp_at_the_end_of_the_clock_is_told() {
    let mut s = FlattenState::new();
    let last = Stamps {
        pts: Some(u64::MAX - 1),
        dts: None,
    };
    assert!(s.fits(&last));
    s.step(last);
    assert!(!s.fits(&last));
    assert!(s.fits(&Stamps { pts: None, dts: Some(0) }));
}

#[test]
fn a_level_without_a_size_is_not_looked_at() {
    let mut c = caps("video/x-h264");
    c.level = Some("99.9".to_string());
    assert!(!check_level(&c));
    c.width = None;
    assert!(check_level(&c));
    assert!(init_from_caps(&c).is_none());
}

#[test]
fn colliding_timestamps_are_moved() {
    let mut s = FlattenState::new();
    let at = |ms: u64| Stamps {
        pts: Some(ms * 1_000_000),
        dts: Some(ms * 1_000_000),
    };
    assert_eq!(s.step(at(0)), (at(0), false));
    assert_eq!(s.step(at(33)), (at(33), false));
    assert_eq!(s.step(at(33)), (at(34), true));
    assert_eq!(s.step(at(66)), (at(66), false));
    assert_eq!(s.step(at(10)), (at(67), true));
}

#[test]
fn one_anomaly_for_both_stamps() {
    let mut s = FlattenState::new();
    s.step(Stamps {
        pts: Some(50),
        dts: Some(10),
    });
    let (out, bumped) = s.step(Stamps {
        pts: Some(60),
        dts: Some(10),
    });
    assert_eq!((out.pts, out.dts), (Some(60), Some(1_000_010)));
    assert!(bumped);
    let (none, moved) = s.step(Stamps {
        pts: None,
        dts: None,
    });
    assert_eq!((none.pts, none.dts), (None, None));
    assert!(!moved);
    assert_eq!((s.prev_pts, s.prev_dts), (Some(60), Some(1_000_010)));
}

#[test]
fn flattened_stream_increases_on_the_wire_clock() {
    let raw = [0u64, 0, 33, 33, 66, 99, 99, 132, 131, 165];
    let mut s = FlattenState::new();
    let mut last: Option<u64> = None;
    for ms in raw {
        let t = ms * 1_000_000;
        let (out, _) = s.step(Stamps {
            pts: Some(t),
            dts: None,
        });
        let pts = out.pts.unwrap();
        assert!(pts == t || pts > t);
        let tick = pts * 9 / 100_000;
        assert!(last.map_or(true, |l| tick > l));
        last = Some(tick);
    }
    assert_eq!(s.prev_pts, Some(165_000_000));
}
