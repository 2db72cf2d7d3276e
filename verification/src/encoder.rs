//! Encoders: which element each kind instantiates and with what properties.

use vstd::prelude::*;
use vstd::string::*;

use crate::text;

verus! {

/// Which video encoder to use.
#[derive(Debug, Clone, Copy, PartialEq, Eq, Structural)]
pub enum EncoderKind {
    /// Intel QSV, HEVC.
    QsvHevc,
    /// Apple VideoToolbox, HEVC.
    VtHevc,
    /// libx264 in software, H.264.
    X264,
    /// Intel QSV, AV1.
    QsvAv1,
    /// VA-API, HEVC.
    VaHevc,
    /// VA-API, AV1.
    VaAv1,
}

/// The bitstream that an encoder produces.
#[derive(Debug, Clone, Copy, PartialEq, Eq, Structural)]
pub enum Bitstream {
    H264,
    H265,
    Av1,
}

/// The name of an encoder kind.
pub open spec fn label_spec(k: EncoderKind) -> Seq<char> {
    match k {
        EncoderKind::QsvHevc => "qsv-hevc"@,
        EncoderKind::VtHevc => "vt-hevc"@,
        EncoderKind::X264 => "x264"@,
        EncoderKind::QsvAv1 => "qsv-av1"@,
        EncoderKind::VaHevc => "va-hevc"@,
        EncoderKind::VaAv1 => "va-av1"@,
    }
}

/// The bitstream that an encoder kind produces.
pub open spec fn bitstream_spec(k: EncoderKind) -> Bitstream {
    match k {
        EncoderKind::QsvHevc | EncoderKind::VtHevc | EncoderKind::VaHevc => Bitstream::H265,
        EncoderKind::X264 => Bitstream::H264,
        EncoderKind::QsvAv1 | EncoderKind::VaAv1 => Bitstream::Av1,
    }
}

impl EncoderKind {
    /// The kind used where none is asked for: VideoToolbox on macOS, QSV
    /// elsewhere.
    pub fn default_on(macos: bool) -> (k: EncoderKind)
        ensures
            k == if macos {
                EncoderKind::VtHevc
            } else {
                EncoderKind::QsvHevc
            },
    {
        if macos {
            EncoderKind::VtHevc
        } else {
            EncoderKind::QsvHevc
        }
    }

    /// The name of this kind.
    pub fn label(self) -> (s: &'static str)
        ensures
            s@ == label_spec(self),
    {
        match self {
            EncoderKind::QsvHevc => "qsv-hevc",
            EncoderKind::VtHevc => "vt-hevc",
            EncoderKind::X264 => "x264",
            EncoderKind::QsvAv1 => "qsv-av1",
            EncoderKind::VaHevc => "va-hevc",
            EncoderKind::VaAv1 => "va-av1",
        }
    }

    /// The bitstream that this kind produces.
    pub fn bitstream(self) -> (b: Bitstream)
        ensures
            b == bitstream_spec(self),
    {
        match self {
            EncoderKind::QsvHevc | EncoderKind::VtHevc | EncoderKind::VaHevc => Bitstream::H265,
            EncoderKind::X264 => Bitstream::H264,
            EncoderKind::QsvAv1 | EncoderKind::VaAv1 => Bitstream::Av1,
        }
    }
}

// ── element properties ──────────────────────────────────────────────────────

/// A constraint on a media format.
#[derive(Debug, Clone, PartialEq, Eq)]
pub struct CapsField {
    pub key: String,
    pub value: String,
}

/// The value of an element property.
#[derive(Debug, Clone, PartialEq, Eq)]
pub enum PropValue {
    Bool(bool),
    U32(u32),
    U64(u64),
    I32(i32),
    Text(String),
    /// An enumeration value, by its name.
    Named(String),
    /// A media format with text fields.
    Caps { media: String, fields: Vec<CapsField> },
    /// The quality that the program works out for this encoder.
    Quality,
}

/// An element property.
#[derive(Debug, Clone, PartialEq, Eq)]
pub struct Prop {
    pub key: String,
    pub value: PropValue,
}

/// A property value, with text as characters.
pub enum ValueView {
    Bool(bool),
    U32(u32),
    U64(u64),
    I32(i32),
    Text(Seq<char>),
    Named(Seq<char>),
    Caps { media: Seq<char>, fields: Seq<(Seq<char>, Seq<char>)> },
    Quality,
}

/// A property, with text as characters.
pub struct PropView {
    pub key: Seq<char>,
    pub value: ValueView,
}

/// The constraints of a media format, with text as characters.
pub open spec fn caps_views(fields: Seq<CapsField>) -> Seq<(Seq<char>, Seq<char>)> {
    Seq::new(fields.len(), |i: int| (fields[i].key@, fields[i].value@))
}

impl View for Prop {
    type V = PropView;

    open spec fn view(&self) -> PropView {
        PropView {
            key: self.key@,
            value: match self.value {
                PropValue::Bool(b) => ValueView::Bool(b),
                PropValue::U32(n) => ValueView::U32(n),
                PropValue::U64(n) => ValueView::U64(n),
                PropValue::I32(n) => ValueView::I32(n),
                PropValue::Text(s) => ValueView::Text(s@),
                PropValue::Named(s) => ValueView::Named(s@),
                PropValue::Caps { media, fields } => ValueView::Caps {
                    media: media@,
                    fields: caps_views(fields@),
                },
                PropValue::Quality => ValueView::Quality,
            },
        }
    }
}

/// The properties of a list, with text as characters.
pub open spec fn prop_views(props: Seq<Prop>) -> Seq<PropView> {
    Seq::new(props.len(), |i: int| props[i]@)
}

pub(crate) fn prop_bool(key: &str, b: bool) -> (p: Prop)
    ensures
        p@ == (PropView { key: key@, value: ValueView::Bool(b) }),
{
    Prop { key: key.to_owned(), value: PropValue::Bool(b) }
}

pub(crate) fn prop_u32(key: &str, n: u32) -> (p: Prop)
    ensures
        p@ == (PropView { key: key@, value: ValueView::U32(n) }),
{
    Prop { key: key.to_owned(), value: PropValue::U32(n) }
}

pub(crate) fn prop_u64(key: &str, n: u64) -> (p: Prop)
    ensures
        p@ == (PropView { key: key@, value: ValueView::U64(n) }),
{
    Prop { key: key.to_owned(), value: PropValue::U64(n) }
}

pub(crate) fn prop_i32(key: &str, n: i32) -> (p: Prop)
    ensures
        p@ == (PropView { key: key@, value: ValueView::I32(n) }),
{
    Prop { key: key.to_owned(), value: PropValue::I32(n) }
}

pub(crate) fn prop_text(key: &str, s: &str) -> (p: Prop)
    ensures
        p@ == (PropView { key: key@, value: ValueView::Text(s@) }),
{
    Prop { key: key.to_owned(), value: PropValue::Text(s.to_owned()) }
}

pub(crate) fn prop_named(key: &str, s: &str) -> (p: Prop)
    ensures
        p@ == (PropView { key: key@, value: ValueView::Named(s@) }),
{
    Prop { key: key.to_owned(), value: PropValue::Named(s.to_owned()) }
}

pub(crate) fn caps_field(key: &str, value: &str) -> (f: CapsField)
    ensures
        f.key@ == key@,
        f.value@ == value@,
{
    CapsField { key: key.to_owned(), value: value.to_owned() }
}

// ── encoder settings ────────────────────────────────────────────────────────

/// What the encoder is set up from. `target_usage` and `speed_preset` are what
/// the quality lever comes to for the encoders that use them.
#[derive(Debug, Clone, PartialEq, Eq)]
pub struct EncoderSettings {
    pub kind: EncoderKind,
    pub bitrate_kbps: u32,
    /// The rate that the encoder must never burst above.
    pub max_bitrate_kbps: u32,
    pub gop_size: u32,
    pub target_usage: u32,
    pub speed_preset: String,
}

/// The element that an encoder kind instantiates.
pub open spec fn factory_spec(k: EncoderKind) -> Seq<char> {
    match k {
        EncoderKind::QsvHevc => "qsvh265enc"@,
        EncoderKind::VtHevc => "vtenc_h265"@,
        EncoderKind::X264 => "x264enc"@,
        EncoderKind::QsvAv1 => "qsvav1enc"@,
        EncoderKind::VaHevc => "vah265enc"@,
        EncoderKind::VaAv1 => "vaav1enc"@,
    }
}

/// The parser that follows an encoder.
pub open spec fn parser_spec(b: Bitstream) -> Seq<char> {
    match b {
        Bitstream::H264 => "h264parse"@,
        Bitstream::H265 => "h265parse"@,
        Bitstream::Av1 => "av1parse"@,
    }
}

/// The element that an encoder kind instantiates.
pub fn encoder_factory(k: EncoderKind) -> (s: &'static str)
    ensures
        s@ == factory_spec(k),
{
    match k {
        EncoderKind::QsvHevc => "qsvh265enc",
        EncoderKind::VtHevc => "vtenc_h265",
        EncoderKind::X264 => "x264enc",
        EncoderKind::QsvAv1 => "qsvav1enc",
        EncoderKind::VaHevc => "vah265enc",
        EncoderKind::VaAv1 => "vaav1enc",
    }
}

/// The parser that follows an encoder.
pub fn parser_factory(b: Bitstream) -> (s: &'static str)
    ensures
        s@ == parser_spec(b),
{
    match b {
        Bitstream::H264 => "h264parse",
        Bitstream::H265 => "h265parse",
        Bitstream::Av1 => "av1parse",
    }
}

/// The speed setting for AV1, which is too heavy for the slowest two tiers.
pub open spec fn av1_usage(target_usage: u32) -> u32 {
    if target_usage >= 3 {
        target_usage
    } else {
        3
    }
}

/// The rate cap that x264 is given: the ceiling, with a buffer of two seconds.
pub open spec fn x264_options(max_bitrate_kbps: u32) -> Seq<char> {
    "vbv-maxrate="@ + text::dec(max_bitrate_kbps as nat) + ":vbv-bufsize="@ + text::dec(
        (max_bitrate_kbps * 2) as nat,
    )
}

/// The properties of the encoder element, in the order in which they are set.
pub open spec fn encoder_props_spec(s: EncoderSettings) -> Seq<PropView> {
    let bitrate = PropView { key: "bitrate"@, value: ValueView::U32(s.bitrate_kbps) };
    let ceiling = PropView { key: "max-bitrate"@, value: ValueView::U32(s.max_bitrate_kbps) };
    let window = PropView { key: "cpb-size"@, value: ValueView::U32(s.bitrate_kbps) };
    let gop = PropView { key: "gop-size"@, value: ValueView::U32(s.gop_size) };
    let key_int = PropView { key: "key-int-max"@, value: ValueView::U32(s.gop_size) };
    let low_latency = PropView { key: "low-latency"@, value: ValueView::Bool(true) };
    let usage = PropView { key: "target-usage"@, value: ValueView::U32(s.target_usage) };
    let slow_usage = PropView {
        key: "target-usage"@,
        value: ValueView::U32(av1_usage(s.target_usage)),
    };
    let vbr = PropView { key: "rate-control"@, value: ValueView::Named("vbr"@) };
    let cbr = PropView { key: "rate-control"@, value: ValueView::Named("cbr"@) };
    match s.kind {
        EncoderKind::QsvHevc => seq![bitrate, ceiling, gop, low_latency, usage, vbr],
        EncoderKind::VtHevc => seq![
            bitrate,
            PropView {
                key: "max-keyframe-interval"@,
                value: ValueView::I32(s.gop_size as i32),
            },
            PropView { key: "realtime"@, value: ValueView::Bool(true) },
            PropView { key: "allow-frame-reordering"@, value: ValueView::Bool(false) },
            PropView { key: "quality"@, value: ValueView::Quality },
        ],
        EncoderKind::X264 => seq![
            bitrate,
            key_int,
            PropView { key: "bframes"@, value: ValueView::U32(0) },
            PropView {
                key: "option-string"@,
                value: ValueView::Text(x264_options(s.max_bitrate_kbps)),
            },
            PropView { key: "speed-preset"@, value: ValueView::Named(s.speed_preset@) },
            PropView { key: "tune"@, value: ValueView::Named("zerolatency"@) },
        ],
        EncoderKind::QsvAv1 => seq![bitrate, ceiling, gop, low_latency, slow_usage, vbr],
        EncoderKind::VaHevc => seq![bitrate, window, key_int, usage, cbr],
        EncoderKind::VaAv1 => seq![bitrate, window, key_int, slow_usage, cbr],
    }
}

fn x264_option_string(max_bitrate_kbps: u32) -> (s: String)
    requires
        max_bitrate_kbps * 2 <= u32::MAX,
    ensures
        s@ == x264_options(max_bitrate_kbps),
{
    let mut s = "vbv-maxrate=".to_owned();
    text::push_dec(&mut s, max_bitrate_kbps as u64);
    s.append(":vbv-bufsize=");
    text::push_dec(&mut s, (max_bitrate_kbps * 2) as u64);
    s
}

/// The properties of the encoder element.
pub fn encoder_props(s: &EncoderSettings) -> (props: Vec<Prop>)
    requires
        s.kind == EncoderKind::X264 ==> s.max_bitrate_kbps * 2 <= u32::MAX,
    ensures
        prop_views(props@) == encoder_props_spec(*s),
{
    let mut props: Vec<Prop> = Vec::new();
    props.push(prop_u32("bitrate", s.bitrate_kbps));
    match s.kind {
        EncoderKind::QsvHevc | EncoderKind::QsvAv1 => {
            let usage: u32 = if s.kind == EncoderKind::QsvAv1 && s.target_usage < 3 {
                3
            } else {
                s.target_usage
            };
            props.push(prop_u32("max-bitrate", s.max_bitrate_kbps));
            props.push(prop_u32("gop-size", s.gop_size));
            props.push(prop_bool("low-latency", true));
            props.push(prop_u32("target-usage", usage));
            props.push(prop_named("rate-control", "vbr"));
        },
        EncoderKind::VtHevc => {
            props.push(
                prop_i32("max-keyframe-interval", #[verifier::truncate] (s.gop_size as i32)),
            );
            props.push(prop_bool("realtime", true));
            props.push(prop_bool("allow-frame-reordering", false));
            props.push(Prop { key: "quality".to_owned(), value: PropValue::Quality });
        },
        EncoderKind::X264 => {
            let options = x264_option_string(s.max_bitrate_kbps);
            props.push(prop_u32("key-int-max", s.gop_size));
            props.push(prop_u32("bframes", 0));
            props.push(prop_text("option-string", options.as_str()));
            props.push(prop_named("speed-preset", s.speed_preset.as_str()));
            props.push(prop_named("tune", "zerolatency"));
        },
        EncoderKind::VaHevc | EncoderKind::VaAv1 => {
            let usage: u32 = if s.kind == EncoderKind::VaAv1 && s.target_usage < 3 {
                3
            } else {
                s.target_usage
            };
            props.push(prop_u32("cpb-size", s.bitrate_kbps));
            props.push(prop_u32("key-int-max", s.gop_size));
            props.push(prop_u32("target-usage", usage));
            props.push(prop_named("rate-control", "cbr"));
        },
    }
    assert(prop_views(props@) =~= encoder_props_spec(*s));
    props
}

/// The properties of the parser that follows an encoder: H.264 and HEVC repeat
/// their parameter sets about every second, so that a receiver that lost them
/// picks them up again.
pub open spec fn parser_props_spec(b: Bitstream) -> Seq<PropView> {
    match b {
        Bitstream::Av1 => Seq::empty(),
        _ => seq![PropView { key: "config-interval"@, value: ValueView::I32(1) }],
    }
}

/// The properties of the parser that follows an encoder.
pub fn parser_props(b: Bitstream) -> (props: Vec<Prop>)
    ensures
        prop_views(props@) == parser_props_spec(b),
{
    let mut props: Vec<Prop> = Vec::new();
    match b {
        Bitstream::Av1 => {},
        _ => {
            props.push(prop_i32("config-interval", 1));
        },
    }
    assert(prop_views(props@) =~= parser_props_spec(b));
    props
}

// ── laws ────────────────────────────────────────────────────────────────────

/// Every encoder starts at the configured bitrate, by the property that the
/// adapter later changes.
pub proof fn law_every_encoder_takes_the_bitrate(s: EncoderSettings)
    ensures
        encoder_props_spec(s).len() > 0,
        encoder_props_spec(s)[0] == (PropView {
            key: "bitrate"@,
            value: ValueView::U32(s.bitrate_kbps),
        }),
{
}

/// AV1 encoders never run slower than the balanced tier, whatever quality is asked
/// for.
pub proof fn law_av1_keeps_to_the_balanced_tier(s: EncoderSettings)
    requires
        bitstream_spec(s.kind) == Bitstream::Av1,
    ensures
        av1_usage(s.target_usage) >= 3,
        exists|i: int|
            0 <= i < encoder_props_spec(s).len() && #[trigger] encoder_props_spec(s)[i] == (
            PropView {
                key: "target-usage"@,
                value: ValueView::U32(av1_usage(s.target_usage)),
            }),
{
    let usage = PropView {
        key: "target-usage"@,
        value: ValueView::U32(av1_usage(s.target_usage)),
    };
    if s.kind == EncoderKind::QsvAv1 {
        assert(encoder_props_spec(s)[4] == usage);
    } else {
        assert(encoder_props_spec(s)[3] == usage);
    }
}

/// Among these properties, `key` is set to `value`.
pub open spec fn sets(props: Seq<PropView>, key: Seq<char>, value: ValueView) -> bool {
    exists|i: int|
        0 <= i < props.len() && (#[trigger] props[i]).key == key && props[i].value == value
}

/// The QSV encoders aim at the bitrate and never go above the ceiling, with the keyframe
/// distance that is asked for and low latency. AV1 is not run at the two slowest tiers.
pub proof fn law_qsv_is_set_up(s: EncoderSettings)
    requires
        s.kind == EncoderKind::QsvHevc || s.kind == EncoderKind::QsvAv1,
    ensures
        ({
            let props = encoder_props_spec(s);
            let usage: u32 = if s.kind == EncoderKind::QsvAv1 && s.target_usage < 3 {
                3
            } else {
                s.target_usage
            };
            &&& props.len() == 6
            &&& sets(props, "bitrate"@, ValueView::U32(s.bitrate_kbps))
            &&& sets(props, "max-bitrate"@, ValueView::U32(s.max_bitrate_kbps))
            &&& sets(props, "gop-size"@, ValueView::U32(s.gop_size))
            &&& sets(props, "low-latency"@, ValueView::Bool(true))
            &&& sets(props, "target-usage"@, ValueView::U32(usage))
            &&& sets(props, "rate-control"@, ValueView::Named("vbr"@))
        }),
{
    let props = encoder_props_spec(s);
    assert(props[0].key == "bitrate"@);
    assert(props[1].key == "max-bitrate"@);
    assert(props[2].key == "gop-size"@);
    assert(props[3].key == "low-latency"@);
    assert(props[4].key == "target-usage"@);
    assert(props[5].key == "rate-control"@);
}

/// The VA encoders keep to the bitrate, over a window of one second, with the keyframe
/// distance that is asked for. AV1 is not run at the two slowest tiers.
pub proof fn law_va_is_set_up(s: EncoderSettings)
    requires
        s.kind == EncoderKind::VaHevc || s.kind == EncoderKind::VaAv1,
    ensures
        ({
            let props = encoder_props_spec(s);
            let usage: u32 = if s.kind == EncoderKind::VaAv1 && s.target_usage < 3 {
                3
            } else {
                s.target_usage
            };
            &&& props.len() == 5
            &&& sets(props, "bitrate"@, ValueView::U32(s.bitrate_kbps))
            &&& sets(props, "cpb-size"@, ValueView::U32(s.bitrate_kbps))
            &&& sets(props, "key-int-max"@, ValueView::U32(s.gop_size))
            &&& sets(props, "target-usage"@, ValueView::U32(usage))
            &&& sets(props, "rate-control"@, ValueView::Named("cbr"@))
        }),
{
    let props = encoder_props_spec(s);
    assert(props[0].key == "bitrate"@);
    assert(props[1].key == "cpb-size"@);
    assert(props[2].key == "key-int-max"@);
    assert(props[3].key == "target-usage"@);
    assert(props[4].key == "rate-control"@);
}

/// x264 runs without delay: no reordered frames, the zero-latency tuning, the speed that
/// is asked for, and a rate cap at the ceiling with a buffer of two seconds.
pub proof fn law_x264_is_set_up(s: EncoderSettings)
    requires
        s.kind == EncoderKind::X264,
    ensures
        ({
            let props = encoder_props_spec(s);
            let cap = "vbv-maxrate="@ + text::dec(s.max_bitrate_kbps as nat) + ":vbv-bufsize="@
                + text::dec((2 * s.max_bitrate_kbps) as nat);
            &&& props.len() == 6
            &&& sets(props, "bitrate"@, ValueView::U32(s.bitrate_kbps))
            &&& sets(props, "key-int-max"@, ValueView::U32(s.gop_size))
            &&& sets(props, "bframes"@, ValueView::U32(0))
            &&& sets(props, "option-string"@, ValueView::Text(cap))
            &&& sets(props, "speed-preset"@, ValueView::Named(s.speed_preset@))
            &&& sets(props, "tune"@, ValueView::Named("zerolatency"@))
        }),
{
    let props = encoder_props_spec(s);
    assert(props[0].key == "bitrate"@);
    assert(props[1].key == "key-int-max"@);
    assert(props[2].key == "bframes"@);
    assert(props[3].key == "option-string"@);
    assert(props[4].key == "speed-preset"@);
    assert(props[5].key == "tune"@);
}

/// VideoToolbox runs in real time and does not reorder frames.
pub proof fn law_vt_is_set_up(s: EncoderSettings)
    requires
        s.kind == EncoderKind::VtHevc,
        s.gop_size <= 0x7FFF_FFFF,
    ensures
        ({
            let props = encoder_props_spec(s);
            &&& props.len() == 5
            &&& sets(props, "bitrate"@, ValueView::U32(s.bitrate_kbps))
            &&& exists|n: i32|
                n == s.gop_size && #[trigger] sets(
                    props,
                    "max-keyframe-interval"@,
                    ValueView::I32(n),
                )
            &&& sets(props, "realtime"@, ValueView::Bool(true))
            &&& sets(props, "allow-frame-reordering"@, ValueView::Bool(false))
            &&& sets(props, "quality"@, ValueView::Quality)
        }),
{
    let props = encoder_props_spec(s);
    let n = s.gop_size as i32;
    assert(props[0].key == "bitrate"@);
    assert(props[1].key == "max-keyframe-interval"@);
    assert(sets(props, "max-keyframe-interval"@, ValueView::I32(n)));
    assert(props[2].key == "realtime"@);
    assert(props[3].key == "allow-frame-reordering"@);
    assert(props[4].key == "quality"@);
}

/// What stands behind each kind: the element, the bitstream with its parser, and the
/// name. Parameter sets are repeated every second where the bitstream has them.
pub proof fn law_kinds_and_elements(k: EncoderKind)
    ensures
        match k {
            EncoderKind::QsvHevc => factory_spec(k) == "qsvh265enc"@ && label_spec(k)
                == "qsv-hevc"@ && bitstream_spec(k) == Bitstream::H265,
            EncoderKind::VtHevc => factory_spec(k) == "vtenc_h265"@ && label_spec(k)
                == "vt-hevc"@ && bitstream_spec(k) == Bitstream::H265,
            EncoderKind::X264 => factory_spec(k) == "x264enc"@ && label_spec(k) == "x264"@
                && bitstream_spec(k) == Bitstream::H264,
            EncoderKind::QsvAv1 => factory_spec(k) == "qsvav1enc"@ && label_spec(k)
                == "qsv-av1"@ && bitstream_spec(k) == Bitstream::Av1,
            EncoderKind::VaHevc => factory_spec(k) == "vah265enc"@ && label_spec(k)
                == "va-hevc"@ && bitstream_spec(k) == Bitstream::H265,
            EncoderKind::VaAv1 => factory_spec(k) == "vaav1enc"@ && label_spec(k) == "va-av1"@
                && bitstream_spec(k) == Bitstream::Av1,
        },
        ({
            let parser = parser_spec(bitstream_spec(k));
            let props = parser_props_spec(bitstream_spec(k));
            match bitstream_spec(k) {
                Bitstream::H264 => parser == "h264parse"@ && props.len() == 1 && sets(
                    props,
                    "config-interval"@,
                    ValueView::I32(1),
                ),
                Bitstream::H265 => parser == "h265parse"@ && props.len() == 1 && sets(
                    props,
                    "config-interval"@,
                    ValueView::I32(1),
                ),
                Bitstream::Av1 => parser == "av1parse"@ && props.len() == 0,
            }
        }),
{
    let props = parser_props_spec(bitstream_spec(k));
    if bitstream_spec(k) != Bitstream::Av1 {
        assert(props[0].key == "config-interval"@);
    }
}

} // verus!
