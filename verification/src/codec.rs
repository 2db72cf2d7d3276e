//! Codec strings for the browser's decoder, read off the encoded stream's format.

use vstd::prelude::*;
use vstd::string::*;

use crate::text;
use crate::wsproto::InitInfo;

verus! {

/// The format of the encoded stream, as far as the preview needs it. A field that
/// the stream does not state is `None`.
#[derive(Debug, Clone, PartialEq, Eq)]
pub struct VideoCaps {
    pub media: String,
    pub width: Option<i32>,
    pub height: Option<i32>,
    /// Numerator and denominator of the frame rate.
    pub framerate: Option<(i32, i32)>,
    pub profile: Option<String>,
    pub tier: Option<String>,
    pub level: Option<String>,
    /// The bit depth where it is stated as an unsigned number.
    pub bit_depth: Option<u32>,
    /// The bit depth where it is stated as a signed number.
    pub bit_depth_signed: Option<i32>,
}

// ── levels ──────────────────────────────────────────────────────────────────

/// The position of the first `.` of `s`, or its length where it has none.
pub open spec fn first_dot(s: Seq<char>) -> int
    decreases s.len(),
{
    if s.len() == 0 || s[0] == '.' {
        0
    } else {
        1 + first_dot(s.skip(1))
    }
}

/// What stands before the first `.`.
pub open spec fn before_dot(s: Seq<char>) -> Seq<char> {
    s.take(first_dot(s))
}

/// What stands after the first `.`, if there is one.
pub open spec fn after_dot(s: Seq<char>) -> Option<Seq<char>> {
    if first_dot(s) < s.len() {
        Some(s.skip(first_dot(s) + 1))
    } else {
        None
    }
}

/// A level "X.Y" as its two numbers, of at most `max`. Without a readable X it is
/// no level; without a readable Y, Y is zero. What follows a second `.` is
/// ignored.
pub open spec fn level_parts(level: Seq<char>, max: nat) -> Option<(nat, nat)> {
    match text::parsed(before_dot(level), max) {
        None => None,
        Some(major) => {
            let minor = match after_dot(level) {
                None => 0nat,
                Some(rest) => match text::parsed(before_dot(rest), max) {
                    None => 0nat,
                    Some(n) => n,
                },
            };
            Some((major, minor))
        },
    }
}

/// The number of an H.264 level: ten times X, and Y.
pub open spec fn h264_level(level: Seq<char>) -> Option<nat> {
    match level_parts(level, u8::MAX as nat) {
        None => None,
        Some((x, y)) => Some(x * 10 + y),
    }
}

/// The number of an HEVC level: thirty times X, and three times Y.
pub open spec fn hevc_level(level: Seq<char>) -> Option<nat> {
    match level_parts(level, u32::MAX as nat) {
        None => None,
        Some((x, y)) => Some(x * 30 + y * 3),
    }
}

/// The index of an AV1 level, which counts four to a major level from 2 on.
pub open spec fn av1_level(level: Seq<char>) -> Option<nat> {
    match level_parts(level, u32::MAX as nat) {
        None => None,
        Some((x, y)) => Some(
            (if x >= 2 {
                (x - 2) as nat
            } else {
                0
            }) * 4 + y,
        ),
    }
}

proof fn lemma_first_dot(s: Seq<char>, i: int)
    requires
        0 <= i <= s.len(),
        forall|j: int| 0 <= j < i ==> s[j] != '.',
        i < s.len() ==> s[i] == '.',
    ensures
        first_dot(s) == i,
    decreases s.len(),
{
    if i > 0 {
        lemma_first_dot(s.skip(1), i - 1);
    }
}

/// The part of `chars` from `from` up to the next `.`, and where that `.` stands.
fn part_from(chars: &Vec<char>, from: usize) -> (r: (Vec<char>, usize))
    requires
        from <= chars.len(),
    ensures
        r.0@ == before_dot(chars@.skip(from as int)),
        r.1 == from + first_dot(chars@.skip(from as int)),
        from <= r.1 <= chars.len(),
{
    let mut part: Vec<char> = Vec::new();
    let mut i: usize = from;
    let ghost rest = chars@.skip(from as int);
    while i < chars.len() && chars[i] != '.'
        invariant
            from <= i <= chars.len(),
            rest == chars@.skip(from as int),
            part@ == rest.take(i - from),
            forall|j: int| 0 <= j < i - from ==> rest[j] != '.',
        decreases chars.len() - i,
    {
        part.push(chars[i]);
        i = i + 1;
        assert(part@ =~= rest.take(i - from));
        assert(rest[i - from - 1] == chars@[i - 1]);
    }
    proof {
        lemma_first_dot(rest, i - from);
    }
    (part, i)
}

fn parse_level(level: &str, max: u32) -> (parts: Option<(u32, u32)>)
    ensures
        parts is Some == level_parts(level@, max as nat) is Some,
        parts matches Some((x, y)) ==> x <= max && y <= max && level_parts(level@, max as nat)
            == Some((x as nat, y as nat)),
{
    let chars = text::chars_of(level);
    let (head, dot) = part_from(&chars, 0);
    assert(chars@.skip(0) =~= level@);
    let major: u32 = match text::parse_up_to(&head, max) {
        None => {
            return None;
        },
        Some(n) => n,
    };
    if dot == chars.len() {
        return Some((major, 0));
    }
    let (second, _) = part_from(&chars, dot + 1);
    let minor: u32 = match text::parse_up_to(&second, max) {
        None => 0,
        Some(n) => n,
    };
    Some((major, minor))
}

/// Reads an H.264 level "X.Y": `3.1` is 31. `None` where X is no number of one
/// byte.
pub fn parse_h264_level(level: &str) -> (n: Option<u8>)
    requires
        h264_level(level@) matches Some(v) ==> v <= u8::MAX,
    ensures
        n is Some == h264_level(level@) is Some,
        n matches Some(v) ==> h264_level(level@) == Some(v as nat),
{
    match parse_level(level, 255) {
        None => None,
        Some((x, y)) => Some((x * 10 + y) as u8),
    }
}

/// Reads an HEVC level "X.Y": `3.1` is 93. `None` where X is no number of four
/// bytes.
pub fn parse_hevc_level(level: &str) -> (n: Option<u32>)
    requires
        hevc_level(level@) matches Some(v) ==> v <= u32::MAX,
    ensures
        n is Some == hevc_level(level@) is Some,
        n matches Some(v) ==> hevc_level(level@) == Some(v as nat),
{
    match parse_level(level, u32::MAX) {
        None => None,
        Some((x, y)) => Some(x * 30 + y * 3),
    }
}

/// Reads an AV1 level "X.Y" as the sequence level index: `4.0` is 8. `None` where
/// X is no number of four bytes.
pub fn av1_seq_level_idx(level: &str) -> (n: Option<u32>)
    requires
        av1_level(level@) matches Some(v) ==> v <= u32::MAX,
    ensures
        n is Some == av1_level(level@) is Some,
        n matches Some(v) ==> av1_level(level@) == Some(v as nat),
{
    match parse_level(level, u32::MAX) {
        None => None,
        Some((x, y)) => {
            let above: u32 = if x >= 2 {
                x - 2
            } else {
                0
            };
            Some(above * 4 + y)
        },
    }
}

// ── codec strings ───────────────────────────────────────────────────────────

/// The profile number and the compatibility flags of an H.264 profile. What is
/// not known counts as baseline.
pub open spec fn h264_profile(profile: Seq<char>) -> (u8, u8) {
    if profile == "main"@ {
        (0x4D, 0x40)
    } else if profile == "extended"@ {
        (0x58, 0x00)
    } else if profile == "high"@ {
        (0x64, 0x00)
    } else {
        (0x42, 0xC0)
    }
}

/// An H.264 codec string: `avc1.`, then profile, compatibility flags and level as
/// two hexadecimal digits each. An unreadable level counts as 3.1.
pub open spec fn h264_spec(profile: Seq<char>, level: Seq<char>) -> Seq<char> {
    let idc = match h264_level(level) {
        Some(v) => v as u8,
        None => 31u8,
    };
    "avc1."@ + text::hex_byte(h264_profile(profile).0) + text::hex_byte(h264_profile(profile).1)
        + text::hex_byte(idc)
}

/// The number of an HEVC profile. What is not known counts as main.
pub open spec fn hevc_profile(profile: Seq<char>) -> nat {
    if profile == "main-10"@ {
        2
    } else if profile == "main-still-picture"@ {
        3
    } else {
        1
    }
}

/// An HEVC codec string: `hev1.<profile>.6.<tier><level>.B0`. An unreadable level
/// counts as 3.1.
pub open spec fn hevc_spec(profile: Seq<char>, tier: Seq<char>, level: Seq<char>) -> Seq<char> {
    let tier_flag = if text::same_but_case(tier, "high"@) {
        'H'
    } else {
        'L'
    };
    let level_num = match hevc_level(level) {
        Some(v) => v,
        None => 93,
    };
    "hev1."@ + text::dec(hevc_profile(profile)) + ".6."@ + seq![tier_flag] + text::dec(level_num)
        + ".B0"@
}

/// The number of an AV1 profile. What is not known counts as main.
pub open spec fn av1_profile(profile: Seq<char>) -> nat {
    if profile == "high"@ {
        1
    } else if profile == "professional"@ {
        2
    } else {
        0
    }
}

/// An AV1 codec string: `av01.<profile>.<level><tier>.<depth>`, level and depth of
/// at least two digits. An unreadable level counts as 4.0.
pub open spec fn av1_spec(
    profile: Seq<char>,
    tier: Seq<char>,
    level: Seq<char>,
    bit_depth: nat,
) -> Seq<char> {
    let tier_flag = if text::same_but_case(tier, "high"@) {
        'H'
    } else {
        'M'
    };
    let level_idx = match av1_level(level) {
        Some(v) => v,
        None => 8,
    };
    "av01."@ + text::dec(av1_profile(profile)) + "."@ + text::dec_padded(level_idx, 2) + seq![
        tier_flag,
    ] + "."@ + text::dec_padded(bit_depth, 2)
}

/// The codec string of an H.264 stream.
pub fn h264_codec_string(profile: &str, level: &str) -> (s: String)
    requires
        h264_level(level@) matches Some(v) ==> v <= u8::MAX,
    ensures
        s@ == h264_spec(profile@, level@),
{
    let (profile_idc, profile_compat): (u8, u8) = if text::same_text(profile, "main") {
        (0x4D, 0x40)
    } else if text::same_text(profile, "extended") {
        (0x58, 0x00)
    } else if text::same_text(profile, "high") {
        (0x64, 0x00)
    } else {
        (0x42, 0xC0)
    };
    let level_idc: u8 = match parse_h264_level(level) {
        Some(v) => v,
        None => 31,
    };
    let mut s = "avc1.".to_owned();
    text::push_hex_byte(&mut s, profile_idc);
    text::push_hex_byte(&mut s, profile_compat);
    text::push_hex_byte(&mut s, level_idc);
    s
}

/// The codec string of an HEVC stream.
pub fn hevc_codec_string(profile: &str, tier: &str, level: &str) -> (s: String)
    requires
        hevc_level(level@) matches Some(v) ==> v <= u32::MAX,
    ensures
        s@ == hevc_spec(profile@, tier@, level@),
{
    let profile_idc: u64 = if text::same_text(profile, "main-10") {
        2
    } else if text::same_text(profile, "main-still-picture") {
        3
    } else {
        1
    };
    let tier_flag = if text::same_text_ignoring_case(tier, "high") {
        'H'
    } else {
        'L'
    };
    let level_num: u32 = match parse_hevc_level(level) {
        Some(v) => v,
        None => 93,
    };
    let mut s = "hev1.".to_owned();
    text::push_dec(&mut s, profile_idc);
    s.append(".6.");
    s.push(tier_flag);
    text::push_dec(&mut s, level_num as u64);
    s.append(".B0");
    assert(s@ =~= hevc_spec(profile@, tier@, level@));
    s
}

/// The codec string of an AV1 stream.
pub fn av1_codec_string(profile: &str, tier: &str, level: &str, bit_depth: u32) -> (s: String)
    requires
        av1_level(level@) matches Some(v) ==> v <= u32::MAX,
    ensures
        s@ == av1_spec(profile@, tier@, level@, bit_depth as nat),
{
    let profile_idc: u64 = if text::same_text(profile, "high") {
        1
    } else if text::same_text(profile, "professional") {
        2
    } else {
        0
    };
    let level_idx: u32 = match av1_seq_level_idx(level) {
        Some(v) => v,
        None => 8,
    };
    let tier_flag = if text::same_text_ignoring_case(tier, "high") {
        'H'
    } else {
        'M'
    };
    let mut s = "av01.".to_owned();
    text::push_dec(&mut s, profile_idc);
    s.append(".");
    text::push_dec_padded(&mut s, level_idx as u64, 2);
    s.push(tier_flag);
    s.append(".");
    text::push_dec_padded(&mut s, bit_depth as u64, 2);
    assert(s@ =~= av1_spec(profile@, tier@, level@, bit_depth as nat));
    s
}

// ── formats ─────────────────────────────────────────────────────────────────

/// A stated text, or what is taken where none is stated.
pub open spec fn stated(t: Option<String>, otherwise: Seq<char>) -> Seq<char> {
    match t {
        Some(s) => s@,
        None => otherwise,
    }
}

/// The level that counts for a format: 3.1 where none is stated, 4.0 for AV1.
pub open spec fn level_of(caps: VideoCaps) -> Seq<char> {
    stated(
        caps.level,
        if caps.media@ == "video/x-av1"@ {
            "4.0"@
        } else {
            "3.1"@
        },
    )
}

/// The level of the format, if it is one, has a number that fits its codec's
/// field, or is not looked at because the format states no width or no height.
pub open spec fn level_fits(caps: VideoCaps) -> bool {
    if caps.width is None || caps.height is None {
        true
    } else if caps.media@ == "video/x-h264"@ {
        h264_level(level_of(caps)) matches Some(v) ==> v <= u8::MAX
    } else if caps.media@ == "video/x-h265"@ {
        hevc_level(level_of(caps)) matches Some(v) ==> v <= u32::MAX
    } else if caps.media@ == "video/x-av1"@ {
        av1_level(level_of(caps)) matches Some(v) ==> v <= u32::MAX
    } else {
        true
    }
}

/// The codec string for a format, if its codec is known.
pub open spec fn codec_spec(caps: VideoCaps) -> Option<Seq<char>> {
    if caps.media@ == "video/x-h264"@ {
        Some(h264_spec(stated(caps.profile, "baseline"@), level_of(caps)))
    } else if caps.media@ == "video/x-h265"@ {
        Some(
            hevc_spec(
                stated(caps.profile, "main"@),
                stated(caps.tier, "main"@),
                level_of(caps),
            ),
        )
    } else if caps.media@ == "video/x-av1"@ {
        let depth: u32 = match (caps.bit_depth, caps.bit_depth_signed) {
            (Some(d), _) => d,
            (None, Some(d)) => d as u32,
            (None, None) => 8,
        };
        Some(
            av1_spec(
                stated(caps.profile, "main"@),
                stated(caps.tier, "main"@),
                level_of(caps),
                depth as nat,
            ),
        )
    } else {
        None
    }
}

/// `info` describes a stream of the format `caps`: the codec string, the stated
/// size, and the stated frame rate or else 30 frames a second.
pub open spec fn describes(info: InitInfo, caps: VideoCaps) -> bool {
    &&& codec_spec(caps) == Some(info.codec@)
    &&& caps.width matches Some(w) && info.width == w as u32
    &&& caps.height matches Some(h) && info.height == h as u32
    &&& match caps.framerate {
        Some((num, den)) => info.fps_num == num as u32 && info.fps_den == den as u32,
        None => info.fps_num == 30 && info.fps_den == 1,
    }
}

fn text_or<'a>(t: &'a Option<String>, otherwise: &'a str) -> (s: &'a str)
    ensures
        s@ == stated(*t, otherwise@),
{
    match t {
        Some(s) => s.as_str(),
        None => otherwise,
    }
}

fn default_level(media: &str) -> (s: &'static str)
    ensures
        s@ == if media@ == "video/x-av1"@ {
            "4.0"@
        } else {
            "3.1"@
        },
{
    if text::same_text(media, "video/x-av1") {
        "4.0"
    } else {
        "3.1"
    }
}

/// Whether the level of the format, where it is looked at, has a number that fits its
/// codec's field.
pub fn check_level(caps: &VideoCaps) -> (fits: bool)
    ensures
        fits == level_fits(*caps),
{
    if caps.width.is_none() || caps.height.is_none() {
        return true;
    }
    let media = caps.media.as_str();
    let level = text_or(&caps.level, default_level(media));
    if text::same_text(media, "video/x-h264") {
        match parse_level(level, 255) {
            None => true,
            Some((x, y)) => x * 10 + y <= 255,
        }
    } else if text::same_text(media, "video/x-h265") {
        match parse_level(level, u32::MAX) {
            None => true,
            Some((x, y)) => x as u64 * 30 + y as u64 * 3 <= u32::MAX as u64,
        }
    } else if text::same_text(media, "video/x-av1") {
        match parse_level(level, u32::MAX) {
            None => true,
            Some((x, y)) => {
                let above: u64 = if x >= 2 {
                    x as u64 - 2
                } else {
                    0
                };
                above * 4 + y as u64 <= u32::MAX as u64
            },
        }
    } else {
        true
    }
}

/// What the browser's decoder needs to know of a stream of this format. `None`
/// where the format states no width or no height, or is of another codec.
pub fn init_from_caps(caps: &VideoCaps) -> (info: Option<InitInfo>)
    requires
        level_fits(*caps),
    ensures
        info is Some == (caps.width is Some && caps.height is Some && codec_spec(*caps) is Some),
        info matches Some(i) ==> describes(i, *caps),
{
    let width: i32 = match caps.width {
        Some(w) => w,
        None => {
            return None;
        },
    };
    let height: i32 = match caps.height {
        Some(h) => h,
        None => {
            return None;
        },
    };
    let (num, den): (i32, i32) = match caps.framerate {
        Some(f) => f,
        None => (30, 1),
    };
    let media = caps.media.as_str();
    let level = text_or(&caps.level, default_level(media));
    let codec = if text::same_text(media, "video/x-h264") {
        h264_codec_string(text_or(&caps.profile, "baseline"), level)
    } else if text::same_text(media, "video/x-h265") {
        hevc_codec_string(text_or(&caps.profile, "main"), text_or(&caps.tier, "main"), level)
    } else if text::same_text(media, "video/x-av1") {
        let depth: u32 = match caps.bit_depth {
            Some(d) => d,
            None => match caps.bit_depth_signed {
                Some(d) => #[verifier::truncate] (d as u32),
                None => 8,
            },
        };
        av1_codec_string(
            text_or(&caps.profile, "main"),
            text_or(&caps.tier, "main"),
            level,
            depth,
        )
    } else {
        return None;
    };
    Some(
        InitInfo {
            codec,
            width: #[verifier::truncate] (width as u32),
            height: #[verifier::truncate] (height as u32),
            fps_num: #[verifier::truncate] (num as u32),
            fps_den: #[verifier::truncate] (den as u32),
        },
    )
}

// ── laws ────────────────────────────────────────────────────────────────────

/// A codec string names its codec: `avc1.` for H.264, `hev1.` for HEVC and
/// `av01.` for AV1.
pub proof fn law_codec_string_names_the_codec(caps: VideoCaps)
    ensures
        caps.media@ == "video/x-h264"@ ==> codec_spec(caps) is Some && text::begins_with(
            codec_spec(caps)->0,
            "avc1."@,
        ) && (codec_spec(caps)->0).len() == 11,
        caps.media@ == "video/x-h265"@ ==> codec_spec(caps) is Some && text::begins_with(
            codec_spec(caps)->0,
            "hev1."@,
        ),
        caps.media@ == "video/x-av1"@ ==> codec_spec(caps) is Some && text::begins_with(
            codec_spec(caps)->0,
            "av01."@,
        ),
{
    reveal_strlit("video/x-h264");
    reveal_strlit("video/x-h265");
    reveal_strlit("video/x-av1");
    reveal_strlit("avc1.");
    assert("video/x-h264"@[11] != "video/x-h265"@[11]);
    assert("video/x-h264"@.len() == 12);
    assert("video/x-h265"@.len() == 12);
    assert("video/x-av1"@.len() == 11);
    if caps.media@ == "video/x-h264"@ {
        let s = codec_spec(caps)->0;
        assert(s.take("avc1."@.len() as int) =~= "avc1."@);
    } else if caps.media@ == "video/x-h265"@ {
        let s = codec_spec(caps)->0;
        assert(s.take("hev1."@.len() as int) =~= "hev1."@);
    } else if caps.media@ == "video/x-av1"@ {
        let s = codec_spec(caps)->0;
        assert(s.take("av01."@.len() as int) =~= "av01."@);
    }
}

/// The codec string's profile and compatibility flags, for H.264: those of the profile
/// that is stated, and of baseline where none is stated or it is not known.
pub proof fn law_h264_profile_is_the_stated_one(caps: VideoCaps)
    requires
        caps.media@ == "video/x-h264"@,
    ensures
        codec_spec(caps) is Some,
        ({
            let s = codec_spec(caps)->0;
            let p = caps.profile;
            &&& s.len() == 11
            &&& (p matches Some(n) && n@ == "high"@) ==> s[5] == '6' && s[6] == '4' && s[7] == '0'
                && s[8] == '0'
            &&& (p matches Some(n) && n@ == "main"@) ==> s[5] == '4' && s[6] == 'D' && s[7] == '4'
                && s[8] == '0'
            &&& (p matches Some(n) && n@ == "extended"@) ==> s[5] == '5' && s[6] == '8' && s[7]
                == '0' && s[8] == '0'
            &&& (p matches Some(n) ==> n@ != "high"@ && n@ != "main"@ && n@ != "extended"@)
                ==> s[5] == '4' && s[6] == '2' && s[7] == 'C' && s[8] == '0'
        }),
{
    law_codec_string_names_the_codec(caps);
    reveal_strlit("avc1.");
    reveal_strlit("high");
    reveal_strlit("main");
    reveal_strlit("extended");
    reveal_strlit("baseline");
    assert("high"@[0] != "main"@[0]);
    assert("extended"@.len() == 8);
    assert("high"@.len() == 4);
    assert("main"@.len() == 4);
    assert("baseline"@.len() == 8);
    assert("baseline"@[0] != "extended"@[0]);
}

/// A level of two numbers is read as them, and one of a single number has zero for the
/// second.
proof fn lemma_level_parts(x: nat, y: nat, max: nat)
    requires
        x <= max,
        y <= max,
    ensures
        level_parts(text::dec(x) + "."@ + text::dec(y), max) == Some((x, y)),
        level_parts(text::dec(x), max) == Some((x, 0nat)),
{
    reveal_strlit(".");
    let a = text::dec(x);
    let b = text::dec(y);
    let s = a + "."@ + b;
    text::lemma_dec_digits(x);
    text::lemma_dec_digits(y);
    text::law_numerals_parse(x, max);
    text::law_numerals_parse(y, max);
    assert forall|j: int| 0 <= j < a.len() implies s[j] != '.' by {
        assert(s[j] == a[j]);
        assert('0' <= a[j] <= '9');
    }
    assert(s[a.len() as int] == '.');
    lemma_first_dot(s, a.len() as int);
    assert(s.take(a.len() as int) =~= a);
    assert(s.skip(a.len() as int + 1) =~= b);
    lemma_first_dot(b, b.len() as int);
    assert(b.take(b.len() as int) =~= b);
    lemma_first_dot(a, a.len() as int);
    assert(a.take(a.len() as int) =~= a);
}

/// The format states level `x.y`, or `x` alone where `y` is zero.
pub open spec fn states_level(caps: VideoCaps, x: nat, y: nat) -> bool {
    caps.level matches Some(l) && (l@ == text::dec(x) + "."@ + text::dec(y) || (y == 0 && l@
        == text::dec(x)))
}

/// The last two digits of an H.264 codec string are the level in tenths: the stated one,
/// or 3.1 where none is stated.
pub proof fn law_h264_level_is_the_stated_one(caps: VideoCaps, x: nat, y: nat)
    requires
        caps.media@ == "video/x-h264"@,
        x * 10 + y <= u8::MAX,
    ensures
        ({
            let s = codec_spec(caps)->0;
            let level = text::hex_value(s[9]) * 16 + text::hex_value(s[10]);
            &&& states_level(caps, x, y) ==> level == x * 10 + y
            &&& caps.level is None ==> level == 31
        }),
{
    law_codec_string_names_the_codec(caps);
    reveal_strlit("avc1.");
    reveal_strlit("video/x-h264");
    reveal_strlit("video/x-av1");
    assert("video/x-h264"@.len() == 12 && "video/x-av1"@.len() == 11);
    lemma_level_parts(x, y, u8::MAX as nat);
    lemma_level_parts(3, 1, u8::MAX as nat);
    lemma_default_levels();
    text::law_hex_reads_back((x * 10 + y) as u8);
    text::law_hex_reads_back(31);
}

/// What the default levels are made of.
proof fn lemma_default_levels()
    ensures
        "3.1"@ == text::dec(3) + "."@ + text::dec(1),
        "4.0"@ == text::dec(4) + "."@ + text::dec(0),
{
    reveal_strlit("3.1");
    reveal_strlit("4.0");
    reveal_strlit(".");
    assert("3.1"@ =~= text::dec(3) + "."@ + text::dec(1));
    assert("4.0"@ =~= text::dec(4) + "."@ + text::dec(0));
}

/// An HEVC codec string: the profile's number, one but for the two other profiles that
/// are known; `H` for the high tier, whatever its case, and `L` for any other or none;
/// and thirty times the level, the stated one or 3.1.
pub proof fn law_hevc_string_says_what_is_stated(caps: VideoCaps, x: nat, y: nat)
    requires
        caps.media@ == "video/x-h265"@,
        x <= u32::MAX,
        y <= u32::MAX,
        states_level(caps, x, y) || (caps.level is None && x == 3 && y == 1),
    ensures
        ({
            let profile = caps.profile;
            let number = if profile matches Some(p) && p@ == "main-10"@ {
                '2'
            } else if profile matches Some(p) && p@ == "main-still-picture"@ {
                '3'
            } else {
                '1'
            };
            let tier = if caps.tier matches Some(t) && text::same_but_case(t@, "high"@) {
                'H'
            } else {
                'L'
            };
            codec_spec(caps) == Some(
                "hev1."@ + seq![number] + ".6."@ + seq![tier] + text::dec(30 * x + 3 * y)
                    + ".B0"@,
            )
        }),
{
    reveal_strlit("video/x-h264");
    reveal_strlit("video/x-h265");
    reveal_strlit("video/x-av1");
    assert("video/x-h264"@[11] != "video/x-h265"@[11]);
    assert("video/x-h265"@.len() == 12 && "video/x-av1"@.len() == 11);
    reveal_strlit("main");
    reveal_strlit("high");
    reveal_strlit("main-10");
    reveal_strlit("main-still-picture");
    assert("main"@.len() == 4 && "main-10"@.len() == 7 && "main-still-picture"@.len() == 18);
    assert(text::lower("main"@[0]) != text::lower("high"@[0]));
    lemma_level_parts(x, y, u32::MAX as nat);
    lemma_default_levels();
    assert(text::dec(1) =~= seq!['1']);
    assert(text::dec(2) =~= seq!['2']);
    assert(text::dec(3) =~= seq!['3']);
}

/// An AV1 codec string: the profile's number, zero but for the two other profiles that
/// are known; the index of the level, four to a major level from 2 on, of the stated one
/// or 4.0; `H` for the high tier, whatever its case, and `M` for any other or none; and
/// the bit depth, or eight where none is stated.
pub proof fn law_av1_string_says_what_is_stated(caps: VideoCaps, x: nat, y: nat)
    requires
        caps.media@ == "video/x-av1"@,
        2 <= x <= u32::MAX,
        y <= u32::MAX,
        states_level(caps, x, y) || (caps.level is None && x == 4 && y == 0),
        caps.bit_depth is None ==> (caps.bit_depth_signed matches Some(d) ==> d >= 0),
    ensures
        ({
            let profile = caps.profile;
            let number = if profile matches Some(p) && p@ == "high"@ {
                '1'
            } else if profile matches Some(p) && p@ == "professional"@ {
                '2'
            } else {
                '0'
            };
            let tier = if caps.tier matches Some(t) && text::same_but_case(t@, "high"@) {
                'H'
            } else {
                'M'
            };
            let depth = match caps.bit_depth {
                Some(d) => d as nat,
                None => match caps.bit_depth_signed {
                    Some(d) => d as nat,
                    None => 8,
                },
            };
            codec_spec(caps) == Some(
                "av01."@ + seq![number] + "."@ + text::dec_padded((4 * (x - 2) + y) as nat, 2)
                    + seq![tier] + "."@ + text::dec_padded(depth, 2),
            )
        }),
{
    reveal_strlit("video/x-h264");
    reveal_strlit("video/x-h265");
    reveal_strlit("video/x-av1");
    assert("video/x-h264"@.len() == 12 && "video/x-h265"@.len() == 12 && "video/x-av1"@.len()
        == 11);
    reveal_strlit("main");
    reveal_strlit("high");
    reveal_strlit("professional");
    assert("main"@.len() == 4 && "high"@.len() == 4 && "professional"@.len() == 12);
    assert("main"@[0] != "high"@[0]);
    assert(text::lower("main"@[0]) != text::lower("high"@[0]));
    lemma_level_parts(x, y, u32::MAX as nat);
    lemma_default_levels();
    assert(text::dec(0) =~= seq!['0']);
    assert(text::dec(1) =~= seq!['1']);
    assert(text::dec(2) =~= seq!['2']);
}

/// A description gives the stated size and frame rate, thirty frames a second where none
/// is stated, and the codec string; no other codec has one.
pub proof fn law_descriptions_say_what_is_stated(info: InitInfo, caps: VideoCaps)
    requires
        describes(info, caps),
    ensures
        caps.width matches Some(w) && (w >= 0 ==> info.width == w),
        caps.height matches Some(h) && (h >= 0 ==> info.height == h),
        caps.framerate matches Some((num, den)) ==> (num >= 0 ==> info.fps_num == num) && (den >= 0
            ==> info.fps_den == den),
        caps.framerate is None ==> info.fps_num == 30 && info.fps_den == 1,
        codec_spec(caps) == Some(info.codec@),
        caps.media@ == "video/x-h264"@ || caps.media@ == "video/x-h265"@ || caps.media@
            == "video/x-av1"@,
{
}

/// An unreadable level counts as 3.1, and as 4.0 for AV1.
pub proof fn law_unreadable_levels(level: Seq<char>, other: Seq<char>)
    requires
        text::parsed(before_dot(level), u32::MAX as nat) is None,
    ensures
        h264_spec(other, level) == h264_spec(other, "3.1"@),
        hevc_spec(other, other, level) == hevc_spec(other, other, "3.1"@),
        av1_spec(other, other, level, 8) == av1_spec(other, other, "4.0"@, 8),
{
    lemma_default_levels();
    lemma_level_parts(3, 1, u8::MAX as nat);
    lemma_level_parts(3, 1, u32::MAX as nat);
    lemma_level_parts(4, 0, u32::MAX as nat);
}

/// A level is read part by part: what stands before the first `.` must be a number, what
/// stands between it and the next counts as zero where it is none, and what follows is
/// not looked at.
pub proof fn law_levels_are_read_by_parts(
    a: Seq<char>,
    b: Seq<char>,
    c: Seq<char>,
    max: nat,
)
    requires
        forall|i: int| 0 <= i < a.len() ==> a[i] != '.',
        forall|i: int| 0 <= i < b.len() ==> b[i] != '.',
    ensures
        ({
            let second = match text::parsed(b, max) {
                Some(y) => y,
                None => 0nat,
            };
            match text::parsed(a, max) {
                Some(x) => {
                    &&& level_parts(a, max) == Some((x, 0nat))
                    &&& level_parts(a + seq!['.'] + b, max) == Some((x, second))
                    &&& level_parts(a + seq!['.'] + b + seq!['.'] + c, max) == Some((x, second))
                },
                None => {
                    &&& level_parts(a, max) is None
                    &&& level_parts(a + seq!['.'] + b, max) is None
                    &&& level_parts(a + seq!['.'] + b + seq!['.'] + c, max) is None
                },
            }
        }),
{
    let n = a.len() as int;
    let s = a + seq!['.'] + b;
    let t = s + seq!['.'] + c;
    lemma_first_dot(a, n);
    lemma_first_dot(s, n);
    lemma_first_dot(t, n);
    assert(a.take(n) =~= a);
    assert(s.take(n) =~= a);
    assert(t.take(n) =~= a);
    assert(s.skip(n + 1) =~= b);
    let rest = b + seq!['.'] + c;
    assert(t.skip(n + 1) =~= rest);
    lemma_first_dot(b, b.len() as int);
    lemma_first_dot(rest, b.len() as int);
    assert(b.take(b.len() as int) =~= b);
    assert(rest.take(b.len() as int) =~= b);
}

/// A stated level fits exactly where its number fits the codec's field: one byte for
/// H.264, four for the others. Levels of other codecs are not looked at, nor are those
/// of formats that state no size.
pub proof fn law_which_levels_fit(caps: VideoCaps, x: nat, y: nat)
    requires
        states_level(caps, x, y),
        x <= 255,
        y <= 255,
    ensures
        caps.width is None || caps.height is None ==> level_fits(caps),
        caps.media@ != "video/x-h264"@ ==> level_fits(caps),
        caps.width is Some && caps.height is Some && caps.media@ == "video/x-h264"@ ==> (level_fits(
            caps,
        ) <==> x * 10 + y <= 255),
{
    lemma_level_parts(x, y, u8::MAX as nat);
    lemma_level_parts(x, y, u32::MAX as nat);
}

} // verus!
