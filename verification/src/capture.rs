//! Per-session debug artifacts: where they go, what a session is called, and
//! what its metadata says.

use vstd::prelude::*;

use crate::calendar;
use crate::encoder;
use crate::encoder::EncoderSettings;
use crate::text;

verus! {

/// Where session artifacts go and how many sessions are kept.
#[derive(Debug, Clone, PartialEq, Eq)]
pub struct CaptureCfg {
    pub data_dir: String,
    pub retention_sessions: usize,
}

/// The runtime configuration as `metadata.json` records it.
#[derive(Debug, Clone, PartialEq, Eq)]
pub struct ConfigSnapshot {
    pub encoder: String,
    pub bitrate_kbps: u32,
    pub gop_size: u32,
    pub srt_uri: String,
}

/// The runtime configuration, for `metadata.json`.
pub fn config_snapshot(s: &EncoderSettings, srt_uri: &str) -> (c: ConfigSnapshot)
    ensures
        c.encoder@ == encoder::label_spec(s.kind),
        c.bitrate_kbps == s.bitrate_kbps,
        c.gop_size == s.gop_size,
        c.srt_uri@ == srt_uri@,
{
    ConfigSnapshot {
        encoder: s.kind.label().to_owned(),
        bitrate_kbps: s.bitrate_kbps,
        gop_size: s.gop_size,
        srt_uri: srt_uri.to_owned(),
    }
}

/// What `metadata.json` records of a session. The fields about the end of the
/// session are set when it is closed.
#[derive(Debug, Clone, PartialEq, Eq)]
pub struct SessionMetadata {
    pub session_id: String,
    pub start_unix_ms: u64,
    pub start_iso_utc: String,
    pub stream_key: String,
    pub peer: String,
    pub bumps_version: String,
    pub config: ConfigSnapshot,
    pub stop_unix_ms: Option<u64>,
    pub stop_iso_utc: Option<String>,
    pub duration_ms: Option<u64>,
    pub stop_reason: Option<String>,
}

/// A directory: `base`, or the directory `below` it where that is not empty.
#[derive(Debug, Clone, PartialEq, Eq)]
pub struct DataDir {
    pub base: String,
    pub below: String,
}

/// The default data directory: `$BUMPS_DATA_DIR`, else a directory under
/// `$HOME`, else one in the working directory. The arguments are the values of
/// the two variables, where they are set.
pub fn default_data_dir(bumps_data_dir: Option<String>, home: Option<String>) -> (dir: DataDir)
    ensures
        bumps_data_dir matches Some(d) ==> dir.base@ == d@ && dir.below@ == ""@,
        bumps_data_dir is None ==> (home matches Some(h) ==> dir.base@ == h@ && dir.below@
            == ".local/share/bumps-pipe"@),
        bumps_data_dir is None && home is None ==> dir.base@ == "bumps-data"@ && dir.below@ == ""@,
{
    match bumps_data_dir {
        Some(base) => DataDir { base, below: "".to_owned() },
        None => match home {
            Some(base) => DataDir { base, below: ".local/share/bumps-pipe".to_owned() },
            None => DataDir { base: "bumps-data".to_owned(), below: "".to_owned() },
        },
    }
}

// ── names ───────────────────────────────────────────────────────────────────

/// `c` is an ASCII letter or digit.
pub open spec fn is_alphanumeric(c: char) -> bool {
    '0' <= c <= '9' || 'A' <= c <= 'Z' || 'a' <= c <= 'z'
}

/// `c`, or an underscore where `c` is no ASCII letter or digit.
pub open spec fn clean_char(c: char) -> char {
    if is_alphanumeric(c) {
        c
    } else {
        '_'
    }
}

/// The first 64 characters of `s`, cleaned, or `anon` where `s` is empty.
pub open spec fn sanitise_spec(s: Seq<char>) -> Seq<char> {
    if s.len() == 0 {
        "anon"@
    } else {
        s.take(
            if s.len() < 64 {
                s.len() as int
            } else {
                64
            },
        ).map_values(|c: char| clean_char(c))
    }
}

/// A stream key made safe for a file name.
pub fn sanitise(s: &str) -> (r: String)
    ensures
        r@ == sanitise_spec(s@),
{
    let chars = text::chars_of(s);
    if chars.len() == 0 {
        return "anon".to_owned();
    }
    let mut cleaned = String::new();
    let mut i: usize = 0;
    while i < chars.len() && i < 64
        invariant
            chars@ == s@,
            i <= chars.len(),
            i <= 64,
            cleaned@ == s@.take(i as int).map_values(|c: char| clean_char(c)),
        decreases chars.len() - i,
    {
        let c = chars[i];
        let keep = ('0' <= c && c <= '9') || ('A' <= c && c <= 'Z') || ('a' <= c && c <= 'z');
        cleaned.push(
            if keep {
                c
            } else {
                '_'
            },
        );
        assert(s@.take(i + 1) =~= s@.take(i as int).push(c));
        assert(cleaned@ =~= s@.take(i + 1).map_values(|c: char| clean_char(c)));
        i = i + 1;
    }
    cleaned
}

/// `ms` milliseconds after the epoch as `YYYYMMDDTHHMMSSZ`.
pub open spec fn iso_basic_spec(ms: u64) -> Seq<char> {
    let date = calendar::date_of((ms / 1000 / 86_400) as int);
    let secs = ms / 1000 % 86_400;
    text::dec_padded(date.0 as nat, 4) + text::dec_padded(date.1 as nat, 2) + text::dec_padded(
        date.2 as nat,
        2,
    ) + "T"@ + text::dec_padded((secs / 3600) as nat, 2) + text::dec_padded(
        (secs / 60 % 60) as nat,
        2,
    ) + text::dec_padded((secs % 60) as nat, 2) + "Z"@
}

/// `ms` milliseconds after the epoch as `YYYY-MM-DDTHH:MM:SS.fffZ`.
pub open spec fn iso_human_spec(ms: u64) -> Seq<char> {
    let date = calendar::date_of((ms / 1000 / 86_400) as int);
    let secs = ms / 1000 % 86_400;
    text::dec_padded(date.0 as nat, 4) + "-"@ + text::dec_padded(date.1 as nat, 2) + "-"@
        + text::dec_padded(date.2 as nat, 2) + "T"@ + text::dec_padded((secs / 3600) as nat, 2)
        + ":"@ + text::dec_padded((secs / 60 % 60) as nat, 2) + ":"@ + text::dec_padded(
        (secs % 60) as nat,
        2,
    ) + "."@ + text::dec_padded((ms % 1000) as nat, 3) + "Z"@
}

/// Date and time of day of a moment in milliseconds, for the two formats.
fn fields_of(ms: u64) -> (t: (u64, u64, u64, u64, u64, u64))
    ensures
        ({
            let date = calendar::date_of((ms / 1000 / 86_400) as int);
            let secs = ms / 1000 % 86_400;
            &&& t.0 == date.0
            &&& t.1 == date.1
            &&& t.2 == date.2
            &&& t.3 == secs / 3600
            &&& t.4 == secs / 60 % 60
            &&& t.5 == secs % 60
        }),
{
    let (y, mo, d, h, mi, s) = calendar::ymdhms(ms / 1000);
    (y as u64, mo as u64, d as u64, h as u64, mi as u64, s as u64)
}

/// Compact ISO 8601 for file names: `YYYYMMDDTHHMMSSZ`.
pub fn iso_basic(ms: u64) -> (r: String)
    ensures
        r@ == iso_basic_spec(ms),
{
    let (y, mo, d, h, mi, s) = fields_of(ms);
    let mut out = String::new();
    text::push_dec_padded(&mut out, y, 4);
    text::push_dec_padded(&mut out, mo, 2);
    text::push_dec_padded(&mut out, d, 2);
    out.append("T");
    text::push_dec_padded(&mut out, h, 2);
    text::push_dec_padded(&mut out, mi, 2);
    text::push_dec_padded(&mut out, s, 2);
    out.append("Z");
    assert(out@ =~= iso_basic_spec(ms));
    out
}

/// RFC 3339 in UTC with milliseconds: `YYYY-MM-DDTHH:MM:SS.fffZ`.
pub fn iso_human(ms: u64) -> (r: String)
    ensures
        r@ == iso_human_spec(ms),
{
    let (y, mo, d, h, mi, s) = fields_of(ms);
    let mut out = String::new();
    text::push_dec_padded(&mut out, y, 4);
    out.append("-");
    text::push_dec_padded(&mut out, mo, 2);
    out.append("-");
    text::push_dec_padded(&mut out, d, 2);
    out.append("T");
    text::push_dec_padded(&mut out, h, 2);
    out.append(":");
    text::push_dec_padded(&mut out, mi, 2);
    out.append(":");
    text::push_dec_padded(&mut out, s, 2);
    out.append(".");
    text::push_dec_padded(&mut out, ms % 1000, 3);
    out.append("Z");
    assert(out@ =~= iso_human_spec(ms));
    out
}

/// The whole milliseconds of a time in microseconds, in 64 bits.
pub open spec fn unix_ms(now_us: u128) -> u64 {
    ((now_us / 1000) % 0x1_0000_0000_0000_0000) as u64
}

/// The whole milliseconds of a time in microseconds, in 64 bits.
pub fn millis(now_us: u128) -> (ms: u64)
    ensures
        ms == unix_ms(now_us),
{
    let q: u128 = now_us / 1000;
    assert(q as u64 == q % 0x1_0000_0000_0000_0000) by (bit_vector);
    #[verifier::truncate]
    (q as u64)
}

/// The id of the session that starts at `now_us`: its time, the microseconds of
/// that second, and the cleaned stream key.
pub open spec fn session_id_spec(now_us: u128, stream_key: Seq<char>) -> Seq<char> {
    iso_basic_spec(unix_ms(now_us)) + "-"@ + text::dec_padded((now_us % 1_000_000) as nat, 6) + "-"@
        + sanitise_spec(stream_key)
}

/// The id of the session that starts `now_us` microseconds after the epoch.
pub fn session_id(now_us: u128, stream_key: &str) -> (id: String)
    ensures
        id@ == session_id_spec(now_us, stream_key@),
{
    let mut id = iso_basic(millis(now_us));
    id.append("-");
    text::push_dec_padded(&mut id, (now_us % 1_000_000) as u64, 6);
    id.append("-");
    id.append(sanitise(stream_key).as_str());
    assert(id@ =~= session_id_spec(now_us, stream_key@));
    id
}

impl SessionMetadata {
    /// The metadata of a session that starts `now_us` microseconds after the
    /// epoch.
    pub fn open(
        now_us: u128,
        stream_key: String,
        peer: String,
        bumps_version: String,
        config: ConfigSnapshot,
    ) -> (m: SessionMetadata)
        ensures
            m.session_id@ == session_id_spec(now_us, stream_key@),
            m.start_unix_ms == unix_ms(now_us),
            m.start_iso_utc@ == iso_human_spec(unix_ms(now_us)),
            m.stream_key == stream_key,
            m.peer == peer,
            m.bumps_version == bumps_version,
            m.config == config,
            m.stop_unix_ms is None,
            m.stop_iso_utc is None,
            m.duration_ms is None,
            m.stop_reason is None,
    {
        SessionMetadata {
            session_id: session_id(now_us, stream_key.as_str()),
            start_unix_ms: millis(now_us),
            start_iso_utc: iso_human(millis(now_us)),
            stream_key,
            peer,
            bumps_version,
            config,
            stop_unix_ms: None,
            stop_iso_utc: None,
            duration_ms: None,
            stop_reason: None,
        }
    }

    /// Records that the session ended at `now_ms` for `reason`. A clock that was
    /// set back gives a duration of zero.
    pub fn close(&mut self, now_ms: u64, reason: String)
        ensures
            final(self).stop_unix_ms == Some(now_ms),
            final(self).stop_iso_utc matches Some(t) && t@ == iso_human_spec(now_ms),
            final(self).duration_ms == Some(
                if now_ms >= old(self).start_unix_ms {
                    (now_ms - old(self).start_unix_ms) as u64
                } else {
                    0u64
                },
            ),
            final(self).stop_reason == Some(reason),
            final(self).session_id == old(self).session_id,
            final(self).start_unix_ms == old(self).start_unix_ms,
            final(self).start_iso_utc == old(self).start_iso_utc,
            final(self).stream_key == old(self).stream_key,
            final(self).peer == old(self).peer,
            final(self).bumps_version == old(self).bumps_version,
            final(self).config == old(self).config,
    {
        self.stop_unix_ms = Some(now_ms);
        self.stop_iso_utc = Some(iso_human(now_ms));
        self.duration_ms = Some(now_ms.saturating_sub(self.start_unix_ms));
        self.stop_reason = Some(reason);
    }
}

// ── laws ────────────────────────────────────────────────────────────────────

/// `c` can stand in a file name on every platform.
pub open spec fn is_safe(c: char) -> bool {
    is_alphanumeric(c) || c == '_' || c == '-'
}

/// A session id is one plain path component: letters, digits, underscores and
/// hyphens, whatever the publisher sends as its stream key.
pub proof fn law_session_id_is_safe(now_us: u128, stream_key: Seq<char>)
    ensures
        forall|i: int|
            0 <= i < session_id_spec(now_us, stream_key).len() ==> is_safe(
                #[trigger] session_id_spec(now_us, stream_key)[i],
            ),
{
    let ms = unix_ms(now_us);
    let date = calendar::date_of((ms / 1000 / 86_400) as int);
    let secs = ms / 1000 % 86_400;
    reveal_strlit("T");
    reveal_strlit("Z");
    reveal_strlit("-");
    reveal_strlit("anon");
    text::lemma_padded_reads_back(date.0 as nat, 4);
    text::lemma_padded_reads_back(date.1 as nat, 2);
    text::lemma_padded_reads_back(date.2 as nat, 2);
    text::lemma_padded_reads_back((secs / 3600) as nat, 2);
    text::lemma_padded_reads_back((secs / 60 % 60) as nat, 2);
    text::lemma_padded_reads_back((secs % 60) as nat, 2);
    text::lemma_padded_reads_back((now_us % 1_000_000) as nat, 6);
}

/// `now_us` is a moment whose milliseconds fit in 64 bits.
pub open spec fn ms_fits(now_us: u128) -> bool {
    now_us / 1000 <= u64::MAX
}

/// Where the pieces of an id lie, whose year is written in `w` digits.
proof fn lemma_id_pieces(
    date: (Seq<char>, Seq<char>, Seq<char>),
    time: (Seq<char>, Seq<char>, Seq<char>),
    us: Seq<char>,
    t: Seq<char>,
    z: Seq<char>,
    dash: Seq<char>,
    key: Seq<char>,
    w: int,
)
    requires
        date.0.len() == w,
        date.1.len() == 2,
        date.2.len() == 2,
        time.0.len() == 2,
        time.1.len() == 2,
        time.2.len() == 2,
        us.len() == 6,
        t.len() == 1,
        z.len() == 1,
        dash.len() == 1,
    ensures
        ({
            let id = date.0 + date.1 + date.2 + t + time.0 + time.1 + time.2 + z + dash + us + dash
                + key;
            &&& id.len() >= w + 19
            &&& id.take(w + 4) == date.0 + date.1 + date.2
            &&& id[w + 4] == t[0]
            &&& id.subrange(0, w) == date.0
            &&& id.subrange(w, w + 2) == date.1
            &&& id.subrange(w + 2, w + 4) == date.2
            &&& id.subrange(w + 5, w + 7) == time.0
            &&& id.subrange(w + 7, w + 9) == time.1
            &&& id.subrange(w + 9, w + 11) == time.2
            &&& id.subrange(w + 13, w + 19) == us
        }),
{
    let id = date.0 + date.1 + date.2 + t + time.0 + time.1 + time.2 + z + dash + us + dash + key;
    assert(id.take(w + 4) =~= date.0 + date.1 + date.2);
    assert(id.subrange(0, w) =~= date.0);
    assert(id.subrange(w, w + 2) =~= date.1);
    assert(id.subrange(w + 2, w + 4) =~= date.2);
    assert(id.subrange(w + 5, w + 7) =~= time.0);
    assert(id.subrange(w + 7, w + 9) =~= time.1);
    assert(id.subrange(w + 9, w + 11) =~= time.2);
    assert(id.subrange(w + 13, w + 19) =~= us);
}

/// A number below `10^width` takes `width` digits when padded.
proof fn lemma_padded_len(n: nat, width: nat)
    requires
        (width == 2 && n < 100) || (width == 6 && n < 1_000_000),
    ensures
        text::dec_padded(n, width).len() == width,
        text::dec_value(text::dec_padded(n, width)) == n,
        text::all_digits(text::dec_padded(n, width)),
{
    text::lemma_dec_len(n);
    text::lemma_padded_reads_back(n, width);
}

/// The digits that the year of an id takes.
spec fn year_width(now_us: u128) -> int {
    text::dec_padded(
        calendar::date_of((unix_ms(now_us) / 1000 / 86_400) as int).0 as nat,
        4,
    ).len() as int
}

proof fn lemma_id_fields(now_us: u128, stream_key: Seq<char>)
    ensures
        ({
            let id = session_id_spec(now_us, stream_key);
            let ms = unix_ms(now_us);
            let date = calendar::date_of((ms / 1000 / 86_400) as int);
            let secs = ms / 1000 % 86_400;
            let w = year_width(now_us);
            &&& id.len() >= w + 19
            &&& text::all_digits(id.take(w + 4))
            &&& id[w + 4] == 'T'
            &&& calendar::falls_on(date, (ms / 1000 / 86_400) as int)
            &&& text::dec_value(id.subrange(0, w)) == date.0
            &&& text::dec_value(id.subrange(w, w + 2)) == date.1
            &&& text::dec_value(id.subrange(w + 2, w + 4)) == date.2
            &&& text::dec_value(id.subrange(w + 5, w + 7)) == secs / 3600
            &&& text::dec_value(id.subrange(w + 7, w + 9)) == secs / 60 % 60
            &&& text::dec_value(id.subrange(w + 9, w + 11)) == secs % 60
            &&& text::dec_value(id.subrange(w + 13, w + 19)) == now_us % 1_000_000
        }),
{
    let ms = unix_ms(now_us);
    let day = (ms / 1000 / 86_400) as int;
    let date = calendar::date_of(day);
    let secs = ms / 1000 % 86_400;
    let us = now_us % 1_000_000;
    let w = year_width(now_us);
    reveal_strlit("T");
    reveal_strlit("Z");
    reveal_strlit("-");
    calendar::law_every_day_has_a_date(day);
    text::lemma_padded_reads_back(date.0 as nat, 4);
    lemma_padded_len(date.1 as nat, 2);
    lemma_padded_len(date.2 as nat, 2);
    lemma_padded_len((secs / 3600) as nat, 2);
    lemma_padded_len((secs / 60 % 60) as nat, 2);
    lemma_padded_len((secs % 60) as nat, 2);
    lemma_padded_len(us as nat, 6);
    lemma_id_pieces(
        (
            text::dec_padded(date.0 as nat, 4),
            text::dec_padded(date.1 as nat, 2),
            text::dec_padded(date.2 as nat, 2),
        ),
        (
            text::dec_padded((secs / 3600) as nat, 2),
            text::dec_padded((secs / 60 % 60) as nat, 2),
            text::dec_padded((secs % 60) as nat, 2),
        ),
        text::dec_padded(us as nat, 6),
        "T"@,
        "Z"@,
        "-"@,
        sanitise_spec(stream_key),
        w,
    );
}

/// Equal ids write their years in equally many digits: the digits of the date end
/// at the `T`.
proof fn lemma_same_year_width(a_us: u128, a_key: Seq<char>, b_us: u128, b_key: Seq<char>)
    requires
        session_id_spec(a_us, a_key) == session_id_spec(b_us, b_key),
    ensures
        year_width(a_us) >= year_width(b_us),
{
    let id = session_id_spec(a_us, a_key);
    let a = year_width(a_us);
    let b = year_width(b_us);
    lemma_id_fields(a_us, a_key);
    lemma_id_fields(b_us, b_key);
    if a < b {
        assert(text::is_digit(id.take(b + 4)[a + 4]));
    }
}

/// Hours, minutes and seconds determine the second of the day.
proof fn lemma_time_of_day(a: int, b: int)
    requires
        a >= 0,
        b >= 0,
        a / 3600 == b / 3600,
        a / 60 % 60 == b / 60 % 60,
        a % 60 == b % 60,
    ensures
        a == b,
{
    assert(a / 3600 == (a / 60) / 60);
    assert(b / 3600 == (b / 60) / 60);
}

/// A second and the microseconds within it determine the microsecond.
proof fn lemma_seconds(now_us: u128)
    requires
        ms_fits(now_us),
    ensures
        unix_ms(now_us) / 1000 == now_us / 1_000_000,
        now_us == (now_us / 1_000_000) * 1_000_000 + now_us % 1_000_000,
{
}

proof fn lemma_same_id_same_day(a_us: u128, a_key: Seq<char>, b_us: u128, b_key: Seq<char>)
    requires
        session_id_spec(a_us, a_key) == session_id_spec(b_us, b_key),
    ensures
        unix_ms(a_us) / 1000 / 86_400 == unix_ms(b_us) / 1000 / 86_400,
        (unix_ms(a_us) / 1000 % 86_400) / 3600 == (unix_ms(b_us) / 1000 % 86_400) / 3600,
        (unix_ms(a_us) / 1000 % 86_400) / 60 % 60 == (unix_ms(b_us) / 1000 % 86_400) / 60 % 60,
        (unix_ms(a_us) / 1000 % 86_400) % 60 == (unix_ms(b_us) / 1000 % 86_400) % 60,
        a_us % 1_000_000 == b_us % 1_000_000,
{
    lemma_same_year_width(a_us, a_key, b_us, b_key);
    lemma_same_year_width(b_us, b_key, a_us, a_key);
    lemma_id_fields(a_us, a_key);
    lemma_id_fields(b_us, b_key);
}

/// Sessions that start at different microseconds get different ids, so neither
/// writes into the other's directory.
pub proof fn law_session_ids_differ(a_us: u128, a_key: Seq<char>, b_us: u128, b_key: Seq<char>)
    requires
        a_us != b_us,
        ms_fits(a_us),
        ms_fits(b_us),
    ensures
        session_id_spec(a_us, a_key) != session_id_spec(b_us, b_key),
{
    if session_id_spec(a_us, a_key) == session_id_spec(b_us, b_key) {
        lemma_same_id_same_day(a_us, a_key, b_us, b_key);
        let a = (unix_ms(a_us) / 1000) as int;
        let b = (unix_ms(b_us) / 1000) as int;
        lemma_time_of_day(a % 86_400, b % 86_400);
        lemma_seconds(a_us);
        lemma_seconds(b_us);
        assert(a == b);
    }
}

/// The first millisecond of the year 10000.
pub const FOUR_DIGIT_YEARS_END_MS: u64 = 253_402_300_800_000;

/// The digits of a compact timestamp before and after the `T`.
spec fn iso_digits(ms: u64) -> (Seq<char>, Seq<char>) {
    let date = calendar::date_of((ms / 1000 / 86_400) as int);
    let secs = ms / 1000 % 86_400;
    (
        text::dec_padded(date.0 as nat, 4) + text::dec_padded(date.1 as nat, 2) + text::dec_padded(
            date.2 as nat,
            2,
        ),
        text::dec_padded((secs / 3600) as nat, 2) + text::dec_padded((secs / 60 % 60) as nat, 2)
            + text::dec_padded((secs % 60) as nat, 2),
    )
}

proof fn lemma_iso_digits(ms: u64)
    requires
        ms < FOUR_DIGIT_YEARS_END_MS,
    ensures
        ({
            let date = calendar::date_of((ms / 1000 / 86_400) as int);
            let secs = ms / 1000 % 86_400;
            let (d, t) = iso_digits(ms);
            &&& calendar::falls_on(date, (ms / 1000 / 86_400) as int)
            &&& date.0 <= 9999
            &&& d.len() == 8
            &&& t.len() == 6
            &&& text::all_digits(d)
            &&& text::all_digits(t)
            &&& text::dec_value(d) == date.0 * 10_000 + date.1 * 100 + date.2
            &&& text::dec_value(t) == (secs / 3600) * 10_000 + (secs / 60 % 60) * 100 + secs % 60
            &&& iso_basic_spec(ms) == d + "T"@ + t + "Z"@
        }),
{
    let day = (ms / 1000 / 86_400) as int;
    let date = calendar::date_of(day);
    let secs = ms / 1000 % 86_400;
    let (d, t) = iso_digits(ms);
    let year = text::dec_padded(date.0 as nat, 4);
    let month = text::dec_padded(date.1 as nat, 2);
    let hour = text::dec_padded((secs / 3600) as nat, 2);
    let minute = text::dec_padded((secs / 60 % 60) as nat, 2);
    calendar::law_every_day_has_a_date(day);
    calendar::lemma_four_digit_years(day);
    text::lemma_dec_len(date.0 as nat);
    text::lemma_padded_reads_back(date.0 as nat, 4);
    lemma_padded_len(date.1 as nat, 2);
    lemma_padded_len(date.2 as nat, 2);
    lemma_padded_len((secs / 3600) as nat, 2);
    lemma_padded_len((secs / 60 % 60) as nat, 2);
    lemma_padded_len((secs % 60) as nat, 2);
    text::lemma_two_more_digits(year, month);
    text::lemma_two_more_digits(year + month, text::dec_padded(date.2 as nat, 2));
    text::lemma_two_more_digits(hour, minute);
    text::lemma_two_more_digits(hour + minute, text::dec_padded((secs % 60) as nat, 2));
    assert(iso_basic_spec(ms) =~= d + "T"@ + t + "Z"@);
}

/// Up to the year 9999, a compact timestamp is sixteen characters, digits but for a
/// `T` and a final `Z`, and timestamps of different seconds sort as time does.
pub proof fn law_iso_basic_sorts(a: u64, b: u64)
    requires
        a < FOUR_DIGIT_YEARS_END_MS,
        b < FOUR_DIGIT_YEARS_END_MS,
        a / 1000 < b / 1000,
    ensures
        text::sorts_before(iso_basic_spec(a), iso_basic_spec(b)),
        iso_basic_spec(a).len() == 16,
        iso_basic_spec(a)[8] == 'T',
        iso_basic_spec(a)[15] == 'Z',
        forall|i: int|
            0 <= i < 15 && i != 8 ==> text::is_digit(#[trigger] iso_basic_spec(a)[i]),
{
    let (d, t) = iso_digits(a);
    let (e, u) = iso_digits(b);
    let x = calendar::date_of((a / 1000 / 86_400) as int);
    let y = calendar::date_of((b / 1000 / 86_400) as int);
    reveal_strlit("T");
    reveal_strlit("Z");
    lemma_iso_digits(a);
    lemma_iso_digits(b);
    text::lemma_digits_sort(d, e);
    text::lemma_digits_sort(t, u);
    let none = Seq::<char>::empty();
    if a / 1000 / 86_400 < b / 1000 / 86_400 {
        if y.0 < x.0 || (y.0 == x.0 && y.1 < x.1) || (y.0 == x.0 && y.1 == x.1 && y.2 < x.2) {
            calendar::law_dates_in_order(y.0, y.1, y.2, x.0, x.1, x.2);
        }
        assert(text::dec_value(d) < text::dec_value(e));
        text::lemma_sorts_within(none, d, e, "T"@ + t + "Z"@, "T"@ + u + "Z"@);
        assert(iso_basic_spec(a) =~= none + d + ("T"@ + t + "Z"@));
        assert(iso_basic_spec(b) =~= none + e + ("T"@ + u + "Z"@));
    } else {
        let p = (a / 1000 % 86_400) as int;
        let q = (b / 1000 % 86_400) as int;
        assert(p < q);
        assert(p / 3600 == (p / 60) / 60);
        assert(q / 3600 == (q / 60) / 60);
        assert(text::dec_value(t) < text::dec_value(u));
        text::lemma_sorts_within(d + "T"@, t, u, "Z"@, "Z"@);
    }
    assert forall|i: int| 0 <= i < 15 && i != 8 implies text::is_digit(
        #[trigger] iso_basic_spec(a)[i],
    ) by {
        if i < 8 {
            assert(text::is_digit(d[i]));
        } else {
            assert(text::is_digit(t[i - 9]));
        }
    }
}

/// A stream key keeps its first 64 characters, each as it is where it is a letter or a
/// digit of ASCII and an underscore elsewhere; where there is none, `anon` stands for it.
pub proof fn law_keys_are_cleaned(key: Seq<char>)
    ensures
        key.len() == 0 ==> sanitise_spec(key) == seq!['a', 'n', 'o', 'n'],
        0 < key.len() <= 64 ==> sanitise_spec(key).len() == key.len(),
        key.len() > 64 ==> sanitise_spec(key).len() == 64,
        key.len() > 0 ==> forall|i: int|
            0 <= i < sanitise_spec(key).len() ==> {
                let c = key[i];
                let plain = '0' <= c <= '9' || 'A' <= c <= 'Z' || 'a' <= c <= 'z';
                #[trigger] sanitise_spec(key)[i] == if plain {
                    c
                } else {
                    '_'
                }
            },
{
    reveal_strlit("anon");
}

/// A moment in microseconds is taken in whole milliseconds.
pub proof fn law_milliseconds_are_whole(now_us: u128)
    requires
        now_us / 1000 <= 0xFFFF_FFFF_FFFF_FFFF,
    ensures
        unix_ms(now_us) * 1000 <= now_us < (unix_ms(now_us) + 1) * 1000,
{
}

/// The number written at this place of a text.
pub open spec fn number_at(s: Seq<char>, from: int, to: int) -> int {
    text::dec_value(s.subrange(from, to)) as int
}

/// A compact timestamp says the second that it was made for: its date is a day of the
/// calendar, its time a time of the day, and together they are as many seconds after the
/// epoch.
pub proof fn law_iso_basic_reads_back(ms: u64)
    requires
        ms < 253_402_300_800_000,
    ensures
        ({
            let s = iso_basic_spec(ms);
            let (y, m, d) = (number_at(s, 0, 4), number_at(s, 4, 6), number_at(s, 6, 8));
            let (h, i, t) = (number_at(s, 9, 11), number_at(s, 11, 13), number_at(s, 13, 15));
            &&& s.len() == 16 && s[8] == 'T' && s[15] == 'Z'
            &&& calendar::valid_date(y, m, d)
            &&& 0 <= h < 24 && 0 <= i < 60 && 0 <= t < 60
            &&& calendar::day_number(y, m, d) * 86_400 + h * 3600 + i * 60 + t == ms / 1000
        }),
{
    let s = iso_basic_spec(ms);
    let date = calendar::date_of((ms / 1000 / 86_400) as int);
    let secs = ms / 1000 % 86_400;
    reveal_strlit("T");
    reveal_strlit("Z");
    lemma_iso_digits(ms);
    text::lemma_dec_len(date.0 as nat);
    text::lemma_padded_reads_back(date.0 as nat, 4);
    lemma_padded_len(date.1 as nat, 2);
    lemma_padded_len(date.2 as nat, 2);
    lemma_padded_len((secs / 3600) as nat, 2);
    lemma_padded_len((secs / 60 % 60) as nat, 2);
    lemma_padded_len((secs % 60) as nat, 2);
    assert(s.subrange(0, 4) =~= text::dec_padded(date.0 as nat, 4));
    assert(s.subrange(4, 6) =~= text::dec_padded(date.1 as nat, 2));
    assert(s.subrange(6, 8) =~= text::dec_padded(date.2 as nat, 2));
    assert(s.subrange(9, 11) =~= text::dec_padded((secs / 3600) as nat, 2));
    assert(s.subrange(11, 13) =~= text::dec_padded((secs / 60 % 60) as nat, 2));
    assert(s.subrange(13, 15) =~= text::dec_padded((secs % 60) as nat, 2));
    assert(secs / 3600 == (secs / 60) / 60);
}

/// A readable timestamp says the millisecond that it was made for.
pub proof fn law_iso_human_reads_back(ms: u64)
    requires
        ms < 253_402_300_800_000,
    ensures
        ({
            let s = iso_human_spec(ms);
            let (y, m, d) = (number_at(s, 0, 4), number_at(s, 5, 7), number_at(s, 8, 10));
            let (h, i, t) = (number_at(s, 11, 13), number_at(s, 14, 16), number_at(s, 17, 19));
            let f = number_at(s, 20, 23);
            &&& s.len() == 24
            &&& s[4] == '-' && s[7] == '-' && s[10] == 'T' && s[13] == ':' && s[16] == ':' && s[19]
                == '.' && s[23] == 'Z'
            &&& calendar::valid_date(y, m, d)
            &&& 0 <= h < 24 && 0 <= i < 60 && 0 <= t < 60 && 0 <= f < 1000
            &&& (calendar::day_number(y, m, d) * 86_400 + h * 3600 + i * 60 + t) * 1000 + f == ms
        }),
{
    let s = iso_human_spec(ms);
    let date = calendar::date_of((ms / 1000 / 86_400) as int);
    let secs = ms / 1000 % 86_400;
    reveal_strlit("T");
    reveal_strlit("Z");
    reveal_strlit("-");
    reveal_strlit(":");
    reveal_strlit(".");
    lemma_iso_digits(ms);
    text::lemma_dec_len(date.0 as nat);
    text::lemma_dec_len((ms % 1000) as nat);
    text::lemma_padded_reads_back(date.0 as nat, 4);
    text::lemma_padded_reads_back((ms % 1000) as nat, 3);
    lemma_padded_len(date.1 as nat, 2);
    lemma_padded_len(date.2 as nat, 2);
    lemma_padded_len((secs / 3600) as nat, 2);
    lemma_padded_len((secs / 60 % 60) as nat, 2);
    lemma_padded_len((secs % 60) as nat, 2);
    assert(s.subrange(0, 4) =~= text::dec_padded(date.0 as nat, 4));
    assert(s.subrange(5, 7) =~= text::dec_padded(date.1 as nat, 2));
    assert(s.subrange(8, 10) =~= text::dec_padded(date.2 as nat, 2));
    assert(s.subrange(11, 13) =~= text::dec_padded((secs / 3600) as nat, 2));
    assert(s.subrange(14, 16) =~= text::dec_padded((secs / 60 % 60) as nat, 2));
    assert(s.subrange(17, 19) =~= text::dec_padded((secs % 60) as nat, 2));
    assert(s.subrange(20, 23) =~= text::dec_padded((ms % 1000) as nat, 3));
    assert(secs / 3600 == (secs / 60) / 60);
}

/// A session id is the compact timestamp of its start, the microseconds of that second
/// in six digits, and the cleaned stream key, with hyphens between them.
pub proof fn law_ids_say_when_and_who(now_us: u128, key: Seq<char>)
    requires
        now_us < 253_402_300_800_000_000,
    ensures
        ({
            let id = session_id_spec(now_us, key);
            &&& id.len() >= 24
            &&& id.take(16) == iso_basic_spec((now_us / 1000) as u64)
            &&& id[16] == '-' && id[23] == '-'
            &&& number_at(id, 17, 23) == now_us % 1_000_000
            &&& id.skip(24) == sanitise_spec(key)
        }),
{
    let id = session_id_spec(now_us, key);
    let ms = unix_ms(now_us);
    let us = text::dec_padded((now_us % 1_000_000) as nat, 6);
    reveal_strlit("T");
    reveal_strlit("Z");
    reveal_strlit("-");
    assert(ms == now_us / 1000);
    lemma_iso_digits(ms);
    lemma_padded_len((now_us % 1_000_000) as nat, 6);
    assert(id.take(16) =~= iso_basic_spec(ms));
    assert(id.subrange(17, 23) =~= us);
    assert(id.skip(24) =~= sanitise_spec(key));
}

} // verus!
