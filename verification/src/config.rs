//! What follows from the command line: bitrate bounds and the SRT address.

use vstd::prelude::*;

use crate::text;

verus! {

/// Half of `bitrate_kbps`.
pub open spec fn default_min_kbps(bitrate_kbps: u32) -> int {
    bitrate_kbps as int / 2
}

/// 120 percent of `bitrate_kbps`.
pub open spec fn default_max_kbps(bitrate_kbps: u32) -> int {
    bitrate_kbps * 12 / 10
}

/// The adapter's floor: the one given, or else half of the bitrate.
pub fn adapt_min_kbps(bitrate_kbps: u32, given: Option<u32>) -> (kbps: u32)
    ensures
        given matches Some(g) ==> kbps == g,
        given is None ==> kbps == default_min_kbps(bitrate_kbps),
{
    match given {
        Some(g) => g,
        None => bitrate_kbps / 2,
    }
}

/// The adapter's ceiling: the one given, or else 120 percent of the bitrate.
pub fn adapt_max_kbps(bitrate_kbps: u32, given: Option<u32>) -> (kbps: u32)
    requires
        bitrate_kbps * 12 <= u32::MAX,
    ensures
        given matches Some(g) ==> kbps == g,
        given is None ==> kbps == default_max_kbps(bitrate_kbps),
{
    match given {
        Some(g) => g,
        None => bitrate_kbps * 12 / 10,
    }
}

/// `uri` as the uplink uses it: untouched where it carries parameters, else with
/// the stability defaults appended. `inputbw` and `maxbw` are in bytes per
/// second, `maxbw` being twice `inputbw`.
pub open spec fn srt_uri_spec(uri: Seq<char>, bitrate_kbps: u32) -> Seq<char> {
    if uri.contains('?') {
        uri
    } else {
        uri + "?mode=caller&latency=8000&peerlatency=8000&oheadbw=100&inputbw="@ + text::dec(
            (bitrate_kbps * 125) as nat,
        ) + "&maxbw="@ + text::dec((bitrate_kbps * 250) as nat)
            + "&rcvbuf=25000000&sndbuf=25000000&peeridletimeo=30000&streamid=drone"@
    }
}

/// The SRT address with stability defaults, unless it has parameters of its own.
pub fn finalise_srt_uri(uri: &str, bitrate_kbps: u32) -> (r: String)
    ensures
        r@ == srt_uri_spec(uri@, bitrate_kbps),
{
    if text::contains_char(uri, '?') {
        return uri.to_owned();
    }
    let inputbw: u64 = bitrate_kbps as u64 * 125;
    let maxbw: u64 = bitrate_kbps as u64 * 250;
    let mut out = uri.to_owned();
    out.append("?mode=caller&latency=8000&peerlatency=8000&oheadbw=100&inputbw=");
    text::push_dec(&mut out, inputbw);
    out.append("&maxbw=");
    text::push_dec(&mut out, maxbw);
    out.append("&rcvbuf=25000000&sndbuf=25000000&peeridletimeo=30000&streamid=drone");
    out
}

// ── laws ────────────────────────────────────────────────────────────────────

/// An address that was completed once is not completed again, whatever bitrate
/// it is completed for: explicit parameters win.
pub proof fn law_finalised_uri_is_final(uri: Seq<char>, bitrate_kbps: u32, other_kbps: u32)
    ensures
        srt_uri_spec(srt_uri_spec(uri, bitrate_kbps), other_kbps) == srt_uri_spec(
            uri,
            bitrate_kbps,
        ),
{
    let done = srt_uri_spec(uri, bitrate_kbps);
    if !uri.contains('?') {
        reveal_strlit("?mode=caller&latency=8000&peerlatency=8000&oheadbw=100&inputbw=");
        assert(done[uri.len() as int] == '?');
    }
}

/// The default bounds enclose the nominal bitrate.
pub proof fn law_default_bounds_enclose_nominal(bitrate_kbps: u32)
    ensures
        default_min_kbps(bitrate_kbps) <= bitrate_kbps <= default_max_kbps(bitrate_kbps),
{
}

/// The default floor is half of the bitrate and the default ceiling six fifths of it, to
/// within the rounding down of one kbps.
pub proof fn law_default_bounds_are_proportional(bitrate_kbps: u32)
    ensures
        2 * default_min_kbps(bitrate_kbps) <= bitrate_kbps < 2 * default_min_kbps(bitrate_kbps) + 2,
        5 * default_max_kbps(bitrate_kbps) <= 6 * bitrate_kbps < 5 * default_max_kbps(bitrate_kbps)
            + 5,
{
}

/// An address without parameters gets them all: it begins with what was given, asks for
/// the stability settings, and names the input bandwidth in bytes a second, an eighth of
/// a thousand for each kbps, and twice that as the ceiling.
pub proof fn law_uri_defaults(uri: Seq<char>, bitrate_kbps: u32)
    requires
        !uri.contains('?'),
    ensures
        ({
            let done = srt_uri_spec(uri, bitrate_kbps);
            let head = "?mode=caller&latency=8000&peerlatency=8000&oheadbw=100&inputbw="@;
            let input = text::dec(bitrate_kbps as nat * 1000 / 8);
            let middle = "&maxbw="@;
            let ceiling = text::dec(2 * (bitrate_kbps as nat * 1000 / 8));
            let tail = "&rcvbuf=25000000&sndbuf=25000000&peeridletimeo=30000&streamid=drone"@;
            &&& done.len() == uri.len() + head.len() + input.len() + middle.len() + ceiling.len()
                + tail.len()
            &&& done == uri + head + input + middle + ceiling + tail
        }),
{
    assert(bitrate_kbps as nat * 1000 / 8 == bitrate_kbps * 125);
}

/// An address with parameters is used as it is.
pub proof fn law_explicit_parameters_win(uri: Seq<char>, bitrate_kbps: u32)
    requires
        uri.contains('?'),
    ensures
        srt_uri_spec(uri, bitrate_kbps) == uri,
{
}

} // verus!
