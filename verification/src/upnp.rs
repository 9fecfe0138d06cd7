use vstd::prelude::*;
use crate::soap::{
    device_url, device_url_exec, make_request, upnp_action, upnp_action_exec, xml_content_type,
    SoapRequest, SoapRequestView,
};
use crate::ssdp::{ENVELOPE_HEAD, ENVELOPE_TAIL, opt_view};
use crate::text::{
    contains, contains_exec, decimal, decimal2, find, find_from, find_from_exec, from_chars,
    html_escape, html_escaped, lemma_find_from, lemma_find_from_first, matches_at, parse_int, parse_i16, parse_i32,
    parse_u32, parse_u8, push_decimal, push_decimal2, push_signed_decimal, push_str,
    replace_str, replaced, signed_decimal, lemma_replaced_no_longer, slice_chars, to_chars, int_error_message,
    int_error_string, IntErrorKind,
};
use crate::xml::{
    first_with_tag, first_with_tag_exec, nodes_view, parse_xml, xml_parse, XmlNodeView,
    lemma_first_with_tag_range,
};

verus! {

// ── Text extraction ────────────────────────────────────────────────────

/// The text between the first `open` and the first `close` after it.
pub open spec fn between(xml: Seq<char>, open: Seq<char>, close: Seq<char>) -> Option<Seq<char>> {
    match find(xml, open) {
        None => None,
        Some(start) => {
            let cs = start + open.len();
            match find(xml.skip(cs), close) {
                None => None,
                Some(end) => Some(xml.subrange(cs, cs + end)),
            }
        },
    }
}

/// `s` with `&amp;`, `&lt;`, `&gt;` and `&quot;` replaced, one after the other in that order.
pub open spec fn unescape_algq(s: Seq<char>) -> Seq<char> {
    replaced(replaced(replaced(replaced(s, "&amp;"@, "&"@), "&lt;"@, "<"@), "&gt;"@, ">"@), "&quot;"@, "\""@)
}

/// The content of the first element `tag` in `xml`; where there is none, the content of the
/// first escaped element `&lt;tag&gt;`, with its entities replaced.
pub open spec fn extracted(xml: Seq<char>, tag: Seq<char>) -> Option<Seq<char>> {
    match between(xml, "<"@ + tag + ">"@, "</"@ + tag + ">"@) {
        Some(v) => Some(v),
        None => match between(xml, "&lt;"@ + tag + "&gt;"@, "&lt;/"@ + tag + "&gt;"@) {
            Some(raw) => Some(unescape_algq(raw)),
            None => None,
        },
    }
}

/// The text between two markers is no longer than the document it lies in.
proof fn lemma_between_no_longer(xml: Seq<char>, open: Seq<char>, close: Seq<char>)
    ensures
        between(xml, open, close) matches Some(v) ==> v.len() <= xml.len(),
{
    lemma_find_from(xml, open, 0);
    if let Some(start) = find(xml, open) {
        let cs = start + open.len();
        lemma_find_from(xml.skip(cs), close, 0);
    }
}

/// What `extract` returns is never longer than the document it reads: it is a piece of the
/// document, or such a piece with entities shortened to their characters.
pub proof fn lemma_extract_no_longer(xml: Seq<char>, tag: Seq<char>)
    ensures
        extracted(xml, tag) matches Some(v) ==> v.len() <= xml.len(),
{
    reveal_strlit("&amp;");
    reveal_strlit("&");
    reveal_strlit("&lt;");
    reveal_strlit("<");
    reveal_strlit("&gt;");
    reveal_strlit(">");
    reveal_strlit("&quot;");
    reveal_strlit("\"");
    lemma_between_no_longer(xml, "<"@ + tag + ">"@, "</"@ + tag + ">"@);
    lemma_between_no_longer(xml, "&lt;"@ + tag + "&gt;"@, "&lt;/"@ + tag + "&gt;"@);
    if let Some(raw) = between(xml, "&lt;"@ + tag + "&gt;"@, "&lt;/"@ + tag + "&gt;"@) {
        let a = replaced(raw, "&amp;"@, "&"@);
        let b = replaced(a, "&lt;"@, "<"@);
        let c = replaced(b, "&gt;"@, ">"@);
        lemma_replaced_no_longer(raw, "&amp;"@, "&"@);
        lemma_replaced_no_longer(a, "&lt;"@, "<"@);
        lemma_replaced_no_longer(b, "&gt;"@, ">"@);
        lemma_replaced_no_longer(c, "&quot;"@, "\""@);
    }
}

/// `extracted`, or the empty string.
pub open spec fn extracted_or_empty(xml: Seq<char>, tag: Seq<char>) -> Seq<char> {
    match extracted(xml, tag) {
        Some(v) => v,
        None => Seq::empty(),
    }
}

/// Reading back what an element wraps: where `v` holds no `<`, the element `<tag>v</tag>`
/// extracts as `v`.
pub proof fn lemma_extract_wrapped(tag: Seq<char>, v: Seq<char>)
    requires
        forall|i: int| 0 <= i < v.len() ==> v[i] != '<',
    ensures
        extracted("<"@ + tag + ">"@ + v + "</"@ + tag + ">"@, tag) == Some(v),
{
    reveal_strlit("<");
    reveal_strlit(">");
    reveal_strlit("</");
    let open = "<"@ + tag + ">"@;
    let close = "</"@ + tag + ">"@;
    let xml = open + v + close;
    assert(xml =~= "<"@ + tag + ">"@ + v + "</"@ + tag + ">"@);
    assert(xml.subrange(0, open.len() as int) =~= open);
    lemma_find_from_first(xml, open, 0, 0);
    let rest = xml.skip(open.len() as int);
    assert(rest =~= v + close);
    assert(rest.subrange(v.len() as int, (v.len() + close.len()) as int) =~= close);
    assert forall|j: int| 0 <= j < v.len() implies !matches_at(rest, close, j) by {
        assert(rest[j] == v[j]);
        if matches_at(rest, close, j) {
            assert(rest.subrange(j, j + close.len())[0] == close[0]);
        }
    }
    lemma_find_from_first(rest, close, 0, v.len() as int);
    assert(xml.subrange(open.len() as int, (open.len() + v.len()) as int) =~= v);
}

/// The decimal notation holds digits only.
pub proof fn lemma_decimal_digits(n: nat)
    ensures
        forall|i: int| 0 <= i < decimal(n).len() ==> #[trigger] decimal(n)[i] != '<' && decimal(n)[i] != '-',
    decreases n,
{
    if n >= 10 {
        lemma_decimal_digits(n / 10);
        let p = decimal(n / 10);
        assert forall|i: int| 0 <= i < decimal(n).len() implies #[trigger] decimal(n)[i] != '<' && decimal(n)[i] != '-' by {
            if i < p.len() {
                assert(decimal(n)[i] == p[i]);
            }
        }
    }
}

/// Reading back a volume: the `SetVolume` call sends `v` in decimal, and an answer that
/// reports that text as `CurrentVolume` reads as `v`.
pub proof fn lemma_volume_roundtrip(v: u8)
    ensures
        call_parts(UpnpCall::SetVolume(v)).2 == MASTER@ + "<DesiredVolume>"@ + decimal(v as nat) + "</DesiredVolume>"@,
        int_or_message(
            extracted_or_empty("<"@ + "CurrentVolume"@ + ">"@ + decimal(v as nat) + "</"@ + "CurrentVolume"@ + ">"@, "CurrentVolume"@),
            0,
            255,
        ) == Ok::<int, Seq<char>>(v as int),
{
    lemma_decimal_digits(v as nat);
    lemma_extract_wrapped("CurrentVolume"@, decimal(v as nat));
    crate::text::lemma_decimal_parses(v as int, 0, 255);
}

/// Reading back a mute setting: the `SetMute` call sends `1` or `0`, and an answer that
/// reports that text as `CurrentMute` reads as the setting.
pub proof fn lemma_mute_roundtrip(b: bool)
    ensures
        call_parts(UpnpCall::SetMute(b)).2 == MASTER@ + "<DesiredMute>"@ + flag(b) + "</DesiredMute>"@,
        flag_or_message(
            extracted_or_empty("<"@ + "CurrentMute"@ + ">"@ + flag(b) + "</"@ + "CurrentMute"@ + ">"@, "CurrentMute"@),
        ) == Ok::<bool, Seq<char>>(b),
{
    reveal_strlit("1");
    reveal_strlit("0");
    let n: nat = if b { 1 } else { 0 };
    assert(flag(b) =~= decimal(n));
    lemma_decimal_digits(n);
    lemma_extract_wrapped("CurrentMute"@, decimal(n));
    crate::text::lemma_decimal_parses(n as int, 0, 255);
}

/// Reading back the crossfade setting: the `SetCrossfadeMode` call sends `1` or `0`, and an
/// answer that reports that text as `CrossfadeMode` reads as the setting.
pub proof fn lemma_crossfade_roundtrip(on: bool)
    ensures
        call_parts(UpnpCall::SetCrossfade(on)).2 == INSTANCE@ + "<CrossfadeMode>"@ + flag(on) + "</CrossfadeMode>"@,
        (extracted_or_empty("<"@ + "CrossfadeMode"@ + ">"@ + flag(on) + "</"@ + "CrossfadeMode"@ + ">"@, "CrossfadeMode"@)
            == "1"@) == on,
{
    reveal_strlit("1");
    reveal_strlit("0");
    let n: nat = if on { 1 } else { 0 };
    assert(flag(on) =~= decimal(n));
    lemma_decimal_digits(n);
    lemma_extract_wrapped("CrossfadeMode"@, flag(on));
    if !on {
        assert(flag(on)[0] != "1"@[0]);
    }
}

/// Reading back a bass level: the `SetBass` call sends `v` in decimal, and an answer that
/// reports that text as `CurrentBass` reads as `v`.
pub proof fn lemma_bass_roundtrip(v: i16)
    ensures
        call_parts(UpnpCall::SetBass(v)).2 == INSTANCE@ + "<DesiredBass>"@ + signed_decimal(v as int) + "</DesiredBass>"@,
        int_or_message(
            extracted_or_empty("<"@ + "CurrentBass"@ + ">"@ + signed_decimal(v as int) + "</"@ + "CurrentBass"@ + ">"@, "CurrentBass"@),
            -32768,
            32767,
        ) == Ok::<int, Seq<char>>(v as int),
{
    let d = signed_decimal(v as int);
    if v < 0 {
        lemma_decimal_digits((-v) as nat);
        assert(forall|i: int| 0 <= i < d.len() ==> #[trigger] d[i] != '<') by {
            assert forall|i: int| 0 <= i < d.len() implies #[trigger] d[i] != '<' by {
                if i > 0 {
                    assert(d[i] == decimal((-v) as nat)[i - 1]);
                }
            }
        }
    } else {
        lemma_decimal_digits(v as nat);
    }
    lemma_extract_wrapped("CurrentBass"@, d);
    crate::text::lemma_decimal_parses(v as int, -32768, 32767);
}

/// Reading back a treble level: the `SetTreble` call of RenderingControl sends `v` in
/// decimal as `DesiredTreble`, and an answer that reports that text as `CurrentTreble` reads
/// as `v`.
pub proof fn lemma_treble_roundtrip(v: i16)
    ensures
        call_parts(UpnpCall::SetTreble(v)) == (
            UpnpService::RenderingControl,
            "SetTreble"@,
            INSTANCE@ + "<DesiredTreble>"@ + signed_decimal(v as int) + "</DesiredTreble>"@,
        ),
        int_or_message(
            extracted_or_empty("<"@ + "CurrentTreble"@ + ">"@ + signed_decimal(v as int) + "</"@ + "CurrentTreble"@ + ">"@, "CurrentTreble"@),
            -32768,
            32767,
        ) == Ok::<int, Seq<char>>(v as int),
{
    let d = signed_decimal(v as int);
    if v < 0 {
        lemma_decimal_digits((-v) as nat);
        assert(forall|i: int| 0 <= i < d.len() ==> #[trigger] d[i] != '<') by {
            assert forall|i: int| 0 <= i < d.len() implies #[trigger] d[i] != '<' by {
                if i > 0 {
                    assert(d[i] == decimal((-v) as nat)[i - 1]);
                }
            }
        }
    } else {
        lemma_decimal_digits(v as nat);
    }
    lemma_extract_wrapped("CurrentTreble"@, d);
    crate::text::lemma_decimal_parses(v as int, -32768, 32767);
}

/// Each transport call goes to AVTransport and names its own action: `Next` asks for the
/// next track, `Previous` for the previous one, and so on (a play-mode read asks for the
/// transport settings, a sleep-timer read for the remaining duration).
pub proof fn lemma_transport_call_targets(target: String, mode: String, uri: String, meta: String, n: u32, secs: u32, b: bool)
    ensures
        call_parts(UpnpCall::GetTransportInfo).0 == UpnpService::AVTransport && call_parts(UpnpCall::GetTransportInfo).1 == "GetTransportInfo"@,
        call_parts(UpnpCall::GetPositionInfo).0 == UpnpService::AVTransport && call_parts(UpnpCall::GetPositionInfo).1 == "GetPositionInfo"@,
        call_parts(UpnpCall::GetMediaInfo).0 == UpnpService::AVTransport && call_parts(UpnpCall::GetMediaInfo).1 == "GetMediaInfo"@,
        call_parts(UpnpCall::Play).0 == UpnpService::AVTransport && call_parts(UpnpCall::Play).1 == "Play"@,
        call_parts(UpnpCall::Pause).0 == UpnpService::AVTransport && call_parts(UpnpCall::Pause).1 == "Pause"@,
        call_parts(UpnpCall::Stop).0 == UpnpService::AVTransport && call_parts(UpnpCall::Stop).1 == "Stop"@,
        call_parts(UpnpCall::Next).0 == UpnpService::AVTransport && call_parts(UpnpCall::Next).1 == "Next"@,
        call_parts(UpnpCall::Previous).0 == UpnpService::AVTransport && call_parts(UpnpCall::Previous).1 == "Previous"@,
        call_parts(UpnpCall::Seek(target)).0 == UpnpService::AVTransport && call_parts(UpnpCall::Seek(target)).1 == "Seek"@,
        call_parts(UpnpCall::SeekTrack(n)).0 == UpnpService::AVTransport && call_parts(UpnpCall::SeekTrack(n)).1 == "Seek"@,
        call_parts(UpnpCall::GetPlayMode).0 == UpnpService::AVTransport && call_parts(UpnpCall::GetPlayMode).1 == "GetTransportSettings"@,
        call_parts(UpnpCall::SetPlayMode(mode)).0 == UpnpService::AVTransport && call_parts(UpnpCall::SetPlayMode(mode)).1 == "SetPlayMode"@,
        call_parts(UpnpCall::GetCrossfade).0 == UpnpService::AVTransport && call_parts(UpnpCall::GetCrossfade).1 == "GetCrossfadeMode"@,
        call_parts(UpnpCall::SetCrossfade(b)).0 == UpnpService::AVTransport && call_parts(UpnpCall::SetCrossfade(b)).1 == "SetCrossfadeMode"@,
        call_parts(UpnpCall::GetTransportSettings).0 == UpnpService::AVTransport && call_parts(UpnpCall::GetTransportSettings).1 == "GetTransportSettings"@,
        call_parts(UpnpCall::SetAvTransportUri(uri, meta)).0 == UpnpService::AVTransport && call_parts(UpnpCall::SetAvTransportUri(uri, meta)).1 == "SetAVTransportURI"@,
        call_parts(UpnpCall::GetSleepTimer).0 == UpnpService::AVTransport && call_parts(UpnpCall::GetSleepTimer).1 == "GetRemainingSleepTimerDuration"@,
        call_parts(UpnpCall::SetSleepTimer(secs)).0 == UpnpService::AVTransport && call_parts(UpnpCall::SetSleepTimer(secs)).1 == "ConfigureSleepTimer"@,
{
    assert(call_parts(UpnpCall::GetTransportInfo).0 == UpnpService::AVTransport && call_parts(UpnpCall::GetTransportInfo).1 == "GetTransportInfo"@);
    assert(call_parts(UpnpCall::GetPositionInfo).0 == UpnpService::AVTransport && call_parts(UpnpCall::GetPositionInfo).1 == "GetPositionInfo"@);
    assert(call_parts(UpnpCall::GetMediaInfo).0 == UpnpService::AVTransport && call_parts(UpnpCall::GetMediaInfo).1 == "GetMediaInfo"@);
    assert(call_parts(UpnpCall::Play).0 == UpnpService::AVTransport && call_parts(UpnpCall::Play).1 == "Play"@);
    assert(call_parts(UpnpCall::Pause).0 == UpnpService::AVTransport && call_parts(UpnpCall::Pause).1 == "Pause"@);
    assert(call_parts(UpnpCall::Stop).0 == UpnpService::AVTransport && call_parts(UpnpCall::Stop).1 == "Stop"@);
    assert(call_parts(UpnpCall::Next).0 == UpnpService::AVTransport && call_parts(UpnpCall::Next).1 == "Next"@);
    assert(call_parts(UpnpCall::Previous).0 == UpnpService::AVTransport && call_parts(UpnpCall::Previous).1 == "Previous"@);
    assert(call_parts(UpnpCall::Seek(target)).0 == UpnpService::AVTransport && call_parts(UpnpCall::Seek(target)).1 == "Seek"@);
    assert(call_parts(UpnpCall::SeekTrack(n)).0 == UpnpService::AVTransport && call_parts(UpnpCall::SeekTrack(n)).1 == "Seek"@);
    assert(call_parts(UpnpCall::GetPlayMode).0 == UpnpService::AVTransport && call_parts(UpnpCall::GetPlayMode).1 == "GetTransportSettings"@);
    assert(call_parts(UpnpCall::SetPlayMode(mode)).0 == UpnpService::AVTransport && call_parts(UpnpCall::SetPlayMode(mode)).1 == "SetPlayMode"@);
    assert(call_parts(UpnpCall::GetCrossfade).0 == UpnpService::AVTransport && call_parts(UpnpCall::GetCrossfade).1 == "GetCrossfadeMode"@);
    assert(call_parts(UpnpCall::SetCrossfade(b)).0 == UpnpService::AVTransport && call_parts(UpnpCall::SetCrossfade(b)).1 == "SetCrossfadeMode"@);
    assert(call_parts(UpnpCall::GetTransportSettings).0 == UpnpService::AVTransport && call_parts(UpnpCall::GetTransportSettings).1 == "GetTransportSettings"@);
    assert(call_parts(UpnpCall::SetAvTransportUri(uri, meta)).0 == UpnpService::AVTransport && call_parts(UpnpCall::SetAvTransportUri(uri, meta)).1 == "SetAVTransportURI"@);
    assert(call_parts(UpnpCall::GetSleepTimer).0 == UpnpService::AVTransport && call_parts(UpnpCall::GetSleepTimer).1 == "GetRemainingSleepTimerDuration"@);
    assert(call_parts(UpnpCall::SetSleepTimer(secs)).0 == UpnpService::AVTransport && call_parts(UpnpCall::SetSleepTimer(secs)).1 == "ConfigureSleepTimer"@);
}

/// Each sound call goes to RenderingControl and names its own action: a treble call asks for
/// treble, a bass call for bass, and so on.
#[verifier::rlimit(60)]
pub proof fn lemma_sound_call_targets(band: String, vol: u8, b: bool, level: i16)
    ensures
        call_parts(UpnpCall::GetVolume).0 == UpnpService::RenderingControl && call_parts(UpnpCall::GetVolume).1 == "GetVolume"@,
        call_parts(UpnpCall::SetVolume(vol)).0 == UpnpService::RenderingControl && call_parts(UpnpCall::SetVolume(vol)).1 == "SetVolume"@,
        call_parts(UpnpCall::GetMute).0 == UpnpService::RenderingControl && call_parts(UpnpCall::GetMute).1 == "GetMute"@,
        call_parts(UpnpCall::SetMute(b)).0 == UpnpService::RenderingControl && call_parts(UpnpCall::SetMute(b)).1 == "SetMute"@,
        call_parts(UpnpCall::GetEq(band)).0 == UpnpService::RenderingControl && call_parts(UpnpCall::GetEq(band)).1 == "GetEQ"@,
        call_parts(UpnpCall::SetEq(band, level)).0 == UpnpService::RenderingControl && call_parts(UpnpCall::SetEq(band, level)).1 == "SetEQ"@,
        call_parts(UpnpCall::GetLoudness).0 == UpnpService::RenderingControl && call_parts(UpnpCall::GetLoudness).1 == "GetLoudness"@,
        call_parts(UpnpCall::SetLoudness(b)).0 == UpnpService::RenderingControl && call_parts(UpnpCall::SetLoudness(b)).1 == "SetLoudness"@,
        call_parts(UpnpCall::GetBass).0 == UpnpService::RenderingControl && call_parts(UpnpCall::GetBass).1 == "GetBass"@,
        call_parts(UpnpCall::SetBass(level)).0 == UpnpService::RenderingControl && call_parts(UpnpCall::SetBass(level)).1 == "SetBass"@,
        call_parts(UpnpCall::GetTreble).0 == UpnpService::RenderingControl && call_parts(UpnpCall::GetTreble).1 == "GetTreble"@,
        call_parts(UpnpCall::SetTreble(level)).0 == UpnpService::RenderingControl && call_parts(UpnpCall::SetTreble(level)).1 == "SetTreble"@,
{
    assert(call_parts(UpnpCall::GetVolume).0 == UpnpService::RenderingControl && call_parts(UpnpCall::GetVolume).1 == "GetVolume"@);
    assert(call_parts(UpnpCall::SetVolume(vol)).0 == UpnpService::RenderingControl && call_parts(UpnpCall::SetVolume(vol)).1 == "SetVolume"@);
    assert(call_parts(UpnpCall::GetMute).0 == UpnpService::RenderingControl && call_parts(UpnpCall::GetMute).1 == "GetMute"@);
    assert(call_parts(UpnpCall::SetMute(b)).0 == UpnpService::RenderingControl && call_parts(UpnpCall::SetMute(b)).1 == "SetMute"@);
    assert(call_parts(UpnpCall::GetEq(band)).0 == UpnpService::RenderingControl && call_parts(UpnpCall::GetEq(band)).1 == "GetEQ"@);
    assert(call_parts(UpnpCall::SetEq(band, level)).0 == UpnpService::RenderingControl && call_parts(UpnpCall::SetEq(band, level)).1 == "SetEQ"@);
    assert(call_parts(UpnpCall::GetLoudness).0 == UpnpService::RenderingControl && call_parts(UpnpCall::GetLoudness).1 == "GetLoudness"@);
    assert(call_parts(UpnpCall::SetLoudness(b)).0 == UpnpService::RenderingControl && call_parts(UpnpCall::SetLoudness(b)).1 == "SetLoudness"@);
    assert(call_parts(UpnpCall::GetBass).0 == UpnpService::RenderingControl && call_parts(UpnpCall::GetBass).1 == "GetBass"@);
    assert(call_parts(UpnpCall::SetBass(level)).0 == UpnpService::RenderingControl && call_parts(UpnpCall::SetBass(level)).1 == "SetBass"@);
    assert(call_parts(UpnpCall::GetTreble).0 == UpnpService::RenderingControl && call_parts(UpnpCall::GetTreble).1 == "GetTreble"@);
    assert(call_parts(UpnpCall::SetTreble(level)).0 == UpnpService::RenderingControl && call_parts(UpnpCall::SetTreble(level)).1 == "SetTreble"@);
}

/// The first node carrying a tag, from `lo` on, is what `first_with_tag` finds.
proof fn lemma_first_with_tag_at(nodes: Seq<XmlNodeView>, lo: int, hi: int, tag: Seq<char>, j: int)
    requires
        lo <= j < hi,
        nodes[j].name == tag,
        forall|k: int| lo <= k < j ==> nodes[k].name != tag,
    ensures
        first_with_tag(nodes, lo, hi, tag) == Some(j),
    decreases j - lo,
{
    if lo < j {
        lemma_first_with_tag_at(nodes, lo + 1, hi, tag, j);
    }
}

/// Where no node carries a tag, `first_with_tag` finds none.
proof fn lemma_first_with_tag_none(nodes: Seq<XmlNodeView>, lo: int, hi: int, tag: Seq<char>)
    requires
        forall|k: int| lo <= k < hi ==> nodes[k].name != tag,
    ensures
        first_with_tag(nodes, lo, hi, tag) is None,
    decreases hi - lo,
{
    if lo < hi {
        lemma_first_with_tag_none(nodes, lo + 1, hi, tag);
    }
}

/// Joining targets the device that the description describes first: where the first `UDN`
/// element in document order holds `uuid:U`, the join call sets the transport URI
/// `x-rincon:U` (every `uuid:` removed) with empty metadata, whatever `UDN` elements of
/// embedded devices follow; a description without `UDN` gives `x-rincon:` alone.
pub proof fn lemma_join_targets_first_udn(xml: Seq<char>, nodes: Seq<XmlNodeView>, j: int, t: Seq<char>)
    requires
        xml_parse(xml) == Ok::<Seq<XmlNodeView>, Seq<char>>(nodes),
    ensures
        0 <= j < nodes.len() && nodes[j].name == "UDN"@ && nodes[j].text == Some(t)
            && (forall|k: int| 0 <= k < j ==> nodes[k].name != "UDN"@)
            ==> join_call(xml) == Ok::<(Seq<char>, Seq<char>), Seq<char>>(("x-rincon:"@ + replaced(t, "uuid:"@, ""@), Seq::empty())),
        (forall|k: int| 0 <= k < nodes.len() ==> nodes[k].name != "UDN"@)
            ==> join_call(xml) == Ok::<(Seq<char>, Seq<char>), Seq<char>>(("x-rincon:"@ + replaced(Seq::empty(), "uuid:"@, ""@), Seq::empty())),
{
    if 0 <= j < nodes.len() && nodes[j].name == "UDN"@ && nodes[j].text == Some(t)
        && (forall|k: int| 0 <= k < j ==> nodes[k].name != "UDN"@) {
        lemma_first_with_tag_at(nodes, 0, nodes.len() as int, "UDN"@, j);
    }
    if forall|k: int| 0 <= k < nodes.len() ==> nodes[k].name != "UDN"@ {
        lemma_first_with_tag_none(nodes, 0, nodes.len() as int, "UDN"@);
    }
}

fn between_exec(xml: &Vec<char>, open: &Vec<char>, close: &Vec<char>) -> (res: Option<Vec<char>>)
    ensures
        match res {
            Some(v) => between(xml@, open@, close@) == Some(v@),
            None => between(xml@, open@, close@) is None,
        },
{
    let n = xml.len();
    match find_from_exec(xml, open, 0) {
        None => None,
        Some(start) => {
            proof {
                lemma_find_from(xml@, open@, 0);
                assert(matches_at(xml@, open@, start as int));
            }
            let cs = start + open.len();
            let rest = slice_chars(xml, cs, n);
            assert(rest@ =~= xml@.skip(cs as int));
            match find_from_exec(&rest, close, 0) {
                None => None,
                Some(end) => {
                    proof {
                        lemma_find_from(rest@, close@, 0);
                        assert(matches_at(rest@, close@, end as int));
                    }
                    Some(slice_chars(xml, cs, cs + end))
                },
            }
        },
    }
}

fn pattern(a: &str, tag: &str, b: &str) -> (res: Vec<char>)
    ensures
        res@ == a@ + tag@ + b@,
{
    let mut out: Vec<char> = Vec::new();
    push_str(&mut out, a);
    push_str(&mut out, tag);
    push_str(&mut out, b);
    assert(out@ =~= a@ + tag@ + b@);
    out
}

/// `s` with `&amp;`, `&lt;`, `&gt;` and `&quot;` replaced, one after the other.
pub fn unescape_amp_first(s: &str) -> (res: String)
    ensures
        res@ == unescape_algq(s@),
{
    proof {
        reveal_strlit("&lt;");
        reveal_strlit("&gt;");
        reveal_strlit("&amp;");
        reveal_strlit("&quot;");
    }
    let a = replace_str(s, "&amp;", "&");
    let b = replace_str(a.as_str(), "&lt;", "<");
    let c = replace_str(b.as_str(), "&gt;", ">");
    replace_str(c.as_str(), "&quot;", "\"")
}

/// The content of the first element `tag` in `xml`, or of the first escaped one with its
/// entities replaced.
pub fn extract(xml: &str, tag: &str) -> (res: Option<String>)
    ensures
        opt_view(res) == extracted(xml@, tag@),
{
    let x = to_chars(xml);
    match between_exec(&x, &pattern("<", tag, ">"), &pattern("</", tag, ">")) {
        Some(v) => Some(from_chars(&v)),
        None => match between_exec(&x, &pattern("&lt;", tag, "&gt;"), &pattern("&lt;/", tag, "&gt;")) {
            Some(raw) => Some(unescape_amp_first(from_chars(&raw).as_str())),
            None => None,
        },
    }
}

/// `extract`, or the empty string.
pub fn extract_or_empty(xml: &str, tag: &str) -> (res: String)
    ensures
        res@ == extracted_or_empty(xml@, tag@),
{
    match extract(xml, tag) {
        Some(v) => v,
        None => String::new(),
    }
}

// ── Services and calls ─────────────────────────────────────────────────

pub const AV_TRANSPORT: &'static str = "urn:schemas-upnp-org:service:AVTransport:1";

pub const RENDERING_CONTROL: &'static str = "urn:schemas-upnp-org:service:RenderingControl:1";

pub const CONTENT_DIRECTORY: &'static str = "urn:schemas-upnp-org:service:ContentDirectory:1";

pub const GROUP_MANAGEMENT: &'static str = "urn:schemas-upnp-org:service:GroupManagement:1";

/// The UPnP services a device controller calls.
#[derive(Clone, Copy, Debug, PartialEq, Eq, Structural)]
pub enum UpnpService {
    AVTransport,
    RenderingControl,
    ContentDirectory,
    GroupManagement,
}

/// The service type of a service.
pub open spec fn service_type(s: UpnpService) -> Seq<char> {
    match s {
        UpnpService::AVTransport => AV_TRANSPORT@,
        UpnpService::RenderingControl => RENDERING_CONTROL@,
        UpnpService::ContentDirectory => CONTENT_DIRECTORY@,
        UpnpService::GroupManagement => GROUP_MANAGEMENT@,
    }
}

/// The control path of a service.
pub open spec fn control_path(s: UpnpService) -> Seq<char> {
    match s {
        UpnpService::AVTransport => "/MediaRenderer/AVTransport/Control"@,
        UpnpService::RenderingControl => "/MediaRenderer/RenderingControl/Control"@,
        UpnpService::ContentDirectory => "/MediaServer/ContentDirectory/Control"@,
        UpnpService::GroupManagement => "/MediaRenderer/GroupManagement/Control"@,
    }
}

fn service_type_exec(s: UpnpService) -> (res: &'static str)
    ensures
        res@ == service_type(s),
{
    match s {
        UpnpService::AVTransport => AV_TRANSPORT,
        UpnpService::RenderingControl => RENDERING_CONTROL,
        UpnpService::ContentDirectory => CONTENT_DIRECTORY,
        UpnpService::GroupManagement => GROUP_MANAGEMENT,
    }
}

fn control_path_exec(s: UpnpService) -> (res: &'static str)
    ensures
        res@ == control_path(s),
{
    match s {
        UpnpService::AVTransport => "/MediaRenderer/AVTransport/Control",
        UpnpService::RenderingControl => "/MediaRenderer/RenderingControl/Control",
        UpnpService::ContentDirectory => "/MediaServer/ContentDirectory/Control",
        UpnpService::GroupManagement => "/MediaRenderer/GroupManagement/Control",
    }
}

/// The service a name stands for.
pub open spec fn service_named(name: Seq<char>) -> Option<UpnpService> {
    if name == "AVTransport"@ {
        Some(UpnpService::AVTransport)
    } else if name == "RenderingControl"@ {
        Some(UpnpService::RenderingControl)
    } else if name == "ContentDirectory"@ {
        Some(UpnpService::ContentDirectory)
    } else if name == "GroupManagement"@ {
        Some(UpnpService::GroupManagement)
    } else {
        None
    }
}

fn str_is(a: &str, b: &str) -> (res: bool)
    ensures
        res == (a@ == b@),
{
    crate::xml::eq_chars(&to_chars(a), &to_chars(b))
}

/// The service a name stands for, or the message `Unknown service: {name}`.
pub fn service_from_name(name: &str) -> (res: Result<UpnpService, String>)
    ensures
        match res {
            Ok(s) => service_named(name@) == Some(s),
            Err(e) => service_named(name@) is None && e@ == "Unknown service: "@ + name@,
        },
{
    if str_is(name, "AVTransport") {
        Ok(UpnpService::AVTransport)
    } else if str_is(name, "RenderingControl") {
        Ok(UpnpService::RenderingControl)
    } else if str_is(name, "ContentDirectory") {
        Ok(UpnpService::ContentDirectory)
    } else if str_is(name, "GroupManagement") {
        Ok(UpnpService::GroupManagement)
    } else {
        let mut out: Vec<char> = Vec::new();
        push_str(&mut out, "Unknown service: ");
        push_str(&mut out, name);
        assert(out@ =~= "Unknown service: "@ + name@);
        Err(from_chars(&out))
    }
}

/// The envelope of a UPnP call.
pub open spec fn upnp_body(service_type: Seq<char>, action: Seq<char>, args: Seq<char>) -> Seq<char> {
    ENVELOPE_HEAD@ + "    <u:"@ + action + " xmlns:u=\""@ + service_type + "\">\n      "@ + args
        + "\n    </u:"@ + action + ">"@ + ENVELOPE_TAIL@
}

fn upnp_body_exec(service_type: &str, action: &str, args: &Vec<char>) -> (res: String)
    ensures
        res@ == upnp_body(service_type@, action@, args@),
{
    let mut out: Vec<char> = Vec::new();
    push_str(&mut out, ENVELOPE_HEAD);
    push_str(&mut out, "    <u:");
    push_str(&mut out, action);
    push_str(&mut out, " xmlns:u=\"");
    push_str(&mut out, service_type);
    push_str(&mut out, "\">\n      ");
    crate::text::push_all(&mut out, args);
    push_str(&mut out, "\n    </u:");
    push_str(&mut out, action);
    push_str(&mut out, ">");
    push_str(&mut out, ENVELOPE_TAIL);
    assert(out@ =~= upnp_body(service_type@, action@, args@));
    from_chars(&out)
}

/// A call to a device's transport or rendering service, with its arguments.
#[derive(Debug, Clone)]
pub enum UpnpCall {
    GetTransportInfo,
    GetPositionInfo,
    GetMediaInfo,
    Play,
    Pause,
    Stop,
    Next,
    Previous,
    /// Seek to a time within the track (`REL_TIME`).
    Seek(String),
    /// Seek to a track of the queue (`TRACK_NR`).
    SeekTrack(u32),
    GetPlayMode,
    /// One of `NORMAL`, `REPEAT_ALL`, `SHUFFLE_NOREPEAT`, `SHUFFLE`.
    SetPlayMode(String),
    GetCrossfade,
    SetCrossfade(bool),
    GetTransportSettings,
    /// A transport URI and its metadata, both escaped on the way.
    SetAvTransportUri(String, String),
    GetSleepTimer,
    /// The duration in seconds.
    SetSleepTimer(u32),
    GetVolume,
    SetVolume(u8),
    GetMute,
    SetMute(bool),
    /// An EQ band such as `DialogLevel` or `NightMode`.
    GetEq(String),
    SetEq(String, i16),
    GetLoudness,
    SetLoudness(bool),
    GetBass,
    SetBass(i16),
    GetTreble,
    SetTreble(i16),
}

/// `1` for true, `0` for false.
pub open spec fn flag(b: bool) -> Seq<char> {
    if b {
        "1"@
    } else {
        "0"@
    }
}

/// `hh:mm:ss` for a number of seconds, each part at least two digits.
pub open spec fn hms(seconds: u32) -> Seq<char> {
    decimal2((seconds / 3600) as nat) + ":"@ + decimal2(((seconds % 3600) / 60) as nat) + ":"@
        + decimal2((seconds % 60) as nat)
}

pub const INSTANCE: &'static str = "<InstanceID>0</InstanceID>";

pub const MASTER: &'static str = "<InstanceID>0</InstanceID><Channel>Master</Channel>";

/// The service, action and arguments of a call.
pub open spec fn call_parts(c: UpnpCall) -> (UpnpService, Seq<char>, Seq<char>) {
    let av = UpnpService::AVTransport;
    let rc = UpnpService::RenderingControl;
    match c {
        UpnpCall::GetTransportInfo => (av, "GetTransportInfo"@, INSTANCE@),
        UpnpCall::GetPositionInfo => (av, "GetPositionInfo"@, INSTANCE@),
        UpnpCall::GetMediaInfo => (av, "GetMediaInfo"@, INSTANCE@),
        UpnpCall::Play => (av, "Play"@, INSTANCE@ + "<Speed>1</Speed>"@),
        UpnpCall::Pause => (av, "Pause"@, INSTANCE@),
        UpnpCall::Stop => (av, "Stop"@, INSTANCE@),
        UpnpCall::Next => (av, "Next"@, INSTANCE@),
        UpnpCall::Previous => (av, "Previous"@, INSTANCE@),
        UpnpCall::Seek(t) => (av, "Seek"@, INSTANCE@ + "<Unit>REL_TIME</Unit><Target>"@ + t@ + "</Target>"@),
        UpnpCall::SeekTrack(n) => (av, "Seek"@, INSTANCE@ + "<Unit>TRACK_NR</Unit><Target>"@ + decimal(n as nat) + "</Target>"@),
        UpnpCall::GetPlayMode => (av, "GetTransportSettings"@, INSTANCE@),
        UpnpCall::SetPlayMode(m) => (av, "SetPlayMode"@, INSTANCE@ + "<NewPlayMode>"@ + m@ + "</NewPlayMode>"@),
        UpnpCall::GetCrossfade => (av, "GetCrossfadeMode"@, INSTANCE@),
        UpnpCall::SetCrossfade(on) => (av, "SetCrossfadeMode"@, INSTANCE@ + "<CrossfadeMode>"@ + flag(on) + "</CrossfadeMode>"@),
        UpnpCall::GetTransportSettings => (av, "GetTransportSettings"@, INSTANCE@),
        UpnpCall::SetAvTransportUri(u, m) => (av, "SetAVTransportURI"@, INSTANCE@ + "<CurrentURI>"@ + html_escaped(u@) + "</CurrentURI><CurrentURIMetaData>"@ + html_escaped(m@) + "</CurrentURIMetaData>"@),
        UpnpCall::GetSleepTimer => (av, "GetRemainingSleepTimerDuration"@, INSTANCE@),
        UpnpCall::SetSleepTimer(secs) => (av, "ConfigureSleepTimer"@, INSTANCE@ + "<NewSleepTimerDuration>"@ + hms(secs) + "</NewSleepTimerDuration>"@),
        UpnpCall::GetVolume => (rc, "GetVolume"@, MASTER@),
        UpnpCall::SetVolume(v) => (rc, "SetVolume"@, MASTER@ + "<DesiredVolume>"@ + decimal(v as nat) + "</DesiredVolume>"@),
        UpnpCall::GetMute => (rc, "GetMute"@, MASTER@),
        UpnpCall::SetMute(b) => (rc, "SetMute"@, MASTER@ + "<DesiredMute>"@ + flag(b) + "</DesiredMute>"@),
        UpnpCall::GetEq(t) => (rc, "GetEQ"@, INSTANCE@ + "<EQType>"@ + t@ + "</EQType>"@),
        UpnpCall::SetEq(t, v) => (rc, "SetEQ"@, INSTANCE@ + "<EQType>"@ + t@ + "</EQType><DesiredValue>"@ + signed_decimal(v as int) + "</DesiredValue>"@),
        UpnpCall::GetLoudness => (rc, "GetLoudness"@, MASTER@),
        UpnpCall::SetLoudness(b) => (rc, "SetLoudness"@, MASTER@ + "<DesiredLoudness>"@ + flag(b) + "</DesiredLoudness>"@),
        UpnpCall::GetBass => (rc, "GetBass"@, MASTER@),
        UpnpCall::SetBass(v) => (rc, "SetBass"@, INSTANCE@ + "<DesiredBass>"@ + signed_decimal(v as int) + "</DesiredBass>"@),
        UpnpCall::GetTreble => (rc, "GetTreble"@, MASTER@),
        UpnpCall::SetTreble(v) => (rc, "SetTreble"@, INSTANCE@ + "<DesiredTreble>"@ + signed_decimal(v as int) + "</DesiredTreble>"@),
    }
}

fn push_flag(out: &mut Vec<char>, b: bool)
    ensures
        final(out)@ == old(out)@ + flag(b),
{
    if b {
        push_str(out, "1");
    } else {
        push_str(out, "0");
    }
}

fn push_tagged(out: &mut Vec<char>, open: &str, value: &str, close: &str)
    ensures
        final(out)@ == old(out)@ + open@ + value@ + close@,
{
    push_str(out, open);
    push_str(out, value);
    push_str(out, close);
    assert(out@ =~= old(out)@ + open@ + value@ + close@);
}

fn call_parts_exec(c: &UpnpCall) -> (res: (UpnpService, &'static str, Vec<char>))
    ensures
        (res.0, res.1@, res.2@) == call_parts(*c),
{
    let av = UpnpService::AVTransport;
    let rc = UpnpService::RenderingControl;
    let mut args: Vec<char> = Vec::new();
    match c {
        UpnpCall::GetTransportInfo => {
            push_str(&mut args, INSTANCE);
            (av, "GetTransportInfo", args)
        },
        UpnpCall::GetPositionInfo => {
            push_str(&mut args, INSTANCE);
            (av, "GetPositionInfo", args)
        },
        UpnpCall::GetMediaInfo => {
            push_str(&mut args, INSTANCE);
            (av, "GetMediaInfo", args)
        },
        UpnpCall::Play => {
            push_str(&mut args, INSTANCE);
            push_str(&mut args, "<Speed>1</Speed>");
            (av, "Play", args)
        },
        UpnpCall::Pause => {
            push_str(&mut args, INSTANCE);
            (av, "Pause", args)
        },
        UpnpCall::Stop => {
            push_str(&mut args, INSTANCE);
            (av, "Stop", args)
        },
        UpnpCall::Next => {
            push_str(&mut args, INSTANCE);
            (av, "Next", args)
        },
        UpnpCall::Previous => {
            push_str(&mut args, INSTANCE);
            (av, "Previous", args)
        },
        UpnpCall::Seek(t) => {
            push_str(&mut args, INSTANCE);
            push_tagged(&mut args, "<Unit>REL_TIME</Unit><Target>", t.as_str(), "</Target>");
            assert(args@ =~= INSTANCE@ + "<Unit>REL_TIME</Unit><Target>"@ + t@ + "</Target>"@);
            (av, "Seek", args)
        },
        UpnpCall::SeekTrack(n) => {
            push_str(&mut args, INSTANCE);
            push_str(&mut args, "<Unit>TRACK_NR</Unit><Target>");
            push_decimal(&mut args, *n as u64);
            push_str(&mut args, "</Target>");
            assert(args@ =~= INSTANCE@ + "<Unit>TRACK_NR</Unit><Target>"@ + decimal(*n as nat) + "</Target>"@);
            (av, "Seek", args)
        },
        UpnpCall::GetPlayMode => {
            push_str(&mut args, INSTANCE);
            (av, "GetTransportSettings", args)
        },
        UpnpCall::SetPlayMode(m) => {
            push_str(&mut args, INSTANCE);
            push_tagged(&mut args, "<NewPlayMode>", m.as_str(), "</NewPlayMode>");
            assert(args@ =~= INSTANCE@ + "<NewPlayMode>"@ + m@ + "</NewPlayMode>"@);
            (av, "SetPlayMode", args)
        },
        UpnpCall::GetCrossfade => {
            push_str(&mut args, INSTANCE);
            (av, "GetCrossfadeMode", args)
        },
        UpnpCall::SetCrossfade(on) => {
            push_str(&mut args, INSTANCE);
            push_str(&mut args, "<CrossfadeMode>");
            push_flag(&mut args, *on);
            push_str(&mut args, "</CrossfadeMode>");
            assert(args@ =~= INSTANCE@ + "<CrossfadeMode>"@ + flag(*on) + "</CrossfadeMode>"@);
            (av, "SetCrossfadeMode", args)
        },
        UpnpCall::GetTransportSettings => {
            push_str(&mut args, INSTANCE);
            (av, "GetTransportSettings", args)
        },
        UpnpCall::SetAvTransportUri(u, m) => {
            push_str(&mut args, INSTANCE);
            push_str(&mut args, "<CurrentURI>");
            push_str(&mut args, html_escape(u.as_str()).as_str());
            push_str(&mut args, "</CurrentURI><CurrentURIMetaData>");
            push_str(&mut args, html_escape(m.as_str()).as_str());
            push_str(&mut args, "</CurrentURIMetaData>");
            assert(args@ =~= INSTANCE@ + "<CurrentURI>"@ + html_escaped(u@) + "</CurrentURI><CurrentURIMetaData>"@ + html_escaped(m@) + "</CurrentURIMetaData>"@);
            (av, "SetAVTransportURI", args)
        },
        UpnpCall::GetSleepTimer => {
            push_str(&mut args, INSTANCE);
            (av, "GetRemainingSleepTimerDuration", args)
        },
        UpnpCall::SetSleepTimer(secs) => {
            let secs = *secs;
            push_str(&mut args, INSTANCE);
            push_str(&mut args, "<NewSleepTimerDuration>");
            push_decimal2(&mut args, (secs / 3600) as u64);
            push_str(&mut args, ":");
            push_decimal2(&mut args, ((secs % 3600) / 60) as u64);
            push_str(&mut args, ":");
            push_decimal2(&mut args, (secs % 60) as u64);
            push_str(&mut args, "</NewSleepTimerDuration>");
            assert(args@ =~= INSTANCE@ + "<NewSleepTimerDuration>"@ + hms(secs) + "</NewSleepTimerDuration>"@);
            (av, "ConfigureSleepTimer", args)
        },
        UpnpCall::GetVolume => {
            push_str(&mut args, MASTER);
            (rc, "GetVolume", args)
        },
        UpnpCall::SetVolume(v) => {
            push_str(&mut args, MASTER);
            push_str(&mut args, "<DesiredVolume>");
            push_decimal(&mut args, *v as u64);
            push_str(&mut args, "</DesiredVolume>");
            assert(args@ =~= MASTER@ + "<DesiredVolume>"@ + decimal(*v as nat) + "</DesiredVolume>"@);
            (rc, "SetVolume", args)
        },
        UpnpCall::GetMute => {
            push_str(&mut args, MASTER);
            (rc, "GetMute", args)
        },
        UpnpCall::SetMute(b) => {
            push_str(&mut args, MASTER);
            push_str(&mut args, "<DesiredMute>");
            push_flag(&mut args, *b);
            push_str(&mut args, "</DesiredMute>");
            assert(args@ =~= MASTER@ + "<DesiredMute>"@ + flag(*b) + "</DesiredMute>"@);
            (rc, "SetMute", args)
        },
        UpnpCall::GetEq(t) => {
            push_str(&mut args, INSTANCE);
            push_tagged(&mut args, "<EQType>", t.as_str(), "</EQType>");
            assert(args@ =~= INSTANCE@ + "<EQType>"@ + t@ + "</EQType>"@);
            (rc, "GetEQ", args)
        },
        UpnpCall::SetEq(t, v) => {
            push_str(&mut args, INSTANCE);
            push_tagged(&mut args, "<EQType>", t.as_str(), "</EQType><DesiredValue>");
            push_signed_decimal(&mut args, *v as i64);
            push_str(&mut args, "</DesiredValue>");
            assert(args@ =~= INSTANCE@ + "<EQType>"@ + t@ + "</EQType><DesiredValue>"@ + signed_decimal(*v as int) + "</DesiredValue>"@);
            (rc, "SetEQ", args)
        },
        UpnpCall::GetLoudness => {
            push_str(&mut args, MASTER);
            (rc, "GetLoudness", args)
        },
        UpnpCall::SetLoudness(b) => {
            push_str(&mut args, MASTER);
            push_str(&mut args, "<DesiredLoudness>");
            push_flag(&mut args, *b);
            push_str(&mut args, "</DesiredLoudness>");
            assert(args@ =~= MASTER@ + "<DesiredLoudness>"@ + flag(*b) + "</DesiredLoudness>"@);
            (rc, "SetLoudness", args)
        },
        UpnpCall::GetBass => {
            push_str(&mut args, MASTER);
            (rc, "GetBass", args)
        },
        UpnpCall::SetBass(v) => {
            push_str(&mut args, INSTANCE);
            push_str(&mut args, "<DesiredBass>");
            push_signed_decimal(&mut args, *v as i64);
            push_str(&mut args, "</DesiredBass>");
            assert(args@ =~= INSTANCE@ + "<DesiredBass>"@ + signed_decimal(*v as int) + "</DesiredBass>"@);
            (rc, "SetBass", args)
        },
        UpnpCall::GetTreble => {
            push_str(&mut args, MASTER);
            (rc, "GetTreble", args)
        },
        UpnpCall::SetTreble(v) => {
            push_str(&mut args, INSTANCE);
            push_str(&mut args, "<DesiredTreble>");
            push_signed_decimal(&mut args, *v as i64);
            push_str(&mut args, "</DesiredTreble>");
            assert(args@ =~= INSTANCE@ + "<DesiredTreble>"@ + signed_decimal(*v as int) + "</DesiredTreble>"@);
            (rc, "SetTreble", args)
        },
    }
}

// ── Controller ─────────────────────────────────────────────────────────

/// The request of a call to a device whose base URL is `base`.
pub open spec fn upnp_request(base: Seq<char>, c: UpnpCall) -> SoapRequestView {
    let (svc, action, args) = call_parts(c);
    SoapRequestView {
        url: base + control_path(svc),
        soap_action: upnp_action(service_type(svc), action),
        content_type: xml_content_type(),
        body: upnp_body(service_type(svc), action, args),
    }
}

/// Builds the SOAP requests for one device.
pub struct UpnpControl {
    base_url: String,
}

impl UpnpControl {
    /// The device's base URL.
    pub closed spec fn base(&self) -> Seq<char> {
        self.base_url@
    }

    /// A controller for the device at `ip` (port 1400).
    pub fn new(ip: &str) -> (res: Self)
        ensures
            res.base() == "http://"@ + ip@ + ":1400"@,
    {
        let mut out: Vec<char> = Vec::new();
        push_str(&mut out, "http://");
        push_str(&mut out, ip);
        push_str(&mut out, ":1400");
        assert(out@ =~= "http://"@ + ip@ + ":1400"@);
        UpnpControl { base_url: from_chars(&out) }
    }

    fn request_parts(&self, svc: UpnpService, action: &str, args: &Vec<char>) -> (res: SoapRequest)
        ensures
            res@ == (SoapRequestView {
                url: self.base() + control_path(svc),
                soap_action: upnp_action(service_type(svc), action@),
                content_type: xml_content_type(),
                body: upnp_body(service_type(svc), action@, args@),
            }),
    {
        let st = service_type_exec(svc);
        let mut url: Vec<char> = to_chars(self.base_url.as_str());
        push_str(&mut url, control_path_exec(svc));
        make_request(from_chars(&url), upnp_action_exec(st, action), upnp_body_exec(st, action, args))
    }

    /// The request of a call.
    pub fn request(&self, call: &UpnpCall) -> (res: SoapRequest)
        ensures
            res@ == upnp_request(self.base(), *call),
    {
        let (svc, action, args) = call_parts_exec(call);
        self.request_parts(svc, action, &args)
    }

    /// The request of an action of a service named by a string, or the message
    /// `Unknown service: {service}`.
    pub fn soap_request(&self, service: &str, action: &str, args: &str) -> (res: Result<SoapRequest, String>)
        ensures
            match res {
                Ok(r) => service_named(service@) matches Some(svc) && r@ == (SoapRequestView {
                    url: self.base() + control_path(svc),
                    soap_action: upnp_action(service_type(svc), action@),
                    content_type: xml_content_type(),
                    body: upnp_body(service_type(svc), action@, args@),
                }),
                Err(e) => service_named(service@) is None && e@ == "Unknown service: "@ + service@,
            },
    {
        let svc = service_from_name(service)?;
        Ok(self.request_parts(svc, action, &to_chars(args)))
    }
}

/// What a device's answer yields: its text, or, where it reports a `UPnPError`, the message
/// `UPnP Error {errorCode}: {errorDescription}`.
pub open spec fn upnp_answer(text: Seq<char>) -> Result<Seq<char>, Seq<char>> {
    if contains(text, "UPnPError"@) {
        Err("UPnP Error "@ + extracted_or_empty(text, "errorCode"@) + ": "@ + extracted_or_empty(text, "errorDescription"@))
    } else {
        Ok(text)
    }
}

/// Checks a device's answer for a UPnP error.
pub fn check_upnp_response(text: String) -> (res: Result<String, String>)
    ensures
        match res {
            Ok(t) => upnp_answer(text@) == Ok::<Seq<char>, Seq<char>>(t@),
            Err(e) => upnp_answer(text@) == Err::<Seq<char>, Seq<char>>(e@),
        },
{
    let tv = to_chars(text.as_str());
    if contains_exec(&tv, &to_chars("UPnPError")) {
        let mut out: Vec<char> = Vec::new();
        push_str(&mut out, "UPnP Error ");
        push_str(&mut out, extract_or_empty(text.as_str(), "errorCode").as_str());
        push_str(&mut out, ": ");
        push_str(&mut out, extract_or_empty(text.as_str(), "errorDescription").as_str());
        assert(out@ =~= "UPnP Error "@ + extracted_or_empty(text@, "errorCode"@) + ": "@ + extracted_or_empty(text@, "errorDescription"@));
        return Err(from_chars(&out));
    }
    Ok(text)
}

/// The control path of a service named by a string, for any service a device offers.
pub open spec fn raw_control_path(service: Seq<char>) -> Seq<char> {
    if service == "AVTransport"@ {
        "/MediaRenderer/AVTransport/Control"@
    } else if service == "RenderingControl"@ {
        "/MediaRenderer/RenderingControl/Control"@
    } else if service == "ContentDirectory"@ {
        "/MediaServer/ContentDirectory/Control"@
    } else if service == "GroupManagement"@ {
        "/MediaRenderer/GroupManagement/Control"@
    } else if service == "MusicServices"@ {
        "/MusicServices/Control"@
    } else if service == "DeviceProperties"@ {
        "/DeviceProperties/Control"@
    } else if service == "ZoneGroupTopology"@ {
        "/ZoneGroupTopology/Control"@
    } else if service == "AlarmClock"@ {
        "/AlarmClock/Control"@
    } else if service == "SystemProperties"@ {
        "/SystemProperties/Control"@
    } else {
        "/Unknown/Control"@
    }
}

fn raw_control_path_exec(service: &str) -> (res: &'static str)
    ensures
        res@ == raw_control_path(service@),
{
    if str_is(service, "AVTransport") {
        "/MediaRenderer/AVTransport/Control"
    } else if str_is(service, "RenderingControl") {
        "/MediaRenderer/RenderingControl/Control"
    } else if str_is(service, "ContentDirectory") {
        "/MediaServer/ContentDirectory/Control"
    } else if str_is(service, "GroupManagement") {
        "/MediaRenderer/GroupManagement/Control"
    } else if str_is(service, "MusicServices") {
        "/MusicServices/Control"
    } else if str_is(service, "DeviceProperties") {
        "/DeviceProperties/Control"
    } else if str_is(service, "ZoneGroupTopology") {
        "/ZoneGroupTopology/Control"
    } else if str_is(service, "AlarmClock") {
        "/AlarmClock/Control"
    } else if str_is(service, "SystemProperties") {
        "/SystemProperties/Control"
    } else {
        "/Unknown/Control"
    }
}

/// The request of any action of any service of the device at `ip`.
pub open spec fn raw_request(ip: Seq<char>, service: Seq<char>, service_type: Seq<char>, action: Seq<char>, args: Seq<char>) -> SoapRequestView {
    SoapRequestView {
        url: device_url(ip, raw_control_path(service)),
        soap_action: upnp_action(service_type, action),
        content_type: xml_content_type(),
        body: upnp_body(service_type, action, args),
    }
}

/// Builds the request of any action of any service of the device at `ip`.
pub fn soap_raw_request(ip: &str, service: &str, service_type: &str, action: &str, args: &str) -> (res: SoapRequest)
    ensures
        res@ == raw_request(ip@, service@, service_type@, action@, args@),
{
    make_request(
        device_url_exec(ip, raw_control_path_exec(service)),
        upnp_action_exec(service_type, action),
        upnp_body_exec(service_type, action, &to_chars(args)),
    )
}

// ── Group management ───────────────────────────────────────────────────

/// Where a device describes itself.
pub open spec fn description_url(ip: Seq<char>) -> Seq<char> {
    device_url(ip, "/xml/device_description.xml"@)
}

/// Where the device at `ip` describes itself.
pub fn description_url_exec(ip: &str) -> (res: String)
    ensures
        res@ == description_url(ip@),
{
    device_url_exec(ip, "/xml/device_description.xml")
}

/// The call that makes a device join the group of the coordinator that the description
/// document describes: its transport URI becomes `x-rincon:` and the coordinator's `UDN`
/// (the text of the first `UDN` element, or nothing) without `uuid:`.
pub open spec fn join_call(xml: Seq<char>) -> Result<(Seq<char>, Seq<char>), Seq<char>> {
    match xml_parse(xml) {
        Err(e) => Err(e),
        Ok(nodes) => {
            let uid = match first_with_tag(nodes, 0, nodes.len() as int, "UDN"@) {
                Some(j) => match nodes[j].text {
                    Some(t) => t,
                    None => Seq::empty(),
                },
                None => Seq::empty(),
            };
            Ok(("x-rincon:"@ + replaced(uid, "uuid:"@, ""@), Seq::empty()))
        },
    }
}

/// The call that makes a device join the coordinator described by `description_xml`.
pub fn join_group_call(description_xml: &str) -> (res: Result<UpnpCall, String>)
    ensures
        match res {
            Ok(UpnpCall::SetAvTransportUri(u, m)) => join_call(description_xml@) == Ok::<(Seq<char>, Seq<char>), Seq<char>>((u@, m@)),
            Ok(_) => false,
            Err(e) => join_call(description_xml@) == Err::<(Seq<char>, Seq<char>), Seq<char>>(e@),
        },
{
    let nodes = parse_xml(description_xml)?;
    let ghost nv = nodes_view(nodes@);
    let n = nodes.len();
    let uid: Vec<char> = match first_with_tag_exec(&nodes, 0, n, &to_chars("UDN")) {
        Some(j) => {
            proof {
                lemma_first_with_tag_range(nv, 0, n as int, "UDN"@);
            }
            match &nodes[j].text {
                Some(t) => t.clone(),
                None => Vec::new(),
            }
        },
        None => Vec::new(),
    };
    proof {
        reveal_strlit("uuid:");
        reveal_strlit("");
    }
    let mut target: Vec<char> = Vec::new();
    push_str(&mut target, "x-rincon:");
    push_str(&mut target, replace_str(from_chars(&uid).as_str(), "uuid:", "").as_str());
    let empty = String::new();
    assert(empty@ =~= Seq::<char>::empty());
    Ok(UpnpCall::SetAvTransportUri(from_chars(&target), empty))
}

/// The call that makes a device leave its group: an empty transport URI.
pub fn leave_group_call() -> (res: UpnpCall)
    ensures
        res matches UpnpCall::SetAvTransportUri(u, m) && u@ == Seq::<char>::empty() && m@ == Seq::<char>::empty(),
{
    UpnpCall::SetAvTransportUri(String::new(), String::new())
}

// ── Answers ────────────────────────────────────────────────────────────

#[derive(Debug, Clone)]
pub struct TransportInfo {
    pub state: String,
    pub status: String,
    pub speed: String,
}

#[derive(Debug, Clone)]
pub struct PositionInfo {
    pub track: u32,
    pub track_duration: String,
    pub track_uri: String,
    pub track_metadata: String,
    pub rel_time: String,
    pub abs_time: String,
    pub rel_count: i32,
    pub abs_count: i32,
}

#[derive(Debug, Clone)]
pub struct MediaInfo {
    pub nr_tracks: u32,
    pub media_duration: String,
    pub current_uri: String,
    pub current_uri_metadata: String,
    pub next_uri: String,
    pub next_uri_metadata: String,
}

#[derive(Debug, Clone)]
pub struct PlayMode {
    pub play_mode: String,
}

#[derive(Debug, Clone)]
pub struct CrossfadeMode {
    pub crossfade: bool,
}

#[derive(Debug, Clone)]
pub struct EqData {
    pub eq_type: String,
    pub value: i16,
}

#[derive(Debug, Clone)]
pub struct SleepTimer {
    pub remaining_time: String,
}

#[derive(Debug, Clone)]
pub struct TransportSettings {
    pub play_mode: String,
    pub repeat: bool,
    pub shuffle: bool,
    pub crossfade: bool,
}

/// The integer that `s` denotes in `[min, max]`, or `default` where it denotes none.
pub open spec fn int_or(s: Seq<char>, min: int, max: int, default: int) -> int {
    match parse_int(s, min, max) {
        Ok(v) => v,
        Err(_) => default,
    }
}

/// The integer that `s` denotes in `[min, max]`, or the message of the parse error.
pub open spec fn int_or_message(s: Seq<char>, min: int, max: int) -> Result<int, Seq<char>> {
    match parse_int(s, min, max) {
        Ok(v) => Ok(v),
        Err(k) => Err(int_error_message(k)),
    }
}

/// Reads a `GetTransportInfo` answer.
pub fn parse_transport_info(xml: &str) -> (res: TransportInfo)
    ensures
        res.state@ == extracted_or_empty(xml@, "CurrentTransportState"@),
        res.status@ == extracted_or_empty(xml@, "CurrentTransportStatus"@),
        res.speed@ == extracted_or_empty(xml@, "CurrentSpeed"@),
{
    TransportInfo {
        state: extract_or_empty(xml, "CurrentTransportState"),
        status: extract_or_empty(xml, "CurrentTransportStatus"),
        speed: extract_or_empty(xml, "CurrentSpeed"),
    }
}

fn u32_or_zero(s: &str) -> (res: u32)
    ensures
        res as int == int_or(s@, 0, 0xffff_ffff, 0),
{
    match parse_u32(s) {
        Ok(v) => v,
        Err(_) => 0,
    }
}

fn i32_or_minus_one(s: &str) -> (res: i32)
    ensures
        res as int == int_or(s@, -0x8000_0000, 0x7fff_ffff, -1),
{
    match parse_i32(s) {
        Ok(v) => v,
        Err(_) => -1,
    }
}

/// Reads a `GetPositionInfo` answer; a track number that is not a `u32` reads as 0, a count
/// that is not an `i32` as -1.
pub fn parse_position_info(xml: &str) -> (res: PositionInfo)
    ensures
        res.track as int == int_or(extracted_or_empty(xml@, "Track"@), 0, 0xffff_ffff, 0),
        res.track_duration@ == extracted_or_empty(xml@, "TrackDuration"@),
        res.track_uri@ == extracted_or_empty(xml@, "TrackURI"@),
        res.track_metadata@ == extracted_or_empty(xml@, "TrackMetaData"@),
        res.rel_time@ == extracted_or_empty(xml@, "RelTime"@),
        res.abs_time@ == extracted_or_empty(xml@, "AbsTime"@),
        res.rel_count as int == int_or(extracted_or_empty(xml@, "RelCount"@), -0x8000_0000, 0x7fff_ffff, -1),
        res.abs_count as int == int_or(extracted_or_empty(xml@, "AbsCount"@), -0x8000_0000, 0x7fff_ffff, -1),
{
    PositionInfo {
        track: u32_or_zero(extract_or_empty(xml, "Track").as_str()),
        track_duration: extract_or_empty(xml, "TrackDuration"),
        track_uri: extract_or_empty(xml, "TrackURI"),
        track_metadata: extract_or_empty(xml, "TrackMetaData"),
        rel_time: extract_or_empty(xml, "RelTime"),
        abs_time: extract_or_empty(xml, "AbsTime"),
        rel_count: i32_or_minus_one(extract_or_empty(xml, "RelCount").as_str()),
        abs_count: i32_or_minus_one(extract_or_empty(xml, "AbsCount").as_str()),
    }
}

/// Reads a `GetMediaInfo` answer; a track count that is not a `u32` reads as 0.
pub fn parse_media_info(xml: &str) -> (res: MediaInfo)
    ensures
        res.nr_tracks as int == int_or(extracted_or_empty(xml@, "NrTracks"@), 0, 0xffff_ffff, 0),
        res.media_duration@ == extracted_or_empty(xml@, "MediaDuration"@),
        res.current_uri@ == extracted_or_empty(xml@, "CurrentURI"@),
        res.current_uri_metadata@ == extracted_or_empty(xml@, "CurrentURIMetaData"@),
        res.next_uri@ == extracted_or_empty(xml@, "NextURI"@),
        res.next_uri_metadata@ == extracted_or_empty(xml@, "NextURIMetaData"@),
{
    MediaInfo {
        nr_tracks: u32_or_zero(extract_or_empty(xml, "NrTracks").as_str()),
        media_duration: extract_or_empty(xml, "MediaDuration"),
        current_uri: extract_or_empty(xml, "CurrentURI"),
        current_uri_metadata: extract_or_empty(xml, "CurrentURIMetaData"),
        next_uri: extract_or_empty(xml, "NextURI"),
        next_uri_metadata: extract_or_empty(xml, "NextURIMetaData"),
    }
}

/// Reads the play mode out of a `GetTransportSettings` answer.
pub fn parse_play_mode(xml: &str) -> (res: PlayMode)
    ensures
        res.play_mode@ == extracted_or_empty(xml@, "PlayMode"@),
{
    PlayMode { play_mode: extract_or_empty(xml, "PlayMode") }
}

/// Reads a `GetCrossfadeMode` answer: on where the mode is `1`.
pub fn parse_crossfade(xml: &str) -> (res: CrossfadeMode)
    ensures
        res.crossfade == (extracted_or_empty(xml@, "CrossfadeMode"@) == "1"@),
{
    let m = extract_or_empty(xml, "CrossfadeMode");
    CrossfadeMode { crossfade: str_is(m.as_str(), "1") }
}

/// Whether a play mode repeats the queue: it names `REPEAT` (`REPEAT_ALL`, `REPEAT_ONE`,
/// `SHUFFLE_REPEAT_ONE`) and is not `SHUFFLE_NOREPEAT`; also `SHUFFLE`, which is shuffle with
/// repeat.
pub open spec fn mode_repeats(mode: Seq<char>) -> bool {
    (contains(mode, "REPEAT"@) && mode != "SHUFFLE_NOREPEAT"@) || mode == "SHUFFLE"@
}

/// Whether a play mode shuffles the queue: it names `SHUFFLE`.
pub open spec fn mode_shuffles(mode: Seq<char>) -> bool {
    contains(mode, "SHUFFLE"@)
}

/// Reads a `GetTransportSettings` answer: the play mode, whether it repeats and whether it
/// shuffles; crossfade is not part of the answer and reads as off.
pub fn parse_transport_settings(xml: &str) -> (res: TransportSettings)
    ensures
        res.play_mode@ == extracted_or_empty(xml@, "PlayMode"@),
        res.repeat == mode_repeats(extracted_or_empty(xml@, "PlayMode"@)),
        res.shuffle == mode_shuffles(extracted_or_empty(xml@, "PlayMode"@)),
        !res.crossfade,
{
    let mode = extract_or_empty(xml, "PlayMode");
    let m = mode.as_str();
    let mv = to_chars(m);
    TransportSettings {
        repeat: (contains_exec(&mv, &to_chars("REPEAT")) && !str_is(m, "SHUFFLE_NOREPEAT")) || str_is(m, "SHUFFLE"),
        shuffle: contains_exec(&mv, &to_chars("SHUFFLE")),
        crossfade: false,
        play_mode: mode,
    }
}

/// Reads a `GetRemainingSleepTimerDuration` answer.
pub fn parse_sleep_timer(xml: &str) -> (res: SleepTimer)
    ensures
        res.remaining_time@ == extracted_or_empty(xml@, "RemainingSleepTimerDuration"@),
{
    SleepTimer { remaining_time: extract_or_empty(xml, "RemainingSleepTimerDuration") }
}

fn u8_or_message(s: &str) -> (res: Result<u8, String>)
    ensures
        match res {
            Ok(v) => int_or_message(s@, 0, 255) == Ok::<int, Seq<char>>(v as int),
            Err(e) => int_or_message(s@, 0, 255) == Err::<int, Seq<char>>(e@),
        },
{
    match parse_u8(s) {
        Ok(v) => Ok(v),
        Err(k) => Err(int_error_string(k)),
    }
}

fn i16_or_message(s: &str) -> (res: Result<i16, String>)
    ensures
        match res {
            Ok(v) => int_or_message(s@, -32768, 32767) == Ok::<int, Seq<char>>(v as int),
            Err(e) => int_or_message(s@, -32768, 32767) == Err::<int, Seq<char>>(e@),
        },
{
    match parse_i16(s) {
        Ok(v) => Ok(v),
        Err(k) => Err(int_error_string(k)),
    }
}

/// Reads a `GetVolume` answer: the volume, or the message of why it is not a `u8`.
pub fn parse_volume(xml: &str) -> (res: Result<u8, String>)
    ensures
        match res {
            Ok(v) => int_or_message(extracted_or_empty(xml@, "CurrentVolume"@), 0, 255) == Ok::<int, Seq<char>>(v as int),
            Err(e) => int_or_message(extracted_or_empty(xml@, "CurrentVolume"@), 0, 255) == Err::<int, Seq<char>>(e@),
        },
{
    u8_or_message(extract_or_empty(xml, "CurrentVolume").as_str())
}

/// A `u8` flag: on where it is 1.
pub open spec fn flag_or_message(s: Seq<char>) -> Result<bool, Seq<char>> {
    match int_or_message(s, 0, 255) {
        Ok(v) => Ok(v == 1),
        Err(e) => Err(e),
    }
}

fn flag_of(s: &str) -> (res: Result<bool, String>)
    ensures
        match res {
            Ok(b) => flag_or_message(s@) == Ok::<bool, Seq<char>>(b),
            Err(e) => flag_or_message(s@) == Err::<bool, Seq<char>>(e@),
        },
{
    match u8_or_message(s) {
        Ok(v) => Ok(v == 1),
        Err(e) => Err(e),
    }
}

/// Reads a `GetMute` answer: muted where the value is the `u8` 1.
pub fn parse_mute(xml: &str) -> (res: Result<bool, String>)
    ensures
        match res {
            Ok(b) => flag_or_message(extracted_or_empty(xml@, "CurrentMute"@)) == Ok::<bool, Seq<char>>(b),
            Err(e) => flag_or_message(extracted_or_empty(xml@, "CurrentMute"@)) == Err::<bool, Seq<char>>(e@),
        },
{
    flag_of(extract_or_empty(xml, "CurrentMute").as_str())
}

/// Reads a `GetLoudness` answer: on where the value is the `u8` 1.
pub fn parse_loudness(xml: &str) -> (res: Result<bool, String>)
    ensures
        match res {
            Ok(b) => flag_or_message(extracted_or_empty(xml@, "CurrentLoudness"@)) == Ok::<bool, Seq<char>>(b),
            Err(e) => flag_or_message(extracted_or_empty(xml@, "CurrentLoudness"@)) == Err::<bool, Seq<char>>(e@),
        },
{
    flag_of(extract_or_empty(xml, "CurrentLoudness").as_str())
}

/// Reads a `GetEQ` answer for band `eq_type`; a value that is not an `i16` reads as 0.
pub fn parse_eq(xml: &str, eq_type: &str) -> (res: EqData)
    ensures
        res.eq_type@ == eq_type@,
        res.value as int == int_or(extracted_or_empty(xml@, "CurrentValue"@), -32768, 32767, 0),
{
    let v = match parse_i16(extract_or_empty(xml, "CurrentValue").as_str()) {
        Ok(v) => v,
        Err(_) => 0,
    };
    EqData { eq_type: eq_type.to_string(), value: v }
}

/// Reads a `GetBass` answer: the level, or the message of why it is not an `i16`.
pub fn parse_bass(xml: &str) -> (res: Result<i16, String>)
    ensures
        match res {
            Ok(v) => int_or_message(extracted_or_empty(xml@, "CurrentBass"@), -32768, 32767) == Ok::<int, Seq<char>>(v as int),
            Err(e) => int_or_message(extracted_or_empty(xml@, "CurrentBass"@), -32768, 32767) == Err::<int, Seq<char>>(e@),
        },
{
    i16_or_message(extract_or_empty(xml, "CurrentBass").as_str())
}

/// Reads a `GetTreble` answer: the level, or the message of why it is not an `i16`.
pub fn parse_treble(xml: &str) -> (res: Result<i16, String>)
    ensures
        match res {
            Ok(v) => int_or_message(extracted_or_empty(xml@, "CurrentTreble"@), -32768, 32767) == Ok::<int, Seq<char>>(v as int),
            Err(e) => int_or_message(extracted_or_empty(xml@, "CurrentTreble"@), -32768, 32767) == Err::<int, Seq<char>>(e@),
        },
{
    i16_or_message(extract_or_empty(xml, "CurrentTreble").as_str())
}

} // verus!
