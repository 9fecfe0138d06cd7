use sonos_controller::text::html_escape;
use sonos_controller::upnp::{
    check_upnp_response, description_url_exec, extract, extract_or_empty, join_group_call,
    leave_group_call, parse_bass, parse_crossfade, parse_eq, parse_loudness, parse_media_info,
    parse_mute, parse_play_mode, parse_position_info, parse_sleep_timer, parse_transport_info,
    parse_transport_settings, parse_treble, parse_volume, service_from_name, soap_raw_request,
    UpnpCall, UpnpControl, UpnpService,
};

const HEAD: &str = "<?xml version=\"1.0\" encoding=\"utf-8\"?>\n<s:Envelope xmlns:s=\"http://schemas.xmlsoap.org/soap/envelope/\" s:encodingStyle=\"http://schemas.xmlsoap.org/soap/encoding/\">\n  <s:Body>\n";
const TAIL: &str = "\n  </s:Body>\n</s:Envelope>";

#[test]
fn extract_reads_plain_element() {
    assert_eq!(extract("<a><Track>3</Track></a>", "Track"), Some("3".to_string()));
}

#[test]
fn extract_reads_escaped_element() {
    let xml = "<r>&lt;dc:title&gt;Tom &amp;amp; Jerry &amp;quot;live&amp;quot;&lt;/dc:title&gt;</r>";
    assert_eq!(extract(xml, "dc:title"), Some("Tom &amp; Jerry \"live\"".to_string()));
}

#[test]
fn extract_escaped_replaces_amp_first() {
    // `&amp;lt;` becomes `&lt;` and then `<`, in that order.
    assert_eq!(extract("&lt;x&gt;a&amp;lt;b&lt;/x&gt;", "x"), Some("a<b".to_string()));
}

#[test]
fn extract_prefers_plain_element() {
    assert_eq!(extract("&lt;v&gt;1&lt;/v&gt;<v>2</v>", "v"), Some("2".to_string()));
}

#[test]
fn extract_missing_or_unclosed() {
    assert_eq!(extract("<a>1</a>", "b"), None);
    assert_eq!(extract("<b>1", "b"), None);
    assert_eq!(extract_or_empty("<a>1</a>", "b"), "");
}

#[test]
fn extract_first_occurrence() {
    assert_eq!(extract("<t>x</t><t>y</t>", "t"), Some("x".to_string()));
    assert_eq!(extract("<t></t>", "t"), Some(String::new()));
}

#[test]
fn volume_reads_back_what_was_set() {
    let c = UpnpControl::new("10.0.0.5");
    let req = c.request(&UpnpCall::SetVolume(42));
    assert!(req.body.contains("<DesiredVolume>42</DesiredVolume>"));
    assert_eq!(parse_volume("<CurrentVolume>42</CurrentVolume>"), Ok(42));
}

#[test]
fn volume_errors() {
    assert_eq!(parse_volume("<CurrentVolume>300</CurrentVolume>"), Err("number too large to fit in target type".to_string()));
    assert_eq!(parse_volume("<x/>"), Err("cannot parse integer from empty string".to_string()));
    assert_eq!(parse_volume("<CurrentVolume>4a</CurrentVolume>"), Err("invalid digit found in string".to_string()));
    assert_eq!(parse_volume("<CurrentVolume>-1</CurrentVolume>"), Err("invalid digit found in string".to_string()));
    assert_eq!(parse_volume("<CurrentVolume>+7</CurrentVolume>"), Ok(7));
    assert_eq!(parse_volume("<CurrentVolume>+</CurrentVolume>"), Err("invalid digit found in string".to_string()));
}

#[test]
fn bass_and_treble_read_back_what_was_set() {
    let c = UpnpControl::new("h");
    let req = c.request(&UpnpCall::SetBass(-7));
    assert!(req.body.contains("<InstanceID>0</InstanceID><DesiredBass>-7</DesiredBass>"));
    assert_eq!(parse_bass("<CurrentBass>-7</CurrentBass>"), Ok(-7));
    assert_eq!(parse_treble("<CurrentTreble>10</CurrentTreble>"), Ok(10));
    assert_eq!(parse_bass("<CurrentBass>-40000</CurrentBass>"), Err("number too small to fit in target type".to_string()));
    assert_eq!(parse_treble("<CurrentTreble>-</CurrentTreble>"), Err("invalid digit found in string".to_string()));
}

#[test]
fn mute_and_loudness_read_back_what_was_set() {
    let c = UpnpControl::new("h");
    assert!(c.request(&UpnpCall::SetMute(true)).body.contains("<DesiredMute>1</DesiredMute>"));
    assert!(c.request(&UpnpCall::SetLoudness(false)).body.contains("<DesiredLoudness>0</DesiredLoudness>"));
    assert_eq!(parse_mute("<CurrentMute>1</CurrentMute>"), Ok(true));
    assert_eq!(parse_mute("<CurrentMute>0</CurrentMute>"), Ok(false));
    assert_eq!(parse_mute("<CurrentMute>2</CurrentMute>"), Ok(false));
    assert_eq!(parse_loudness("<CurrentLoudness>1</CurrentLoudness>"), Ok(true));
    assert_eq!(parse_loudness(""), Err("cannot parse integer from empty string".to_string()));
}

#[test]
fn request_for_a_call() {
    let c = UpnpControl::new("192.168.1.20");
    let req = c.request(&UpnpCall::GetVolume);
    assert_eq!(req.url, "http://192.168.1.20:1400/MediaRenderer/RenderingControl/Control");
    assert_eq!(req.soap_action, "\"urn:schemas-upnp-org:service:RenderingControl:1#GetVolume\"");
    assert_eq!(req.content_type, "text/xml; charset=utf-8");
    let expected = format!(
        "{HEAD}    <u:GetVolume xmlns:u=\"urn:schemas-upnp-org:service:RenderingControl:1\">\n      <InstanceID>0</InstanceID><Channel>Master</Channel>\n    </u:GetVolume>{TAIL}"
    );
    assert_eq!(req.body, expected);
}

#[test]
fn transport_requests() {
    let c = UpnpControl::new("h");
    let play = c.request(&UpnpCall::Play);
    assert_eq!(play.url, "http://h:1400/MediaRenderer/AVTransport/Control");
    assert_eq!(play.soap_action, "\"urn:schemas-upnp-org:service:AVTransport:1#Play\"");
    assert!(play.body.contains("<InstanceID>0</InstanceID><Speed>1</Speed>"));
    let seek = c.request(&UpnpCall::Seek("0:01:30".to_string()));
    assert!(seek.body.contains("<Unit>REL_TIME</Unit><Target>0:01:30</Target>"));
    let track = c.request(&UpnpCall::SeekTrack(12));
    assert!(track.body.contains("<Unit>TRACK_NR</Unit><Target>12</Target>"));
    assert!(track.body.contains("<u:Seek "));
    let mode = c.request(&UpnpCall::GetPlayMode);
    assert!(mode.soap_action.ends_with("#GetTransportSettings\""));
    let set_mode = c.request(&UpnpCall::SetPlayMode("SHUFFLE".to_string()));
    assert!(set_mode.body.contains("<NewPlayMode>SHUFFLE</NewPlayMode>"));
    let xf = c.request(&UpnpCall::SetCrossfade(true));
    assert!(xf.body.contains("<CrossfadeMode>1</CrossfadeMode>"));
    assert!(xf.soap_action.ends_with("#SetCrossfadeMode\""));
}

#[test]
fn sleep_timer_formats_hours_minutes_seconds() {
    let c = UpnpControl::new("h");
    let req = c.request(&UpnpCall::SetSleepTimer(3725));
    assert!(req.body.contains("<NewSleepTimerDuration>01:02:05</NewSleepTimerDuration>"));
    let zero = c.request(&UpnpCall::SetSleepTimer(0));
    assert!(zero.body.contains("<NewSleepTimerDuration>00:00:00</NewSleepTimerDuration>"));
    let long = c.request(&UpnpCall::SetSleepTimer(360000));
    assert!(long.body.contains("<NewSleepTimerDuration>100:00:00</NewSleepTimerDuration>"));
    assert!(req.soap_action.ends_with("#ConfigureSleepTimer\""));
}

#[test]
fn set_uri_escapes_uri_and_metadata() {
    let c = UpnpControl::new("h");
    let req = c.request(&UpnpCall::SetAvTransportUri("a&b".to_string(), "<x y=\"1\">'</x>".to_string()));
    assert!(req.body.contains("<CurrentURI>a&amp;b</CurrentURI><CurrentURIMetaData>&lt;x y=&quot;1&quot;&gt;&apos;&lt;/x&gt;</CurrentURIMetaData>"));
}

#[test]
fn eq_requests_and_answers() {
    let c = UpnpControl::new("h");
    let get = c.request(&UpnpCall::GetEq("NightMode".to_string()));
    assert!(get.body.contains("<InstanceID>0</InstanceID><EQType>NightMode</EQType>"));
    let set = c.request(&UpnpCall::SetEq("DialogLevel".to_string(), 1));
    assert!(set.body.contains("<EQType>DialogLevel</EQType><DesiredValue>1</DesiredValue>"));
    let eq = parse_eq("<CurrentValue>-3</CurrentValue>", "SubGain");
    assert_eq!(eq.eq_type, "SubGain");
    assert_eq!(eq.value, -3);
    assert_eq!(parse_eq("<CurrentValue>x</CurrentValue>", "SubGain").value, 0);
}

#[test]
fn soap_request_by_service_name() {
    let c = UpnpControl::new("h");
    let r = c.soap_request("GroupManagement", "AddMember", "<MemberID>x</MemberID>").unwrap();
    assert_eq!(r.url, "http://h:1400/MediaRenderer/GroupManagement/Control");
    assert_eq!(r.soap_action, "\"urn:schemas-upnp-org:service:GroupManagement:1#AddMember\"");
    assert!(r.body.contains("<MemberID>x</MemberID>"));
    let e = c.soap_request("Bogus", "X", "").unwrap_err();
    assert_eq!(e, "Unknown service: Bogus");
    assert_eq!(service_from_name("ContentDirectory"), Ok(UpnpService::ContentDirectory));
    assert_eq!(service_from_name("MusicServices"), Err("Unknown service: MusicServices".to_string()));
}

#[test]
fn upnp_error_answer() {
    let text = "<s:Fault><detail><UPnPError><errorCode>701</errorCode><errorDescription>Transition not available</errorDescription></UPnPError></detail></s:Fault>".to_string();
    assert_eq!(check_upnp_response(text), Err("UPnP Error 701: Transition not available".to_string()));
    assert_eq!(check_upnp_response("<UPnPError/>".to_string()), Err("UPnP Error : ".to_string()));
    assert_eq!(check_upnp_response("<ok/>".to_string()), Ok("<ok/>".to_string()));
}

#[test]
fn raw_request_paths() {
    let r = soap_raw_request("1.2.3.4", "MusicServices", "urn:schemas-upnp-org:service:MusicServices:1", "ListAvailableServices", "<x/>");
    assert_eq!(r.url, "http://1.2.3.4:1400/MusicServices/Control");
    assert_eq!(r.soap_action, "\"urn:schemas-upnp-org:service:MusicServices:1#ListAvailableServices\"");
    let u = soap_raw_request("1.2.3.4", "Nope", "t", "A", "");
    assert_eq!(u.url, "http://1.2.3.4:1400/Unknown/Control");
    let z = soap_raw_request("h", "ZoneGroupTopology", "t", "A", "");
    assert_eq!(z.url, "http://h:1400/ZoneGroupTopology/Control");
    let a = soap_raw_request("h", "AlarmClock", "t", "A", "");
    assert_eq!(a.url, "http://h:1400/AlarmClock/Control");
    let s = soap_raw_request("h", "SystemProperties", "t", "A", "");
    assert_eq!(s.url, "http://h:1400/SystemProperties/Control");
}

#[test]
fn transport_info_answer() {
    let xml = "<CurrentTransportState>PLAYING</CurrentTransportState><CurrentTransportStatus>OK</CurrentTransportStatus><CurrentSpeed>1</CurrentSpeed>";
    let t = parse_transport_info(xml);
    assert_eq!(t.state, "PLAYING");
    assert_eq!(t.status, "OK");
    assert_eq!(t.speed, "1");
    let empty = parse_transport_info("");
    assert_eq!(empty.state, "");
}

#[test]
fn position_info_answer_and_defaults() {
    let xml = "<Track>4</Track><TrackDuration>0:03:20</TrackDuration><TrackURI>x-file</TrackURI><TrackMetaData>&lt;DIDL-Lite&gt;</TrackMetaData><RelTime>0:00:10</RelTime><AbsTime>NOT_IMPLEMENTED</AbsTime><RelCount>2147483647</RelCount><AbsCount>x</AbsCount>";
    let p = parse_position_info(xml);
    assert_eq!(p.track, 4);
    assert_eq!(p.track_duration, "0:03:20");
    assert_eq!(p.track_uri, "x-file");
    assert_eq!(p.track_metadata, "&lt;DIDL-Lite&gt;");
    assert_eq!(p.rel_time, "0:00:10");
    assert_eq!(p.abs_time, "NOT_IMPLEMENTED");
    assert_eq!(p.rel_count, 2147483647);
    assert_eq!(p.abs_count, -1);
    let d = parse_position_info("");
    assert_eq!(d.track, 0);
    assert_eq!(d.rel_count, -1);
}

#[test]
fn media_info_answer() {
    let xml = "<NrTracks>12</NrTracks><MediaDuration>NOT_IMPLEMENTED</MediaDuration><CurrentURI>x-rincon-queue:RINCON_1#0</CurrentURI><CurrentURIMetaData></CurrentURIMetaData><NextURI></NextURI><NextURIMetaData></NextURIMetaData>";
    let m = parse_media_info(xml);
    assert_eq!(m.nr_tracks, 12);
    assert_eq!(m.current_uri, "x-rincon-queue:RINCON_1#0");
    assert_eq!(m.next_uri, "");
    assert_eq!(parse_media_info("<NrTracks>-1</NrTracks>").nr_tracks, 0);
}

#[test]
fn play_mode_crossfade_and_settings() {
    assert_eq!(parse_play_mode("<PlayMode>REPEAT_ALL</PlayMode>").play_mode, "REPEAT_ALL");
    assert!(parse_crossfade("<CrossfadeMode>1</CrossfadeMode>").crossfade);
    assert!(!parse_crossfade("<CrossfadeMode>01</CrossfadeMode>").crossfade);
    let s = parse_transport_settings("<u:GetTransportSettingsResponse><PlayMode>SHUFFLE_NOREPEAT</PlayMode><RecQualityMode>NOT_IMPLEMENTED</RecQualityMode></u:GetTransportSettingsResponse>");
    assert_eq!(s.play_mode, "SHUFFLE_NOREPEAT");
    assert!(s.shuffle);
    assert!(!s.repeat);
    assert!(!s.crossfade);
    let n = parse_transport_settings("<PlayMode>NORMAL</PlayMode>");
    assert!(!n.shuffle && !n.repeat);
    let r = parse_transport_settings("<PlayMode>REPEAT_ALL</PlayMode>");
    assert!(r.repeat && !r.shuffle);
    let b = parse_transport_settings("<PlayMode>SHUFFLE</PlayMode>");
    assert!(b.repeat && b.shuffle);
    let one = parse_transport_settings("<PlayMode>REPEAT_ONE</PlayMode>");
    assert!(one.repeat && !one.shuffle);
    let sone = parse_transport_settings("<PlayMode>SHUFFLE_REPEAT_ONE</PlayMode>");
    assert!(sone.repeat && sone.shuffle);
}

#[test]
fn sleep_timer_answer() {
    assert_eq!(parse_sleep_timer("<RemainingSleepTimerDuration>0:10:00</RemainingSleepTimerDuration>").remaining_time, "0:10:00");
}

#[test]
fn join_and_leave_group() {
    let desc = "<root><device><UDN>uuid:RINCON_000E58ABCDEF01400</UDN></device></root>";
    match join_group_call(desc).unwrap() {
        UpnpCall::SetAvTransportUri(u, m) => {
            assert_eq!(u, "x-rincon:RINCON_000E58ABCDEF01400");
            assert_eq!(m, "");
        }
        _ => panic!("not a transport URI call"),
    }
    match join_group_call("<root/>").unwrap() {
        UpnpCall::SetAvTransportUri(u, _) => assert_eq!(u, "x-rincon:"),
        _ => panic!("not a transport URI call"),
    }
    assert!(join_group_call("<root>").is_err());
    match leave_group_call() {
        UpnpCall::SetAvTransportUri(u, m) => {
            assert_eq!(u, "");
            assert_eq!(m, "");
        }
        _ => panic!("not a transport URI call"),
    }
    assert_eq!(description_url_exec("10.1.1.1"), "http://10.1.1.1:1400/xml/device_description.xml");
}

#[test]
fn html_escape_all_five() {
    assert_eq!(html_escape("a<b>&\"'c"), "a&lt;b&gt;&amp;&quot;&apos;c");
    assert_eq!(html_escape(""), "");
}
