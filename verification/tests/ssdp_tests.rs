use sonos_controller::ssdp::{
    add_to_queue_request, browse_directory_request, browse_from_response, device_from_description,
    enqueued_play_steps, extract_header, merge_devices, parse_didl_browse, parse_didl_queue,
    play_from_queue_steps, play_uri_steps, queue_from_response, queue_request, unescape_entities,
    zone_group_state_request, zone_groups_answer, zone_groups_from_status, zone_groups_from_topology, zone_status_url,
    SsdpCollector, MSEARCH, SSDP_MULTICAST_ADDR,
};
use sonos_controller::soap::{after_step, first_step, StepAction};
use sonos_controller::SonosDevice;

const HEAD: &str = "<?xml version=\"1.0\" encoding=\"utf-8\"?>\n<s:Envelope xmlns:s=\"http://schemas.xmlsoap.org/soap/envelope/\" s:encodingStyle=\"http://schemas.xmlsoap.org/soap/encoding/\">\n  <s:Body>\n";
const TAIL: &str = "\n  </s:Body>\n</s:Envelope>";

const DIDL_QUEUE: &str = r#"<DIDL-Lite xmlns:dc="http://purl.org/dc/elements/1.1/" xmlns:upnp="urn:schemas-upnp-org:metadata-1-0/upnp/" xmlns="urn:schemas-upnp-org:metadata-1-0/DIDL-Lite/"><item id="Q:0/1"><dc:title>Song A</dc:title><dc:creator>Artist A</dc:creator><upnp:album>Album A</upnp:album><upnp:albumArtURI>/getaa?s=1&amp;u=x</upnp:albumArtURI><res duration="0:03:00">x-file-cifs://nas/a.mp3</res></item><item id="Q:0/2"><dc:title>Song B</dc:title><upnp:albumArtURI>http://art/b.jpg</upnp:albumArtURI><res>x-b?duration="0:01:05"&amp;y</res></item></DIDL-Lite>"#;

fn device(ip: &str, room: &str, name: &str) -> SonosDevice {
    SonosDevice {
        ip: ip.to_string(),
        port: 1400,
        name: name.to_string(),
        model: String::new(),
        model_number: String::new(),
        serial: String::new(),
        firmware: String::new(),
        room_name: room.to_string(),
        icon_url: None,
        uid: String::new(),
    }
}

#[test]
fn queue_items_numbered_from_one() {
    let items = parse_didl_queue(DIDL_QUEUE).unwrap();
    assert_eq!(items.len(), 2);
    assert_eq!(items[0].title, "Song A");
    assert_eq!(items[0].artist, "Artist A");
    assert_eq!(items[0].album, "Album A");
    assert_eq!(items[0].album_art_uri, "");
    assert_eq!(items[0].uri, "x-file-cifs://nas/a.mp3");
    assert_eq!(items[0].duration, "");
    assert_eq!(items[0].track_number, 1);
    assert_eq!(items[1].artist, "");
    assert_eq!(items[1].album_art_uri, "http://art/b.jpg");
    assert_eq!(items[1].duration, "0:01:05");
    assert_eq!(items[1].track_number, 2);
}

#[test]
fn queue_parse_error() {
    assert!(parse_didl_queue("<DIDL-Lite>").is_err());
    assert_eq!(parse_didl_queue("<DIDL-Lite/>").unwrap().len(), 0);
}

#[test]
fn queue_from_escaped_answer() {
    let escaped = DIDL_QUEUE.replace('&', "&amp;").replace('<', "&lt;").replace('>', "&gt;").replace('"', "&quot;");
    let answer = format!("<s:Envelope xmlns:s=\"http://schemas.xmlsoap.org/soap/envelope/\"><s:Body><u:BrowseResponse xmlns:u=\"urn:schemas-upnp-org:service:ContentDirectory:1\"><Result>{escaped}</Result></u:BrowseResponse></s:Body></s:Envelope>");
    // The whole answer is unescaped before parsing, as a device answer is.
    let unescaped = unescape_entities(&answer);
    assert!(unescaped.contains("<item id=\"Q:0/1\">"));
    let items = queue_from_response(&answer).unwrap();
    assert_eq!(items.len(), 2);
    assert_eq!(items[1].title, "Song B");
}

#[test]
fn unescape_order() {
    assert_eq!(unescape_entities("&lt;a&gt; &amp;lt; &quot;"), "<a> &lt; \"");
}

#[test]
fn browse_listing() {
    let xml = r#"<DIDL-Lite xmlns:dc="http://purl.org/dc/elements/1.1/" xmlns:upnp="urn:schemas-upnp-org:metadata-1-0/upnp/"><container id="A:ARTIST/x"><dc:title>X</dc:title><upnp:albumArtURI>/art</upnp:albumArtURI></container><item id="S://nas/a.mp3"><dc:title>A</dc:title><res>x-file-cifs://nas/a.mp3</res><r:description xmlns:r="urn:r">Fav</r:description></item></DIDL-Lite>"#;
    let items = parse_didl_browse(xml).unwrap();
    assert_eq!(items.len(), 2);
    assert!(items[0].is_container);
    assert_eq!(items[0].object_id, "A:ARTIST/x");
    assert_eq!(items[0].title, "X");
    assert_eq!(items[0].uri, None);
    assert_eq!(items[0].album_art_uri, Some("/art".to_string()));
    assert_eq!(items[0].description, None);
    assert!(!items[1].is_container);
    assert_eq!(items[1].uri, Some("x-file-cifs://nas/a.mp3".to_string()));
    assert_eq!(items[1].album_art_uri, None);
    assert_eq!(items[1].description, Some("Fav".to_string()));
    assert!(browse_from_response("&lt;x").is_err());
}

#[test]
fn browse_and_queue_requests() {
    let r = browse_directory_request("10.0.0.2", "A:ALBUM", 5, 50);
    assert_eq!(r.url, "http://10.0.0.2:1400/MediaServer/ContentDirectory/Control");
    assert_eq!(r.soap_action, "\"urn:schemas-upnp-org:service:ContentDirectory:1#Browse\"");
    let expected = format!("{HEAD}    <u:Browse xmlns:u=\"urn:schemas-upnp-org:service:ContentDirectory:1\">\n      <ObjectID>A:ALBUM</ObjectID>\n      <BrowseFlag>BrowseDirectChildren</BrowseFlag>\n      <Filter>dc:title,dc:creator,upnp:album,upnp:albumArtURI,res</Filter>\n      <StartingIndex>5</StartingIndex>\n      <RequestedCount>50</RequestedCount>\n      <SortCriteria></SortCriteria>\n    </u:Browse>{TAIL}");
    assert_eq!(r.body, expected);
    let q = queue_request("10.0.0.2", 0, 200);
    assert!(q.body.contains("<ObjectID>Q:0</ObjectID>"));
    assert!(q.body.contains("<RequestedCount>200</RequestedCount>"));
}

#[test]
fn play_uri_sets_then_plays() {
    let steps = play_uri_steps("h", "x-sonos-http:a&b", "<DIDL-Lite/>");
    assert_eq!(steps.len(), 2);
    assert!(steps[0].must_succeed && steps[1].must_succeed);
    assert_eq!(steps[0].request.url, "http://h:1400/MediaRenderer/AVTransport/Control");
    assert_eq!(steps[0].request.soap_action, "\"urn:schemas-upnp-org:service:AVTransport:1#SetAVTransportURI\"");
    assert!(steps[0].request.body.contains("<CurrentURI>x-sonos-http:a&amp;b</CurrentURI>\n      <CurrentURIMetaData>&lt;DIDL-Lite/&gt;</CurrentURIMetaData>"));
    assert_eq!(steps[1].request.soap_action, "\"urn:schemas-upnp-org:service:AVTransport:1#Play\"");
    assert!(steps[1].request.body.contains("<InstanceID>0</InstanceID>\n      <Speed>1</Speed>"));
}

#[test]
fn play_from_queue_switches_seeks_plays() {
    let steps = play_from_queue_steps("h", 7);
    assert_eq!(steps.len(), 3);
    assert!(!steps[0].must_succeed);
    assert!(steps[0].request.body.contains("<CurrentURI>x-rincon-queue:Q:0#0</CurrentURI>\n      <CurrentURIMetaData></CurrentURIMetaData>"));
    assert_eq!(steps[1].request.soap_action, "\"urn:schemas-upnp-org:service:AVTransport:1#Seek\"");
    assert!(steps[1].request.body.contains("<Unit>TRACK_NR</Unit>\n      <Target>7</Target>"));
    assert!(steps[1].must_succeed && steps[2].must_succeed);
    assert!(steps[2].request.soap_action.ends_with("#Play\""));
}

#[test]
fn add_to_queue_then_play_reported_track() {
    let add = add_to_queue_request("h", "u&1", "m<");
    assert_eq!(add.soap_action, "\"urn:schemas-upnp-org:service:AVTransport:1#AddURIToQueue\"");
    assert!(add.body.contains("<EnqueuedURI>u&amp;1</EnqueuedURI>\n      <EnqueuedURIMetaData>m&lt;</EnqueuedURIMetaData>\n      <DesiredFirstTrackNumberEnqueued>0</DesiredFirstTrackNumberEnqueued>\n      <EnqueueAsNext>1</EnqueueAsNext>"));
    let answer = "<u:AddURIToQueueResponse><FirstTrackNumberEnqueued>12</FirstTrackNumberEnqueued><NumTracksAdded>1</NumTracksAdded></u:AddURIToQueueResponse>";
    let steps = enqueued_play_steps("h", answer);
    assert_eq!(steps.len(), 3);
    assert!(steps[1].request.body.contains("<Target>12</Target>"));
    let fallback = enqueued_play_steps("h", "<FirstTrackNumberEnqueued>x</FirstTrackNumberEnqueued>");
    assert!(fallback[1].request.body.contains("<Target>0</Target>"));
}

const STATUS: &str = r#"<ZPSupportInfo><ZoneGroups><ZoneGroup Coordinator="RINCON_B" ID="RINCON_B:1"><ZoneGroupMember UUID="RINCON_B" Location="http://192.168.1.11:1400/xml/device_description.xml" ZoneName="Kitchen" ZoneGroupName="" IsCoordinator="1"/><ZoneGroupMember UUID="RINCON_C" Location="http://192.168.1.12:1400/xml/device_description.xml" ZoneName="Kitchen" Invisible="1"/></ZoneGroup><ZoneGroup Coordinator="RINCON_A" ID="RINCON_A:5"><ZoneGroupMember UUID="RINCON_A" Location="http://192.168.1.10:1400/xml/device_description.xml" ZoneName="Bedroom" ZoneGroupName="Bedroom + Office" IsCoordinator="1"><Icon><URL>x-rincon-roomicon:bedroom</URL></Icon></ZoneGroupMember><ZoneGroupMember UUID="RINCON_D" Location="ftp://x" ZoneName="Office"/></ZoneGroup><ZoneGroup Coordinator="RINCON_E" ID="RINCON_E:2"><ZoneGroupMember UUID="RINCON_E" Location="http://192.168.1.14:1400/x" ZoneName="Porch"/></ZoneGroup></ZoneGroups></ZPSupportInfo>"#;

#[test]
fn status_page_groups() {
    let groups = zone_groups_from_status(STATUS).unwrap().unwrap();
    assert_eq!(groups.len(), 2);
    assert_eq!(groups[0].coordinator_name, "Bedroom + Office");
    assert_eq!(groups[0].coordinator_ip, "192.168.1.10");
    assert_eq!(groups[0].coordinator_uid, "RINCON_A");
    assert_eq!(groups[0].id, "RINCON_A:5");
    assert_eq!(groups[0].members.len(), 2);
    assert_eq!(groups[0].members[0].icon_url, Some("x-rincon-roomicon:bedroom".to_string()));
    assert!(groups[0].members[0].is_coordinator);
    assert_eq!(groups[0].members[1].ip, "");
    assert_eq!(groups[0].members[1].room_name, "Office");
    assert!(!groups[0].members[1].is_coordinator);
    assert!(groups[0].hidden_ips.is_empty());
    assert_eq!(groups[1].coordinator_name, "Kitchen");
    assert_eq!(groups[1].coordinator_ip, "192.168.1.11");
    assert_eq!(groups[1].members.len(), 1);
    assert!(!groups[1].members[0].is_invisible);
    assert_eq!(groups[1].hidden_ips, vec!["192.168.1.12".to_string()]);
}

#[test]
fn status_page_without_groups_asks_for_fallback() {
    assert!(zone_groups_from_status("<ZPSupportInfo/>").unwrap().is_none());
    assert!(zone_groups_from_status("<ZoneGroups><ZoneGroup><ZoneGroupMember ZoneName=\"x\"/></ZoneGroup></ZoneGroups>").unwrap().is_none());
    assert!(zone_groups_from_status("<oops>").is_err());
}

#[test]
fn topology_answer_groups() {
    let state = r#"<ZoneGroups><ZoneGroup Coordinator="RINCON_A" ID="RINCON_A:1"><ZoneGroupMember UUID="RINCON_A" Location="http://10.0.0.1:1400/xml/device_description.xml" ZoneName="Den"/><ZoneGroupMember UUID="RINCON_F" Location="http://10.0.0.9:1400/x" ZoneName="Den" Invisible="1"/></ZoneGroup></ZoneGroups>"#;
    let escaped = state.replace('&', "&amp;").replace('<', "&lt;").replace('>', "&gt;").replace('"', "&quot;");
    let answer = format!("<s:Envelope xmlns:s=\"http://schemas.xmlsoap.org/soap/envelope/\"><s:Body><u:GetZoneGroupStateResponse xmlns:u=\"urn:schemas-upnp-org:service:ZoneGroupTopology:1\"><ZoneGroupState>{escaped}</ZoneGroupState></u:GetZoneGroupStateResponse></s:Body></s:Envelope>");
    let groups = zone_groups_from_topology(&answer).unwrap();
    assert_eq!(groups.len(), 1);
    assert_eq!(groups[0].coordinator_ip, "10.0.0.1");
    assert_eq!(groups[0].coordinator_name, "Den");
    assert!(groups[0].members[0].is_coordinator);
    assert_eq!(groups[0].members[0].icon_url, None);
    assert_eq!(groups[0].hidden_ips, vec!["10.0.0.9".to_string()]);
    let plain = zone_groups_from_topology(state).unwrap();
    assert_eq!(plain.len(), 1);
    assert!(zone_groups_from_topology("<a>").is_err());
}

#[test]
fn zone_group_requests() {
    assert_eq!(zone_status_url("10.0.0.1"), "http://10.0.0.1:1400/status/zp");
    let r = zone_group_state_request("10.0.0.1");
    assert_eq!(r.url, "http://10.0.0.1:1400/ZoneGroupTopology/Control");
    assert_eq!(r.soap_action, "\"urn:schemas-upnp-org:service:ZoneGroupTopology:1#GetZoneGroupState\"");
    let expected = format!("{HEAD}    <u:GetZoneGroupState xmlns:u=\"urn:schemas-upnp-org:service:ZoneGroupTopology:1\">\n      <InstanceID>0</InstanceID>\n    </u:GetZoneGroupState>{TAIL}");
    assert_eq!(r.body, expected);
}

const DESCRIPTION: &str = r#"<?xml version="1.0" encoding="utf-8"?><root xmlns="urn:schemas-upnp-org:device-1-0"><specVersion><major>1</major></specVersion><device><friendlyName>192.168.1.10 - Sonos One</friendlyName><modelName>Sonos One</modelName><modelNumber>S13</modelNumber><serialNum>00-0E-58-AA:1</serialNum><softwareVersion>79.1-56030</softwareVersion><roomName>Bedroom</roomName><UDN>uuid:RINCON_A01400</UDN><iconList><icon><mimetype>text/plain</mimetype><url>/x.txt</url></icon><icon><mimetype>image/png</mimetype><url>/img/icon-S13.png</url></icon></iconList></device></root>"#;

#[test]
fn device_description_fields() {
    let d = device_from_description("http://192.168.1.10:1400/xml/device_description.xml", DESCRIPTION).unwrap();
    assert_eq!(d.ip, "192.168.1.10");
    assert_eq!(d.port, 1400);
    assert_eq!(d.name, "192.168.1.10 - Sonos One");
    assert_eq!(d.model, "Sonos One");
    assert_eq!(d.model_number, "S13");
    assert_eq!(d.serial, "00-0E-58-AA:1");
    assert_eq!(d.firmware, "79.1-56030");
    assert_eq!(d.room_name, "Bedroom");
    assert_eq!(d.icon_url, Some("/img/icon-S13.png".to_string()));
    assert_eq!(d.uid, "RINCON_A01400");
}

#[test]
fn device_description_defaults_and_errors() {
    let d = device_from_description("http://10.0.0.3/desc.xml", "<root><device><roomName>Den</roomName></device></root>").unwrap();
    assert_eq!(d.port, 1400);
    assert_eq!(d.room_name, "Den");
    assert_eq!(d.name, "");
    assert_eq!(d.icon_url, None);
    let other = device_from_description("http://10.0.0.3:8080/desc.xml", "<root/>").unwrap();
    assert_eq!(other.port, 8080);
    assert!(device_from_description("not a url", "<root/>").is_err());
    assert!(device_from_description("http://10.0.0.3/", "<root>").is_err());
}

#[test]
fn merged_devices_one_per_ip_sorted_by_room() {
    let found = vec![
        device("10.0.0.2", "Kitchen", "first"),
        device("10.0.0.1", "Bedroom", "b"),
        device("10.0.0.2", "Attic", "second"),
        device("10.0.0.3", "Den", "d"),
    ];
    let merged = merge_devices(found);
    let rooms: Vec<&str> = merged.iter().map(|d| d.room_name.as_str()).collect();
    assert_eq!(rooms, vec!["Bedroom", "Den", "Kitchen"]);
    assert_eq!(merged[2].name, "first");
    assert!(merge_devices(Vec::new()).is_empty());
}

#[test]
fn location_header() {
    let resp = "HTTP/1.1 200 OK\r\nCACHE-CONTROL: max-age = 1800\r\nLocation:  http://192.168.1.10:1400/xml/device_description.xml \r\nST: urn:schemas-upnp-org:device:ZonePlayer:1\r\n\r\n";
    assert_eq!(extract_header(resp, "LOCATION"), Some("http://192.168.1.10:1400/xml/device_description.xml".to_string()));
    assert_eq!(extract_header(resp, "st"), Some("urn:schemas-upnp-org:device:ZonePlayer:1".to_string()));
    assert_eq!(extract_header("LOCATION:\r\nLOCATION: b\r\n", "LOCATION"), Some("b".to_string()));
    assert_eq!(extract_header("SERVER: x\r\n", "LOCATION"), None);
    assert_eq!(extract_header("", "LOCATION"), None);
}

#[test]
fn collector_keeps_each_location_once() {
    let mut c = SsdpCollector::new();
    assert!(!c.stop_on_timeout());
    assert!(c.keeps_listening(4, 5));
    assert!(!c.keeps_listening(5, 5));
    assert!(!c.keeps_listening(0, 0));
    c.on_response("HTTP/1.1 200 OK\r\nLOCATION: http://a:1400/x.xml\r\n\r\n");
    c.on_response("HTTP/1.1 200 OK\r\nLOCATION: http://b:1400/x.xml\r\n\r\n");
    c.on_response("HTTP/1.1 200 OK\r\nLOCATION: http://a:1400/x.xml\r\n\r\n");
    c.on_response("HTTP/1.1 200 OK\r\n\r\n");
    c.on_datagram(b"HTTP/1.1 200 OK\r\nlocation: http://c:1400/x.xml\r\n\r\n");
    c.on_datagram(&[0xff, 0xfe]);
    assert!(c.stop_on_timeout());
    assert_eq!(c.into_locations(), vec!["http://a:1400/x.xml".to_string(), "http://b:1400/x.xml".to_string(), "http://c:1400/x.xml".to_string()]);
}

#[test]
fn search_message() {
    assert!(MSEARCH.starts_with("M-SEARCH * HTTP/1.1\r\n"));
    assert!(MSEARCH.contains("ST: urn:schemas-upnp-org:device:ZonePlayer:1\r\n\r\n"));
    assert_eq!(SSDP_MULTICAST_ADDR, "239.255.255.250:1900");
}

#[test]
fn zone_groups_fall_back_to_topology() {
    let state = r#"<ZoneGroups><ZoneGroup Coordinator="RINCON_A" ID="RINCON_A:1"><ZoneGroupMember UUID="RINCON_A" Location="http://10.0.0.1:1400/x" ZoneName="Den"/></ZoneGroup></ZoneGroups>"#;
    let from_status = zone_groups_answer(STATUS, Some(state)).unwrap().unwrap();
    assert_eq!(from_status.len(), 2);
    assert_eq!(from_status[0].coordinator_name, "Bedroom + Office");
    assert!(zone_groups_answer("<ZPSupportInfo/>", None).unwrap().is_none());
    let fallback = zone_groups_answer("<ZPSupportInfo><x/></ZPSupportInfo>", Some(state)).unwrap().unwrap();
    assert_eq!(fallback.len(), 1);
    assert_eq!(fallback[0].coordinator_ip, "10.0.0.1");
    assert!(zone_groups_answer("<ZPSupportInfo/>", Some("<a>")).is_err());
    assert!(zone_groups_answer("<oops>", Some(state)).is_err());
}

#[test]
fn step_actions() {
    let steps = play_from_queue_steps("h", 3);
    assert_eq!(first_step(&steps), StepAction::Send(0));
    assert_eq!(after_step(&steps, 0, false), StepAction::Send(1));
    assert_eq!(after_step(&steps, 1, false), StepAction::Fail);
    assert_eq!(after_step(&steps, 1, true), StepAction::Send(2));
    assert_eq!(after_step(&steps, 2, true), StepAction::Finish);
    assert_eq!(after_step(&steps, 5, false), StepAction::Finish);
    assert_eq!(first_step(&Vec::new()), StepAction::Finish);
}
