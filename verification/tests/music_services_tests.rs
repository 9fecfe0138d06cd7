use sonos_controller::music_services::{
    app_link_request, auth_token_answer_is_defined, browse_music_service_request,
    check_app_link_response, check_smapi_response, decode_descriptors_exec, device_auth_token_checked,
    device_auth_token_request, household_id_request, list_music_services_request,
    make_credentials, parse_browse_response, parse_device_auth_token, parse_household_id,
    parse_media_collection, parse_music_services, parse_search_response, qq_items,
    qq_answer_items, qq_search_url, qq_songs, search_music_service_request, service_root_request, smapi_answer_is_defined,
    smapi_envelope, smapi_request, QqSong, DEVICE_CREDENTIALS, ENVELOPE_CLOSE, ENVELOPE_MIDDLE,
    ENVELOPE_OPEN, NO_CREDENTIALS,
};
use sonos_controller::json::JsonValue;
use sonos_controller::text::html_escape;

fn escape(s: &str) -> String {
    s.replace('&', "&amp;").replace('<', "&lt;").replace('>', "&gt;").replace('"', "&quot;")
}

#[test]
fn credentials_anonymous_and_with_token() {
    assert_eq!(make_credentials(""), DEVICE_CREDENTIALS);
    assert_eq!(
        make_credentials("tok"),
        "<ns:credentials><ns:deviceId>RINCON_SonosController</ns:deviceId><ns:deviceProvider>Sonos</ns:deviceProvider><ns:loginToken><ns:token>tok</ns:token><ns:key></ns:key><ns:householdId></ns:householdId></ns:loginToken></ns:credentials>"
    );
}

#[test]
fn envelope_with_and_without_credentials() {
    let e = smapi_envelope("<b/>", None);
    assert_eq!(e, format!("{ENVELOPE_OPEN}{NO_CREDENTIALS}{ENVELOPE_MIDDLE}<b/>{ENVELOPE_CLOSE}"));
    assert!(e.starts_with("<?xml version=\"1.0\" encoding=\"utf-8\"?>\n<s:Envelope xmlns:s=\"http://schemas.xmlsoap.org/soap/envelope/\" xmlns:ns=\"http://www.sonos.com/Services/1.1\">\n  <s:Header>"));
    assert!(e.ends_with("</s:Header>\n  <s:Body><b/></s:Body>\n</s:Envelope>"));
    let c = smapi_envelope("<b/>", Some("<c/>"));
    assert!(c.contains("<s:Header><c/></s:Header>"));
}

#[test]
fn smapi_requests() {
    let r = smapi_request("https://svc/smapi", "getLastUpdate", "<x/>", "<c/>");
    assert_eq!(r.url, "https://svc/smapi");
    assert_eq!(r.soap_action, "http://www.sonos.com/Services/1.1#getLastUpdate");
    assert_eq!(r.content_type, "text/xml; charset=utf-8");
    let b = browse_music_service_request("https://svc/smapi", "", "root", 0, 100);
    assert_eq!(b.soap_action, "http://www.sonos.com/Services/1.1#getMetadata");
    assert_eq!(
        b.body,
        format!("{ENVELOPE_OPEN}{DEVICE_CREDENTIALS}{ENVELOPE_MIDDLE}<ns:getMetadata><ns:id>root</ns:id><ns:index>0</ns:index><ns:count>100</ns:count></ns:getMetadata>{ENVELOPE_CLOSE}")
    );
    let root = service_root_request("https://svc/smapi", "");
    assert_eq!(root.body, b.body);
    let s = search_music_service_request("u", "t", "jazz", 5, 20);
    assert!(s.body.contains("<ns:search><ns:term>jazz</ns:term><ns:index>5</ns:index><ns:count>20</ns:count><ns:catalogId></ns:catalogId><ns:categories>artists,albums,tracks,playlists</ns:categories></ns:search>"));
    assert!(s.body.contains("<ns:token>t</ns:token>"));
    let a = app_link_request("u", "Sonos_H");
    assert!(a.body.contains("<s:Header><ns:credentials></ns:credentials></s:Header>"));
    assert!(a.body.contains("<ns:getAppLink><ns:householdId>Sonos_H</ns:householdId></ns:getAppLink>"));
    let t = device_auth_token_request("u", "H", "L", "D");
    assert_eq!(t.soap_action, "http://www.sonos.com/Services/1.1#getDeviceAuthToken");
    assert!(t.body.contains("<ns:getDeviceAuthToken><ns:householdId>H</ns:householdId><ns:linkCode>L</ns:linkCode><ns:linkDeviceId>D</ns:linkDeviceId></ns:getDeviceAuthToken>"));
}

#[test]
fn device_requests() {
    let l = list_music_services_request("10.0.0.4");
    assert_eq!(l.url, "http://10.0.0.4:1400/MusicServices/Control");
    assert_eq!(l.soap_action, "\"urn:schemas-upnp-org:service:MusicServices:1#ListAvailableServices\"");
    assert!(l.body.contains("<u:ListAvailableServices xmlns:u=\"urn:schemas-upnp-org:service:MusicServices:1\">\n      <u:ListAvailableServices xmlns:u=\"urn:schemas-upnp-org:service:MusicServices:1\"></u:ListAvailableServices>\n    </u:ListAvailableServices>"));
    let h = household_id_request("10.0.0.4");
    assert_eq!(h.url, "http://10.0.0.4:1400/DeviceProperties/Control");
    assert_eq!(h.soap_action, "\"urn:schemas-upnp-org:service:DeviceProperties:1#GetHouseholdID\"");
}

const SMAPI_PAGE: &str = r#"<s:Envelope xmlns:s="http://schemas.xmlsoap.org/soap/envelope/"><s:Body><getMetadataResponse xmlns="http://www.sonos.com/Services/1.1"><getMetadataResult><index>10</index><count>2</count><total>25</total><mediaCollection id="pl1"><title>Chill</title><albumArtURI>http://a/1.jpg</albumArtURI></mediaCollection><mediaMetadata id="tr1"><title>Song</title><trackMetadata><artist>Band</artist><album>LP</album></trackMetadata><uri>x-sonos-http:tr1</uri><description>d</description></mediaMetadata><mediaMetadata><title/></mediaMetadata></getMetadataResult></getMetadataResponse></s:Body></s:Envelope>"#;

#[test]
fn media_collection_items() {
    let items = parse_media_collection(SMAPI_PAGE);
    assert_eq!(items.len(), 3);
    assert_eq!(items[0].id, "pl1");
    assert_eq!(items[0].title, "Chill");
    assert_eq!(items[0].item_type, "container");
    assert_eq!(items[0].album_art_uri, Some("http://a/1.jpg".to_string()));
    assert_eq!(items[0].artist, None);
    assert_eq!(items[1].item_type, "track");
    assert_eq!(items[1].artist, Some("Band".to_string()));
    assert_eq!(items[1].album, Some("LP".to_string()));
    assert_eq!(items[1].uri, Some("x-sonos-http:tr1".to_string()));
    assert_eq!(items[1].description, Some("d".to_string()));
    assert_eq!(items[1].playback_metadata, None);
    assert_eq!(items[2].id, "");
    assert_eq!(items[2].title, "");
    assert!(parse_media_collection("<broken").is_empty());
}

#[test]
fn browse_and_search_pages() {
    let b = parse_browse_response(SMAPI_PAGE);
    assert_eq!(b.index, 10);
    assert_eq!(b.total, 25);
    assert_eq!(b.items.len(), 3);
    let s = parse_search_response("<searchResult><index>x</index><total>3</total></searchResult>");
    assert_eq!(s.index, 0);
    assert_eq!(s.total, 3);
    assert!(s.items.is_empty());
    let bad = parse_browse_response("<");
    assert_eq!((bad.index, bad.total, bad.items.len()), (0, 0, 0));
}

#[test]
fn household_id() {
    let resp = "<s:Envelope xmlns:s=\"http://schemas.xmlsoap.org/soap/envelope/\"><s:Body><u:GetHouseholdIDResponse xmlns:u=\"urn:schemas-upnp-org:service:DeviceProperties:1\"><CurrentHouseholdID>Sonos_abc123</CurrentHouseholdID></u:GetHouseholdIDResponse></s:Body></s:Envelope>";
    assert_eq!(parse_household_id(resp), Ok("Sonos_abc123".to_string()));
    assert_eq!(parse_household_id("<r/>"), Err("HouseholdID not found".to_string()));
    assert!(parse_household_id("<r").unwrap_err().starts_with("Parse error: "));
}

#[test]
fn app_link_answer() {
    assert_eq!(check_app_link_response("<r><link/></r>".to_string()), Ok("<r><link/></r>".to_string()));
    assert!(check_app_link_response("<r>".to_string()).unwrap_err().starts_with("Parse error: "));
}

#[test]
fn auth_token_answer() {
    let ok = "<r><authToken>tok1</authToken><privateKey>k</privateKey></r>";
    assert!(auth_token_answer_is_defined(ok));
    assert_eq!(parse_device_auth_token(ok), Ok("tok1".to_string()));
    let none = "<r><x/></r>";
    assert!(auth_token_answer_is_defined(none));
    assert_eq!(parse_device_auth_token(none), Err("No authToken in response: <r><x/></r>".to_string()));
    let long = format!("<r>{}</r>", "a".repeat(300));
    assert!(auth_token_answer_is_defined(&long));
    assert_eq!(parse_device_auth_token(&long), Err(format!("No authToken in response: <r>{}", "a".repeat(197))));
    assert!(parse_device_auth_token("<r").unwrap_err().starts_with("Parse error: "));
}

#[test]
fn auth_token_checked() {
    assert_eq!(device_auth_token_checked("<r><authToken>t</authToken></r>"), Some(Ok("t".to_string())));
    // 198 ASCII bytes, then a three-byte character across byte 200.
    let cut = format!("<r>{}\u{4e2d}</r>", "a".repeat(195));
    assert!(!auth_token_answer_is_defined(&cut));
    assert_eq!(device_auth_token_checked(&cut), None);
    let fine = format!("<r>{}\u{4e2d}</r>", "a".repeat(194));
    assert_eq!(device_auth_token_checked(&fine), Some(Err(format!("No authToken in response: <r>{}\u{4e2d}", "a".repeat(194)))));
}

#[test]
fn smapi_service_error() {
    let t = "{\"errorMessage\":\"boom\"}";
    assert!(smapi_answer_is_defined(t));
    assert_eq!(check_smapi_response(t.to_string()), Err("Service error: errorMessage\":\"boom\"}".to_string()));
}

#[test]
fn smapi_non_xml() {
    let t = "  {\"a\":1}";
    assert!(smapi_answer_is_defined(t));
    assert_eq!(check_smapi_response(t.to_string()), Err("Non-XML response:   {\"a\":1}".to_string()));
}

#[test]
fn smapi_soap_fault() {
    let t = "<s:Fault><faultcode>s:Client</faultcode><faultstring>Bad id</faultstring></s:Fault>";
    assert!(smapi_answer_is_defined(t));
    // The code is read from one character past the opening tag.
    assert_eq!(check_smapi_response(t.to_string()), Err("SOAP fault: :Client - Bad id".to_string()));
    let no_code = "<x><faultstring>f</faultstring></x>";
    assert!(smapi_answer_is_defined(no_code));
    assert_eq!(check_smapi_response(no_code.to_string()), Ok(no_code.to_string()));
}

#[test]
fn smapi_plain_answer() {
    let t = "<ok/>";
    assert!(smapi_answer_is_defined(t));
    assert_eq!(check_smapi_response(t.to_string()), Ok("<ok/>".to_string()));
}

fn services_answer(descriptors: &str, types: &str) -> String {
    format!(
        "<s:Envelope xmlns:s=\"http://schemas.xmlsoap.org/soap/envelope/\"><s:Body><u:ListAvailableServicesResponse xmlns:u=\"urn:schemas-upnp-org:service:MusicServices:1\"><AvailableServiceDescriptorList>{}</AvailableServiceDescriptorList><AvailableServiceTypeList>{}</AvailableServiceTypeList></u:ListAvailableServicesResponse></s:Body></s:Envelope>",
        escape(descriptors),
        types
    )
}

const DESCRIPTORS: &str = r#"<Services><Service Id="254" Name="TuneIn" Version="1.1" Uri="http://legato.radiotime.com/Radio.asmx" SecureUri="https://legato.radiotime.com/Radio.asmx" ContainerType="MService" Capabilities="0"><Policy Auth="Anonymous" PollInterval="30"/></Service><Service Id="12" Name="Spotify" Version="1.1" Uri="https://spotify-v5.ws.sonos.com/smapi" SecureUri="https://spotify-v5.ws.sonos.com/smapi" ContainerType="MService"><Policy Auth="DeviceLink"/></Service><Service Id="201" Name="Amazon Music" Uri="u" SecureUri="s"><Policy Auth="AppLink"/></Service><Service Id="0" Name="Zero"/><Service Id="7" Name=""/></Services>"#;

#[test]
fn bound_services_sorted_by_name() {
    let resp = services_answer(DESCRIPTORS, "65031, 3079,bogus,1799");
    let services = parse_music_services(&resp).unwrap();
    let names: Vec<&str> = services.iter().map(|s| s.name.as_str()).collect();
    assert_eq!(names, vec!["Spotify", "TuneIn"]);
    assert_eq!(services[0].id, 12);
    assert_eq!(services[0].auth, "DeviceLink");
    assert_eq!(services[0].uri, "https://spotify-v5.ws.sonos.com/smapi");
    assert_eq!(services[1].id, 254);
    assert_eq!(services[1].secure_uri, "https://legato.radiotime.com/Radio.asmx");
    assert_eq!(services[1].version, "1.1");
    assert_eq!(services[1].container_type, "MService");
    assert_eq!(services[1].auth, "Anonymous");
}

#[test]
fn services_errors() {
    assert_eq!(
        parse_music_services("<r/>").unwrap_err(),
        "No AvailableServiceDescriptorList in response"
    );
    let bad = services_answer("<Services>", "1");
    assert!(parse_music_services(&bad).unwrap_err().starts_with("Parse services XML error: "));
    let none = services_answer(DESCRIPTORS, "");
    assert!(parse_music_services(&none).unwrap().is_empty());
}

#[test]
fn descriptor_decoding_undoes_escape() {
    for s in ["&lt; <'\">&amp;", "", "plain", "&&&;;", "a&quot;b\"c"] {
        assert_eq!(decode_descriptors_exec(&html_escape(s)), s);
    }
    assert_eq!(decode_descriptors_exec("&amp;lt;&apos;"), "&lt;'");
}

#[test]
fn qq_search_address() {
    assert_eq!(
        qq_search_url("周杰伦 x", 30),
        "https://c.y.qq.com/soso/fcgi-bin/client_search_cp?w=%E5%91%A8%E6%9D%B0%E4%BC%A6%20x&format=json&p=1&n=30"
    );
    assert_eq!(qq_search_url("a-b_c.d~", 1), "https://c.y.qq.com/soso/fcgi-bin/client_search_cp?w=a-b_c.d~&format=json&p=1&n=1");
}

fn song(id: u64, title: &str, album_id: u64) -> QqSong {
    QqSong { song_id: id, title: title.to_string(), artist: "A".to_string(), album: "Al".to_string(), album_id }
}

#[test]
fn qq_playable_items() {
    let items = qq_items(Some(vec![song(123, "T", 456), song(0, "x", 1), song(7, "", 1), song(9, "NoAlbum", 0)])).unwrap();
    assert_eq!(items.len(), 2);
    assert_eq!(items[0].id, "SONG:123");
    assert_eq!(items[0].title, "T");
    assert_eq!(items[0].item_type, "track");
    assert_eq!(items[0].artist, Some("A".to_string()));
    assert_eq!(items[0].album, Some("Al".to_string()));
    assert_eq!(items[0].uri, Some("x-sonos-http:SONG%3a123%3aSQ.flac?sid=23&flags=8232&sn=7".to_string()));
    assert_eq!(items[0].album_art_uri, Some("https://imgcache.qq.com/music/photo/album_300/56/300_albumpic_456_0.jpg".to_string()));
    assert_eq!(items[0].description, None);
    assert_eq!(
        items[0].playback_metadata,
        Some("<DIDL-Lite xmlns:dc=\"http://purl.org/dc/elements/1.1/\" xmlns:upnp=\"urn:schemas-upnp-org:metadata-1-0/upnp/\" xmlns:r=\"urn:schemas-rinconnetworks-com:metadata-1-0/\" xmlns=\"urn:schemas-upnp-org:metadata-1-0/DIDL-Lite/\"><item id=\"10032020SONG%3a123%3aSQ\" parentID=\"00032020SONG%3a123%3aSQ\" restricted=\"true\"><upnp:class>object.item.audioItem.musicTrack</upnp:class><desc id=\"cdudn\" nameSpace=\"urn:schemas-rinconnetworks-com:metadata-1-0/\">SA_RINCON5895_X_#Svc5895-0-Token</desc></item></DIDL-Lite>".to_string())
    );
    assert_eq!(items[1].id, "SONG:9");
    assert_eq!(items[1].album_art_uri, Some(String::new()));
    assert_eq!(qq_items(None).unwrap_err(), "No song list in QQ Music response");
    assert!(qq_items(Some(Vec::new())).unwrap().is_empty());
}

#[test]
fn qq_answer_read_from_json() {
    let text = r#"{"code":0,"data":{"song":{"curnum":3,"list":[
        {"songid":123,"songname":"T","singer":[{"id":1,"name":"A"},{"name":"B"}],"albumname":"Al","albumid":456},
        {"songid":0,"songname":"skipped"},
        {"songid":9,"songname":"NoAlbum","singer":[],"albumid":-3}
    ]}}}"#;
    let items = qq_answer_items(text).unwrap();
    assert_eq!(items.len(), 2);
    assert_eq!(items[0].id, "SONG:123");
    assert_eq!(items[0].artist, Some("A".to_string()));
    assert_eq!(items[0].album, Some("Al".to_string()));
    assert_eq!(items[0].album_art_uri, Some("https://imgcache.qq.com/music/photo/album_300/56/300_albumpic_456_0.jpg".to_string()));
    assert_eq!(items[1].id, "SONG:9");
    assert_eq!(items[1].artist, Some(String::new()));
    assert_eq!(items[1].album, Some(String::new()));
    assert_eq!(items[1].album_art_uri, Some(String::new()));
}

#[test]
fn qq_answer_errors() {
    assert_eq!(qq_answer_items(r#"{"data":{"song":{}}}"#).unwrap_err(), "No song list in QQ Music response");
    assert_eq!(qq_answer_items(r#"[1,2]"#).unwrap_err(), "No song list in QQ Music response");
    assert_eq!(qq_answer_items(r#"{"data":{"song":{"list":[]}}}"#).unwrap().len(), 0);
    let e = qq_answer_items("not json").unwrap_err();
    assert_eq!(e, "QQ Music JSON parse error: expected ident at line 1 column 2");
}

#[test]
fn qq_songs_from_value() {
    let song = JsonValue::Object(vec![
        ("songid".to_string(), JsonValue::Number(Some(5))),
        ("songname".to_string(), JsonValue::Str("S".to_string())),
        ("albumid".to_string(), JsonValue::Number(None)),
    ]);
    let v = JsonValue::Object(vec![(
        "data".to_string(),
        JsonValue::Object(vec![("song".to_string(), JsonValue::Object(vec![("list".to_string(), JsonValue::Array(vec![song, JsonValue::Null]))]))]),
    )]);
    let songs = qq_songs(&v).unwrap();
    assert_eq!(songs.len(), 2);
    assert_eq!(songs[0].song_id, 5);
    assert_eq!(songs[0].title, "S");
    assert_eq!(songs[0].album_id, 0);
    assert_eq!(songs[1].song_id, 0);
    assert_eq!(songs[1].title, "");
    assert!(qq_songs(&JsonValue::Null).is_none());
}
