use vstd::prelude::*;
use crate::bytes::{
    byte_find, byte_find_exec, byte_len, byte_len_exec, byte_slice, byte_slice_exec, sliceable,
    sliceable_exec,
};
use crate::soap::{make_request, xml_content_type, SoapRequest, SoapRequestView};
use crate::ssdp::opt_view;
use crate::sort::{stable_sort_by_key, stable_sort_of, views, SortKey};
use crate::text::{
    push_all,
    contains, contains_exec, starts_with, starts_with_exec, trim_start, trim_start_chars,
    find, find_from_exec, from_chars, lemma_find_from, matches_at, parse_int, parse_u32,
    push_decimal, push_str, replace_str, replaced, slice_chars, to_chars, trim, trim_chars,
    decimal, html_escaped, lemma_decode_undoes_escape,
};
use crate::urls::{percent_encoded, url_encode};
use vstd::utf8::encode_utf8;
use crate::json::{
    json_field, json_field_exec, json_item, json_item_exec, json_or_null, json_parse, json_str_exec,
    json_str_or_empty, json_u64_exec, json_u64_or_zero, parse_json, JsonValue, JsonValueView,
};
use crate::upnp::{extract, extracted, int_or, raw_request, soap_raw_request};
use crate::xml::{
    attr, attr_value, has_tag, nodes_view, parse_xml, text_of, text_of_exec, tree_shaped,
    xml_parse, XmlNode, XmlNodeView, eq_chars,
};

verus! {

// ── Data ───────────────────────────────────────────────────────────────

/// A music service that the household has an account with.
#[derive(Debug, Clone)]
pub struct MusicService {
    pub id: u32,
    pub name: String,
    pub uri: String,
    pub secure_uri: String,
    pub auth: String,
    pub version: String,
    pub container_type: String,
}

pub struct MusicServiceView {
    pub id: u32,
    pub name: Seq<char>,
    pub uri: Seq<char>,
    pub secure_uri: Seq<char>,
    pub auth: Seq<char>,
    pub version: Seq<char>,
    pub container_type: Seq<char>,
}

impl View for MusicService {
    type V = MusicServiceView;

    open spec fn view(&self) -> MusicServiceView {
        MusicServiceView {
            id: self.id,
            name: self.name@,
            uri: self.uri@,
            secure_uri: self.secure_uri@,
            auth: self.auth@,
            version: self.version@,
            container_type: self.container_type@,
        }
    }
}

impl SortKey for MusicService {
    open spec fn key_of(v: MusicServiceView) -> Seq<char> {
        v.name
    }

    fn sort_key_chars(&self) -> (r: Vec<char>) {
        to_chars(self.name.as_str())
    }
}

/// A container or track of a music service.
#[derive(Debug, Clone)]
pub struct SmapiItem {
    pub id: String,
    pub title: String,
    /// `container` or `track`.
    pub item_type: String,
    pub artist: Option<String>,
    pub album: Option<String>,
    pub album_art_uri: Option<String>,
    pub uri: Option<String>,
    pub description: Option<String>,
    /// Full DIDL-Lite metadata needed for SetAVTransportURI playback
    pub playback_metadata: Option<String>,
}

pub struct SmapiItemView {
    pub id: Seq<char>,
    pub title: Seq<char>,
    pub item_type: Seq<char>,
    pub artist: Option<Seq<char>>,
    pub album: Option<Seq<char>>,
    pub album_art_uri: Option<Seq<char>>,
    pub uri: Option<Seq<char>>,
    pub description: Option<Seq<char>>,
    pub playback_metadata: Option<Seq<char>>,
}

impl View for SmapiItem {
    type V = SmapiItemView;

    open spec fn view(&self) -> SmapiItemView {
        SmapiItemView {
            id: self.id@,
            title: self.title@,
            item_type: self.item_type@,
            artist: opt_view(self.artist),
            album: opt_view(self.album),
            album_art_uri: opt_view(self.album_art_uri),
            uri: opt_view(self.uri),
            description: opt_view(self.description),
            playback_metadata: opt_view(self.playback_metadata),
        }
    }
}

/// A page of a service's catalogue.
#[derive(Debug, Clone)]
pub struct SmapiBrowseResult {
    pub items: Vec<SmapiItem>,
    pub index: u32,
    pub total: u32,
}

/// A page of search results.
#[derive(Debug, Clone)]
pub struct SmapiSearchResult {
    pub items: Vec<SmapiItem>,
    pub index: u32,
    pub total: u32,
}

// ── Requests ───────────────────────────────────────────────────────────

/// The empty credentials header.
pub const NO_CREDENTIALS: &'static str = "<ns:credentials></ns:credentials>";

pub const ENVELOPE_OPEN: &'static str = r#"<?xml version="1.0" encoding="utf-8"?>
<s:Envelope xmlns:s="http://schemas.xmlsoap.org/soap/envelope/" xmlns:ns="http://www.sonos.com/Services/1.1">
  <s:Header>"#;

pub const ENVELOPE_MIDDLE: &'static str = r#"</s:Header>
  <s:Body>"#;

pub const ENVELOPE_CLOSE: &'static str = r#"</s:Body>
</s:Envelope>"#;

/// An SMAPI envelope around `body`, with the credentials header given or the empty one.
pub open spec fn smapi_envelope_spec(body: Seq<char>, credentials: Option<Seq<char>>) -> Seq<char> {
    let creds = match credentials {
        Some(c) => c,
        None => NO_CREDENTIALS@,
    };
    ENVELOPE_OPEN@ + creds + ENVELOPE_MIDDLE@ + body + ENVELOPE_CLOSE@
}

/// Wraps an SMAPI call in its envelope.
pub fn smapi_envelope(body: &str, credentials: Option<&str>) -> (res: String)
    ensures
        res@ == smapi_envelope_spec(
            body@,
            match credentials {
                Some(c) => Some(c@),
                None => None,
            },
        ),
{
    let creds = match credentials {
        Some(c) => c,
        None => NO_CREDENTIALS,
    };
    let mut out: Vec<char> = Vec::new();
    push_str(&mut out, ENVELOPE_OPEN);
    push_str(&mut out, creds);
    push_str(&mut out, ENVELOPE_MIDDLE);
    push_str(&mut out, body);
    push_str(&mut out, ENVELOPE_CLOSE);
    assert(out@ =~= ENVELOPE_OPEN@ + creds@ + ENVELOPE_MIDDLE@ + body@ + ENVELOPE_CLOSE@);
    from_chars(&out)
}

pub const DEVICE_CREDENTIALS: &'static str = "<ns:credentials><ns:deviceId>RINCON_SonosController</ns:deviceId><ns:deviceProvider>Sonos</ns:deviceProvider></ns:credentials>";

pub const TOKEN_CREDENTIALS_OPEN: &'static str = "<ns:credentials><ns:deviceId>RINCON_SonosController</ns:deviceId><ns:deviceProvider>Sonos</ns:deviceProvider><ns:loginToken><ns:token>";

pub const TOKEN_CREDENTIALS_CLOSE: &'static str = "</ns:token><ns:key></ns:key><ns:householdId></ns:householdId></ns:loginToken></ns:credentials>";

/// The credentials header: the device alone where there is no token (anonymous access), else
/// the device and the login token.
pub open spec fn credentials_for(auth_token: Seq<char>) -> Seq<char> {
    if auth_token.len() == 0 {
        DEVICE_CREDENTIALS@
    } else {
        TOKEN_CREDENTIALS_OPEN@ + auth_token + TOKEN_CREDENTIALS_CLOSE@
    }
}

/// Builds the credentials header for a login token (possibly empty).
pub fn make_credentials(auth_token: &str) -> (res: String)
    ensures
        res@ == credentials_for(auth_token@),
{
    if auth_token.is_empty() {
        DEVICE_CREDENTIALS.to_string()
    } else {
        let mut out: Vec<char> = Vec::new();
        push_str(&mut out, TOKEN_CREDENTIALS_OPEN);
        push_str(&mut out, auth_token);
        push_str(&mut out, TOKEN_CREDENTIALS_CLOSE);
        assert(out@ =~= credentials_for(auth_token@));
        from_chars(&out)
    }
}

/// An SMAPI request: posted to the service URI, with the SMAPI action header.
pub open spec fn smapi_request_spec(uri: Seq<char>, action: Seq<char>, body: Seq<char>, credentials: Seq<char>) -> SoapRequestView {
    SoapRequestView {
        url: uri,
        soap_action: "http://www.sonos.com/Services/1.1#"@ + action,
        content_type: xml_content_type(),
        body: smapi_envelope_spec(body, Some(credentials)),
    }
}

/// Builds an SMAPI request.
pub fn smapi_request(uri: &str, action: &str, body: &str, credentials: &str) -> (res: SoapRequest)
    ensures
        res@ == smapi_request_spec(uri@, action@, body@, credentials@),
{
    let mut act: Vec<char> = Vec::new();
    push_str(&mut act, "http://www.sonos.com/Services/1.1#");
    push_str(&mut act, action);
    make_request(uri.to_string(), from_chars(&act), smapi_envelope(body, Some(credentials)))
}

/// The body of a `getMetadata` call.
pub open spec fn get_metadata_body(parent_id: Seq<char>, index: u32, count: u32) -> Seq<char> {
    "<ns:getMetadata><ns:id>"@ + parent_id + "</ns:id><ns:index>"@ + decimal(index as nat)
        + "</ns:index><ns:count>"@ + decimal(count as nat) + "</ns:count></ns:getMetadata>"@
}

/// Builds the `getMetadata` request that browses container `parent_id` of a service.
pub fn browse_music_service_request(service_uri: &str, auth_token: &str, parent_id: &str, index: u32, count: u32) -> (res: SoapRequest)
    ensures
        res@ == smapi_request_spec(service_uri@, "getMetadata"@, get_metadata_body(parent_id@, index, count), credentials_for(auth_token@)),
{
    let mut body: Vec<char> = Vec::new();
    push_str(&mut body, "<ns:getMetadata><ns:id>");
    push_str(&mut body, parent_id);
    push_str(&mut body, "</ns:id><ns:index>");
    push_decimal(&mut body, index as u64);
    push_str(&mut body, "</ns:index><ns:count>");
    push_decimal(&mut body, count as u64);
    push_str(&mut body, "</ns:count></ns:getMetadata>");
    assert(body@ =~= get_metadata_body(parent_id@, index, count));
    let creds = make_credentials(auth_token);
    smapi_request(service_uri, "getMetadata", from_chars(&body).as_str(), creds.as_str())
}

/// Builds the request for a service's root containers (`root`, from 0, at most 100).
pub fn service_root_request(service_uri: &str, auth_token: &str) -> (res: SoapRequest)
    ensures
        res@ == smapi_request_spec(service_uri@, "getMetadata"@, get_metadata_body("root"@, 0, 100), credentials_for(auth_token@)),
{
    browse_music_service_request(service_uri, auth_token, "root", 0, 100)
}

/// The categories a search covers.
pub const SEARCH_CATEGORIES: &'static str = "artists,albums,tracks,playlists";

/// The body of a `search` call.
pub open spec fn search_body(term: Seq<char>, index: u32, count: u32) -> Seq<char> {
    "<ns:search><ns:term>"@ + term + "</ns:term><ns:index>"@ + decimal(index as nat)
        + "</ns:index><ns:count>"@ + decimal(count as nat)
        + "</ns:count><ns:catalogId></ns:catalogId><ns:categories>"@ + SEARCH_CATEGORIES@
        + "</ns:categories></ns:search>"@
}

/// Builds the `search` request for `term` in a service.
pub fn search_music_service_request(service_uri: &str, auth_token: &str, term: &str, index: u32, count: u32) -> (res: SoapRequest)
    ensures
        res@ == smapi_request_spec(service_uri@, "search"@, search_body(term@, index, count), credentials_for(auth_token@)),
{
    let mut body: Vec<char> = Vec::new();
    push_str(&mut body, "<ns:search><ns:term>");
    push_str(&mut body, term);
    push_str(&mut body, "</ns:term><ns:index>");
    push_decimal(&mut body, index as u64);
    push_str(&mut body, "</ns:index><ns:count>");
    push_decimal(&mut body, count as u64);
    push_str(&mut body, "</ns:count><ns:catalogId></ns:catalogId><ns:categories>");
    push_str(&mut body, SEARCH_CATEGORIES);
    push_str(&mut body, "</ns:categories></ns:search>");
    assert(body@ =~= search_body(term@, index, count));
    let creds = make_credentials(auth_token);
    smapi_request(service_uri, "search", from_chars(&body).as_str(), creds.as_str())
}

/// The body of a `getAppLink` call.
pub open spec fn app_link_body(household_id: Seq<char>) -> Seq<char> {
    "<ns:getAppLink><ns:householdId>"@ + household_id + "</ns:householdId></ns:getAppLink>"@
}

/// Builds the `getAppLink` request of the AppLink sign-in.
pub fn app_link_request(service_uri: &str, household_id: &str) -> (res: SoapRequest)
    ensures
        res@ == smapi_request_spec(service_uri@, "getAppLink"@, app_link_body(household_id@), NO_CREDENTIALS@),
{
    let mut body: Vec<char> = Vec::new();
    push_str(&mut body, "<ns:getAppLink><ns:householdId>");
    push_str(&mut body, household_id);
    push_str(&mut body, "</ns:householdId></ns:getAppLink>");
    assert(body@ =~= app_link_body(household_id@));
    smapi_request(service_uri, "getAppLink", from_chars(&body).as_str(), NO_CREDENTIALS)
}

/// The body of a `getDeviceAuthToken` call.
pub open spec fn device_auth_token_body(household_id: Seq<char>, link_code: Seq<char>, link_device_id: Seq<char>) -> Seq<char> {
    "<ns:getDeviceAuthToken><ns:householdId>"@ + household_id + "</ns:householdId><ns:linkCode>"@
        + link_code + "</ns:linkCode><ns:linkDeviceId>"@ + link_device_id
        + "</ns:linkDeviceId></ns:getDeviceAuthToken>"@
}

/// Builds the `getDeviceAuthToken` request that ends the AppLink sign-in.
pub fn device_auth_token_request(service_uri: &str, household_id: &str, link_code: &str, link_device_id: &str) -> (res: SoapRequest)
    ensures
        res@ == smapi_request_spec(service_uri@, "getDeviceAuthToken"@, device_auth_token_body(household_id@, link_code@, link_device_id@), NO_CREDENTIALS@),
{
    let mut body: Vec<char> = Vec::new();
    push_str(&mut body, "<ns:getDeviceAuthToken><ns:householdId>");
    push_str(&mut body, household_id);
    push_str(&mut body, "</ns:householdId><ns:linkCode>");
    push_str(&mut body, link_code);
    push_str(&mut body, "</ns:linkCode><ns:linkDeviceId>");
    push_str(&mut body, link_device_id);
    push_str(&mut body, "</ns:linkDeviceId></ns:getDeviceAuthToken>");
    assert(body@ =~= device_auth_token_body(household_id@, link_code@, link_device_id@));
    smapi_request(service_uri, "getDeviceAuthToken", from_chars(&body).as_str(), NO_CREDENTIALS)
}

pub const MUSIC_SERVICES_TYPE: &'static str = "urn:schemas-upnp-org:service:MusicServices:1";

pub const LIST_SERVICES_CALL: &'static str = r#"<u:ListAvailableServices xmlns:u="urn:schemas-upnp-org:service:MusicServices:1"></u:ListAvailableServices>"#;

pub const DEVICE_PROPERTIES_TYPE: &'static str = "urn:schemas-upnp-org:service:DeviceProperties:1";

pub const HOUSEHOLD_CALL: &'static str = r#"<u:GetHouseholdID xmlns:u="urn:schemas-upnp-org:service:DeviceProperties:1"></u:GetHouseholdID>"#;

/// Builds the `ListAvailableServices` request to the device at `ip`.
pub fn list_music_services_request(ip: &str) -> (res: SoapRequest)
    ensures
        res@ == raw_request(ip@, "MusicServices"@, MUSIC_SERVICES_TYPE@, "ListAvailableServices"@, LIST_SERVICES_CALL@),
{
    soap_raw_request(ip, "MusicServices", MUSIC_SERVICES_TYPE, "ListAvailableServices", LIST_SERVICES_CALL)
}

/// Builds the `GetHouseholdID` request to the device at `ip`.
pub fn household_id_request(ip: &str) -> (res: SoapRequest)
    ensures
        res@ == raw_request(ip@, "DeviceProperties"@, DEVICE_PROPERTIES_TYPE@, "GetHouseholdID"@, HOUSEHOLD_CALL@),
{
    soap_raw_request(ip, "DeviceProperties", DEVICE_PROPERTIES_TYPE, "GetHouseholdID", HOUSEHOLD_CALL)
}

// ── Answers ────────────────────────────────────────────────────────────

/// The positions in `[0, hi)` of `mediaCollection` and `mediaMetadata` elements.
pub open spec fn media_positions(nodes: Seq<XmlNodeView>, hi: int) -> Seq<int>
    decreases hi,
{
    if hi <= 0 {
        Seq::empty()
    } else if nodes[hi - 1].name == "mediaCollection"@ || nodes[hi - 1].name == "mediaMetadata"@ {
        media_positions(nodes, hi - 1).push(hi - 1)
    } else {
        media_positions(nodes, hi - 1)
    }
}

/// The item that the `mediaCollection` (a container) or `mediaMetadata` (a track) node `i`
/// describes.
pub open spec fn media_item(nodes: Seq<XmlNodeView>, i: int) -> SmapiItemView {
    SmapiItemView {
        id: attr_value(nodes[i], "id"@),
        title: match text_of(nodes, i, "title"@) {
            Some(t) => t,
            None => Seq::empty(),
        },
        item_type: if nodes[i].name == "mediaCollection"@ {
            "container"@
        } else {
            "track"@
        },
        artist: text_of(nodes, i, "artist"@),
        album: text_of(nodes, i, "album"@),
        album_art_uri: text_of(nodes, i, "albumArtURI"@),
        uri: text_of(nodes, i, "uri"@),
        description: text_of(nodes, i, "description"@),
        playback_metadata: None,
    }
}

/// The items of an SMAPI answer, in document order; none where it does not parse.
pub open spec fn media_items(xml: Seq<char>) -> Seq<SmapiItemView> {
    match xml_parse(xml) {
        Err(_) => Seq::empty(),
        Ok(nodes) => {
            let ps = media_positions(nodes, nodes.len() as int);
            Seq::new(ps.len(), |k: int| media_item(nodes, ps[k]))
        },
    }
}

fn opt_string(o: Option<Vec<char>>) -> (res: Option<String>)
    ensures
        opt_view(res) == match o {
            Some(v) => Some(v@),
            None => None,
        },
{
    match o {
        Some(v) => Some(from_chars(&v)),
        None => None,
    }
}

/// Reads the containers and tracks out of an SMAPI answer.
pub fn parse_media_collection(xml: &str) -> (res: Vec<SmapiItem>)
    ensures
        views(res@) == media_items(xml@),
{
    let nodes = match parse_xml(xml) {
        Ok(n) => n,
        Err(_) => {
            let v: Vec<SmapiItem> = Vec::new();
            assert(views(v@) =~= Seq::<SmapiItemView>::empty());
            return v;
        },
    };
    let ghost nv = nodes_view(nodes@);
    let coll = to_chars("mediaCollection");
    let meta = to_chars("mediaMetadata");
    let mut items: Vec<SmapiItem> = Vec::new();
    let mut i: usize = 0;
    while i < nodes.len()
        invariant
            i <= nodes@.len(),
            nv == nodes_view(nodes@),
            tree_shaped(nv),
            coll@ == "mediaCollection"@,
            meta@ == "mediaMetadata"@,
            items@.len() == media_positions(nv, i as int).len(),
            forall|k: int| 0 <= k < items@.len() ==> #[trigger] items@[k]@ == media_item(nv, media_positions(nv, i as int)[k]),
        decreases nodes.len() - i,
    {
        let ghost before = media_positions(nv, i as int);
        let is_coll = has_tag(&nodes, i, &coll);
        if is_coll || has_tag(&nodes, i, &meta) {
            let title = match text_of_exec(&nodes, i, "title") {
                Some(t) => from_chars(&t),
                None => String::new(),
            };
            let item = SmapiItem {
                id: from_chars(&attr(&nodes[i], "id")),
                title: title,
                item_type: if is_coll {
                    "container".to_string()
                } else {
                    "track".to_string()
                },
                artist: opt_string(text_of_exec(&nodes, i, "artist")),
                album: opt_string(text_of_exec(&nodes, i, "album")),
                album_art_uri: opt_string(text_of_exec(&nodes, i, "albumArtURI")),
                uri: opt_string(text_of_exec(&nodes, i, "uri")),
                description: opt_string(text_of_exec(&nodes, i, "description")),
                playback_metadata: None,
            };
            items.push(item);
            proof {
                assert(media_positions(nv, i + 1) == before.push(i as int));
            }
        } else {
            proof {
                assert(media_positions(nv, i + 1) == before);
            }
        }
        i = i + 1;
    }
    proof {
        let ps = media_positions(nv, nv.len() as int);
        assert(views(items@) =~= Seq::new(ps.len(), |k: int| media_item(nv, ps[k])));
    }
    items
}

/// The number that the last element `tag` with text among the first `hi` nodes holds, read
/// as a `u32` (0 where it is none); 0 where there is no such element.
pub open spec fn last_number(nodes: Seq<XmlNodeView>, tag: Seq<char>, hi: int) -> int
    decreases hi,
{
    if hi <= 0 {
        0
    } else {
        let prev = last_number(nodes, tag, hi - 1);
        if nodes[hi - 1].name == tag {
            match nodes[hi - 1].text {
                Some(t) => int_or(t, 0, 0xffff_ffff, 0),
                None => prev,
            }
        } else {
            prev
        }
    }
}

/// The paging numbers of an SMAPI answer: its `index` and `total`, 0 where it does not parse.
pub open spec fn page_numbers(xml: Seq<char>) -> (int, int) {
    match xml_parse(xml) {
        Err(_) => (0, 0),
        Ok(nodes) => (
            last_number(nodes, "index"@, nodes.len() as int),
            last_number(nodes, "total"@, nodes.len() as int),
        ),
    }
}

fn page_numbers_exec(xml: &str) -> (res: (u32, u32))
    ensures
        (res.0 as int, res.1 as int) == page_numbers(xml@),
{
    let nodes = match parse_xml(xml) {
        Ok(n) => n,
        Err(_) => return (0, 0),
    };
    let ghost nv = nodes_view(nodes@);
    let index_tag = to_chars("index");
    let total_tag = to_chars("total");
    let mut index: u32 = 0;
    let mut total: u32 = 0;
    let mut i: usize = 0;
    while i < nodes.len()
        invariant
            i <= nodes@.len(),
            nv == nodes_view(nodes@),
            index_tag@ == "index"@,
            total_tag@ == "total"@,
            index as int == last_number(nv, "index"@, i as int),
            total as int == last_number(nv, "total"@, i as int),
        decreases nodes.len() - i,
    {
        assert(nv[i as int] == nodes@[i as int]@);
        if has_tag(&nodes, i, &index_tag) {
            if let Some(t) = &nodes[i].text {
                index = match parse_u32(from_chars(t).as_str()) {
                    Ok(v) => v,
                    Err(_) => 0,
                };
            }
        }
        if has_tag(&nodes, i, &total_tag) {
            if let Some(t) = &nodes[i].text {
                total = match parse_u32(from_chars(t).as_str()) {
                    Ok(v) => v,
                    Err(_) => 0,
                };
            }
        }
        proof {
            reveal_strlit("index");
            reveal_strlit("total");
            assert("index"@ != "total"@) by {
                assert("index"@[0] != "total"@[0]);
            }
        }
        i = i + 1;
    }
    (index, total)
}

/// Reads a `getMetadata` answer: its items and paging numbers.
pub fn parse_browse_response(xml: &str) -> (res: SmapiBrowseResult)
    ensures
        views(res.items@) == media_items(xml@),
        (res.index as int, res.total as int) == page_numbers(xml@),
{
    let (index, total) = page_numbers_exec(xml);
    SmapiBrowseResult { items: parse_media_collection(xml), index, total }
}

/// Reads a `search` answer: its items and paging numbers.
pub fn parse_search_response(xml: &str) -> (res: SmapiSearchResult)
    ensures
        views(res.items@) == media_items(xml@),
        (res.index as int, res.total as int) == page_numbers(xml@),
{
    let (index, total) = page_numbers_exec(xml);
    SmapiSearchResult { items: parse_media_collection(xml), index, total }
}

/// The text of the first element `tag` (in document order) that has text.
pub open spec fn first_text_from(nodes: Seq<XmlNodeView>, tag: Seq<char>, from: int) -> Option<Seq<char>>
    decreases nodes.len() - from,
{
    if from < 0 || from >= nodes.len() {
        None
    } else if nodes[from].name == tag && nodes[from].text is Some {
        nodes[from].text
    } else {
        first_text_from(nodes, tag, from + 1)
    }
}

fn first_text_exec(nodes: &Vec<XmlNode>, tag: &str) -> (res: Option<Vec<char>>)
    ensures
        match res {
            Some(t) => first_text_from(nodes_view(nodes@), tag@, 0) == Some(t@),
            None => first_text_from(nodes_view(nodes@), tag@, 0) is None,
        },
{
    let ghost nv = nodes_view(nodes@);
    let tv = to_chars(tag);
    let mut i: usize = 0;
    while i < nodes.len()
        invariant
            i <= nodes@.len(),
            nv == nodes_view(nodes@),
            tv@ == tag@,
            first_text_from(nv, tag@, 0) == first_text_from(nv, tag@, i as int),
        decreases nodes.len() - i,
    {
        assert(nv[i as int] == nodes@[i as int]@);
        if has_tag(nodes, i, &tv) {
            if let Some(t) = &nodes[i].text {
                return Some(t.clone());
            }
        }
        i = i + 1;
    }
    None
}

/// What a `GetHouseholdID` answer yields: the first `CurrentHouseholdID` text, or a message.
pub open spec fn household_answer(resp: Seq<char>) -> Result<Seq<char>, Seq<char>> {
    match xml_parse(resp) {
        Err(e) => Err("Parse error: "@ + e),
        Ok(nodes) => match first_text_from(nodes, "CurrentHouseholdID"@, 0) {
            Some(t) => Ok(t),
            None => Err("HouseholdID not found"@),
        },
    }
}

fn prefixed(prefix: &str, s: &str) -> (res: String)
    ensures
        res@ == prefix@ + s@,
{
    let mut out: Vec<char> = Vec::new();
    push_str(&mut out, prefix);
    push_str(&mut out, s);
    from_chars(&out)
}

/// Reads the household ID out of a `GetHouseholdID` answer.
pub fn parse_household_id(resp: &str) -> (res: Result<String, String>)
    ensures
        match res {
            Ok(t) => household_answer(resp@) == Ok::<Seq<char>, Seq<char>>(t@),
            Err(e) => household_answer(resp@) == Err::<Seq<char>, Seq<char>>(e@),
        },
{
    let nodes = match parse_xml(resp) {
        Ok(n) => n,
        Err(e) => return Err(prefixed("Parse error: ", e.as_str())),
    };
    match first_text_exec(&nodes, "CurrentHouseholdID") {
        Some(t) => Ok(from_chars(&t)),
        None => Err("HouseholdID not found".to_string()),
    }
}

/// Checks a `getAppLink` answer: it is handed back as it is where it parses as XML.
pub fn check_app_link_response(resp: String) -> (res: Result<String, String>)
    ensures
        match res {
            Ok(t) => xml_parse(resp@) is Ok && t@ == resp@,
            Err(e) => xml_parse(resp@) matches Err(m) && e@ == "Parse error: "@ + m,
        },
{
    match parse_xml(resp.as_str()) {
        Ok(_) => Ok(resp),
        Err(e) => Err(prefixed("Parse error: ", e.as_str())),
    }
}

// ── Music service list ─────────────────────────────────────────────────

/// The pieces of `s` between commas, from position `start` (std's `str::split(',')`).
pub open spec fn split_commas_from(s: Seq<char>, start: int) -> Seq<Seq<char>>
    decreases s.len() + 1 - start,
{
    if start < 0 || start > s.len() {
        Seq::empty()
    } else {
        match crate::text::find_from(s, ","@, start) {
            None => seq![s.subrange(start, s.len() as int)],
            Some(p) => {
                proof {
                    lemma_find_from(s, ","@, start);
                    reveal_strlit(",");
                }
                seq![s.subrange(start, p)] + split_commas_from(s, p + 1)
            },
        }
    }
}

/// The service ID an entry of the type list encodes (the entry, trimmed, as a `u32`,
/// shifted right by 8 bits).
pub open spec fn piece_sid(piece: Seq<char>) -> Option<int> {
    match parse_int(trim(piece), 0, 0xffff_ffff) {
        Ok(v) => Some(v / 256),
        Err(_) => None,
    }
}

/// Service `id` is in the household's type list.
pub open spec fn sid_listed(type_list: Option<Seq<char>>, id: int) -> bool {
    match type_list {
        None => false,
        Some(tl) => {
            let pieces = split_commas_from(tl, 0);
            exists|k: int| 0 <= k < pieces.len() && #[trigger] piece_sid(pieces[k]) == Some(id)
        },
    }
}

/// The service that a `Service` node describes; its `Auth` is that of the first `Policy`
/// element within it, or empty.
pub open spec fn service_at(nodes: Seq<XmlNodeView>, i: int) -> MusicServiceView {
    MusicServiceView {
        id: int_or(attr_value(nodes[i], "Id"@), 0, 0xffff_ffff, 0) as u32,
        name: attr_value(nodes[i], "Name"@),
        uri: attr_value(nodes[i], "Uri"@),
        secure_uri: attr_value(nodes[i], "SecureUri"@),
        auth: match crate::xml::descendant_with_tag(nodes, i, "Policy"@) {
            Some(j) => attr_value(nodes[j], "Auth"@),
            None => Seq::empty(),
        },
        version: attr_value(nodes[i], "Version"@),
        container_type: attr_value(nodes[i], "ContainerType"@),
    }
}

/// The services among the first `hi` nodes that have a positive ID, a name, and an entry in
/// the type list, in document order.
pub open spec fn listed_services(nodes: Seq<XmlNodeView>, type_list: Option<Seq<char>>, hi: int) -> Seq<MusicServiceView>
    decreases hi,
{
    if hi <= 0 {
        Seq::empty()
    } else {
        let prev = listed_services(nodes, type_list, hi - 1);
        let sv = service_at(nodes, hi - 1);
        if nodes[hi - 1].name == "Service"@ && sv.id > 0 && sv.name.len() > 0 && sid_listed(type_list, sv.id as int) {
            prev.push(sv)
        } else {
            prev
        }
    }
}

/// `s` with `&lt;`, `&gt;`, `&quot;`, `&apos;` and `&amp;` replaced, one after the other in
/// that order.
pub open spec fn decode_descriptors(s: Seq<char>) -> Seq<char> {
    replaced(replaced(replaced(replaced(replaced(s, "&lt;"@, "<"@), "&gt;"@, ">"@), "&quot;"@, "\""@), "&apos;"@, "'"@), "&amp;"@, "&"@)
}

/// Decoding a descriptor list gives back any text that was escaped with `html_escape`:
/// the entities are decoded in an order that never decodes a character twice.
pub proof fn lemma_decode_descriptors_undoes_escape(s: Seq<char>)
    ensures
        decode_descriptors(html_escaped(s)) == s,
{
    lemma_decode_undoes_escape(s);
}

/// What a `ListAvailableServices` answer yields before sorting: the bound services of its
/// descriptor list, or a message.
pub open spec fn music_services_answer(resp: Seq<char>) -> Result<Seq<MusicServiceView>, Seq<char>> {
    match extracted(resp, "AvailableServiceDescriptorList"@) {
        None => Err("No AvailableServiceDescriptorList in response"@),
        Some(esc) => match xml_parse(decode_descriptors(esc)) {
            Err(e) => Err("Parse services XML error: "@ + e),
            Ok(nodes) => Ok(listed_services(nodes, extracted(resp, "AvailableServiceTypeList"@), nodes.len() as int)),
        },
    }
}

fn split_commas_exec(s: &Vec<char>) -> (res: Vec<Vec<char>>)
    ensures
        res@.map_values(|v: Vec<char>| v@) == split_commas_from(s@, 0),
{
    let comma = to_chars(",");
    let mut out: Vec<Vec<char>> = Vec::new();
    let mut start: usize = 0;
    let n = s.len();
    assert(out@.map_values(|v: Vec<char>| v@) + split_commas_from(s@, 0) =~= split_commas_from(s@, 0));
    loop
        invariant
            start <= n == s@.len(),
            comma@ == ","@,
            out@.map_values(|v: Vec<char>| v@) + split_commas_from(s@, start as int) == split_commas_from(s@, 0),
        decreases n - start,
    {
        let ghost o0 = out@.map_values(|v: Vec<char>| v@);
        match find_from_exec(s, &comma, start) {
            None => {
                out.push(slice_chars(s, start, n));
                assert(out@.map_values(|v: Vec<char>| v@) =~= o0 + split_commas_from(s@, start as int));
                return out;
            },
            Some(p) => {
                proof {
                    lemma_find_from(s@, ","@, start as int);
                    reveal_strlit(",");
                }
                out.push(slice_chars(s, start, p));
                assert(out@.map_values(|v: Vec<char>| v@) + split_commas_from(s@, p + 1) =~= o0 + split_commas_from(s@, start as int));
                start = p + 1;
            },
        }
    }
}

fn sid_listed_exec(pieces: &Vec<Vec<char>>, id: u32) -> (res: bool)
    ensures
        res == exists|k: int| 0 <= k < pieces@.len() && #[trigger] piece_sid(pieces@[k]@) == Some(id as int),
{
    let mut k: usize = 0;
    while k < pieces.len()
        invariant
            k <= pieces@.len(),
            forall|j: int| 0 <= j < k ==> #[trigger] piece_sid(pieces@[j]@) != Some(id as int),
        decreases pieces.len() - k,
    {
        let t = trim_chars(&pieces[k]);
        match parse_u32(from_chars(&t).as_str()) {
            Ok(v) => {
                if v / 256 == id {
                    assert(piece_sid(pieces@[k as int]@) == Some(id as int));
                    return true;
                }
            },
            Err(_) => {},
        }
        k = k + 1;
    }
    false
}

fn service_at_exec(nodes: &Vec<XmlNode>, i: usize) -> (res: MusicService)
    requires
        i < nodes@.len(),
        tree_shaped(nodes_view(nodes@)),
    ensures
        res@ == service_at(nodes_view(nodes@), i as int),
{
    let ghost nv = nodes_view(nodes@);
    let node = &nodes[i];
    assert(node@ == nv[i as int]);
    let id = match parse_u32(from_chars(&attr(node, "Id")).as_str()) {
        Ok(v) => v,
        Err(_) => 0,
    };
    assert(0 < nv[i as int].size && i + nv[i as int].size <= nv.len());
    assert(nv.len() == nodes.len());
    let end = i + node.size;
    let auth = match first_with_tag_exec_pub(nodes, i, end, "Policy") {
        Some(j) => from_chars(&attr(&nodes[j], "Auth")),
        None => String::new(),
    };
    MusicService {
        id: id,
        name: from_chars(&attr(node, "Name")),
        uri: from_chars(&attr(node, "Uri")),
        secure_uri: from_chars(&attr(node, "SecureUri")),
        auth: auth,
        version: from_chars(&attr(node, "Version")),
        container_type: from_chars(&attr(node, "ContainerType")),
    }
}

fn first_with_tag_exec_pub(nodes: &Vec<XmlNode>, lo: usize, hi: usize, tag: &str) -> (res: Option<usize>)
    requires
        hi <= nodes@.len(),
    ensures
        res matches Some(j) ==> crate::xml::first_with_tag(nodes_view(nodes@), lo as int, hi as int, tag@) == Some(j as int) && j < nodes@.len(),
        res is None ==> crate::xml::first_with_tag(nodes_view(nodes@), lo as int, hi as int, tag@) is None,
{
    let r = crate::xml::first_with_tag_exec(nodes, lo, hi, &to_chars(tag));
    proof {
        crate::xml::lemma_first_with_tag_range(nodes_view(nodes@), lo as int, hi as int, tag@);
    }
    r
}

/// Replaces `&lt;`, `&gt;`, `&quot;`, `&apos;` and `&amp;`, one after the other.
pub fn decode_descriptors_exec(s: &str) -> (res: String)
    ensures
        res@ == decode_descriptors(s@),
{
    proof {
        reveal_strlit("&lt;");
        reveal_strlit("&gt;");
        reveal_strlit("&quot;");
        reveal_strlit("&apos;");
        reveal_strlit("&amp;");
    }
    let a = replace_str(s, "&lt;", "<");
    let b = replace_str(a.as_str(), "&gt;", ">");
    let c = replace_str(b.as_str(), "&quot;", "\"");
    let d = replace_str(c.as_str(), "&apos;", "'");
    replace_str(d.as_str(), "&amp;", "&")
}

/// Reads the music services that the household has accounts with out of a
/// `ListAvailableServices` answer, sorted by name (stably).
pub fn parse_music_services(resp: &str) -> (res: Result<Vec<MusicService>, String>)
    ensures
        match res {
            Ok(v) => music_services_answer(resp@) matches Ok(list) && stable_sort_of::<MusicService>(views(v@), list),
            Err(e) => music_services_answer(resp@) == Err::<Seq<MusicServiceView>, Seq<char>>(e@),
        },
{
    let type_list = extract(resp, "AvailableServiceTypeList");
    let ghost tl = opt_view(type_list);
    let pieces: Vec<Vec<char>> = match &type_list {
        Some(t) => split_commas_exec(&to_chars(t.as_str())),
        None => Vec::new(),
    };
    let escaped = match extract(resp, "AvailableServiceDescriptorList") {
        Some(e) => e,
        None => return Err("No AvailableServiceDescriptorList in response".to_string()),
    };
    let decoded = decode_descriptors_exec(escaped.as_str());
    let nodes = match parse_xml(decoded.as_str()) {
        Ok(n) => n,
        Err(e) => return Err(prefixed("Parse services XML error: ", e.as_str())),
    };
    let ghost nv = nodes_view(nodes@);
    let service_tag = to_chars("Service");
    let mut services: Vec<MusicService> = Vec::new();
    let mut i: usize = 0;
    assert(views(services@) =~= listed_services(nv, tl, 0));
    while i < nodes.len()
        invariant
            i <= nodes@.len(),
            nv == nodes_view(nodes@),
            tree_shaped(nv),
            service_tag@ == "Service"@,
            tl == opt_view(type_list),
            type_list is None ==> pieces@.len() == 0,
            type_list matches Some(t) ==> pieces@.map_values(|v: Vec<char>| v@) == split_commas_from(t@, 0),
            views(services@) == listed_services(nv, tl, i as int),
        decreases nodes.len() - i,
    {
        let ghost s0 = views(services@);
        if has_tag(&nodes, i, &service_tag) {
            let sv = service_at_exec(&nodes, i);
            let listed = sid_listed_exec(&pieces, sv.id);
            proof {
                let ps = pieces@.map_values(|v: Vec<char>| v@);
                if listed {
                    let k = choose|k: int| 0 <= k < pieces@.len() && #[trigger] piece_sid(pieces@[k]@) == Some(sv.id as int);
                    assert(ps[k] == pieces@[k]@);
                }
                if sid_listed(tl, sv.id as int) {
                    let t = tl.unwrap();
                    let k = choose|k: int| 0 <= k < ps.len() && #[trigger] piece_sid(ps[k]) == Some(sv.id as int);
                    assert(ps[k] == pieces@[k]@);
                }
            }
            if sv.id > 0 && !sv.name.as_str().is_empty() && listed {
                services.push(sv);
                assert(views(services@) =~= s0.push(sv@));
            }
        }
        i = i + 1;
    }
    Ok(stable_sort_by_key(services))
}

// ── SMAPI answers ──────────────────────────────────────────────────────

/// The smaller of two integers.
pub open spec fn min_int(a: int, b: int) -> int {
    if a <= b {
        a
    } else {
        b
    }
}

/// The byte bounds of a SOAP fault's code and string, given where `<faultcode>` starts: the
/// end of the code (`</faultcode>`, else 50 bytes on), the start of `<faultstring>` (else the
/// code's start) and the end of the string (`</faultstring>`, else 100 bytes on).
pub open spec fn fault_bounds(t: Seq<char>, cs: int) -> (int, int, int) {
    let ce = match byte_find(t, "</faultcode>"@) {
        Some(x) => x,
        None => cs + 50,
    };
    let fs = match byte_find(t, "<faultstring>"@) {
        Some(x) => x,
        None => cs,
    };
    let fe = match byte_find(t, "</faultstring>"@) {
        Some(x) => x,
        None => fs + 100,
    };
    (ce, fs, fe)
}

/// The answer looks like JSON: its first non-whitespace character is `{`.
pub open spec fn json_like(t: Seq<char>) -> bool {
    starts_with(trim_start(t), "{"@)
}

/// The slices that reading an SMAPI answer takes are defined. A JSON answer is quoted from
/// its `errorMessage` (200 bytes) or from its start (200 bytes); a SOAP fault is quoted from
/// 12 bytes after `<faultcode>` and 13 bytes after `<faultstring>`.
pub open spec fn smapi_answer_defined(t: Seq<char>) -> bool {
    if json_like(t) {
        match byte_find(t, "errorMessage"@) {
            Some(m) => sliceable(t, m, min_int(byte_len(t), m + 200)),
            None => sliceable(t, 0, min_int(byte_len(t), 200)),
        }
    } else if contains(t, "<faultstring>"@) {
        match byte_find(t, "<faultcode>"@) {
            Some(cs) => {
                let (ce, fs, fe) = fault_bounds(t, cs);
                sliceable(t, cs + 12, ce) && sliceable(t, fs + 13, fe)
            },
            None => true,
        }
    } else {
        true
    }
}

/// What an SMAPI answer yields: a service error (JSON with `errorMessage`), a non-XML answer
/// (other JSON), a SOAP fault (where it has `<faultstring>` and `<faultcode>`), or the answer.
pub open spec fn smapi_answer(t: Seq<char>) -> Result<Seq<char>, Seq<char>> {
    if json_like(t) {
        match byte_find(t, "errorMessage"@) {
            Some(m) => Err("Service error: "@ + byte_slice(t, m, min_int(byte_len(t), m + 200))),
            None => Err("Non-XML response: "@ + byte_slice(t, 0, min_int(byte_len(t), 200))),
        }
    } else if contains(t, "<faultstring>"@) {
        match byte_find(t, "<faultcode>"@) {
            Some(cs) => {
                let (ce, fs, fe) = fault_bounds(t, cs);
                Err("SOAP fault: "@ + byte_slice(t, cs + 12, ce) + " - "@ + byte_slice(t, fs + 13, fe))
            },
            None => Ok(t),
        }
    } else {
        Ok(t)
    }
}

fn json_like_exec(text: &str) -> (res: bool)
    ensures
        res == json_like(text@),
{
    let t = trim_start_chars(&to_chars(text));
    starts_with_exec(&t, &to_chars("{"))
}

fn min_bound(len: usize, start: usize, span: usize) -> (res: usize)
    requires
        start <= len,
    ensures
        res == min_int(len as int, start + span),
{
    if len - start < span {
        len
    } else {
        start + span
    }
}

fn fault_bounds_exec(text: &str, cs: usize) -> (res: (Option<usize>, Option<usize>, Option<usize>))
    ensures
        match res {
            (Some(ce), Some(fs), Some(fe)) => fault_bounds(text@, cs as int) == (ce as int, fs as int, fe as int),
            _ => fault_bounds(text@, cs as int).0 > usize::MAX || fault_bounds(text@, cs as int).2 > usize::MAX,
        },
{
    let ce = match byte_find_exec(text, "</faultcode>") {
        Some(x) => Some(x),
        None => cs.checked_add(50),
    };
    let fs = match byte_find_exec(text, "<faultstring>") {
        Some(x) => x,
        None => cs,
    };
    let fe = match byte_find_exec(text, "</faultstring>") {
        Some(x) => Some(x),
        None => fs.checked_add(100),
    };
    (ce, Some(fs), fe)
}

/// Whether reading an SMAPI answer is defined (see `smapi_answer_defined`).
pub fn smapi_answer_is_defined(text: &str) -> (res: bool)
    ensures
        res == smapi_answer_defined(text@),
{
    let len = byte_len_exec(text);
    if json_like_exec(text) {
        match byte_find_exec(text, "errorMessage") {
            Some(m) => sliceable_exec(text, m, min_bound(len, m, 200)),
            None => sliceable_exec(text, 0, min_bound(len, 0, 200)),
        }
    } else if contains_exec(&to_chars(text), &to_chars("<faultstring>")) {
        match byte_find_exec(text, "<faultcode>") {
            Some(cs) => match fault_bounds_exec(text, cs) {
                (Some(ce), Some(fs), Some(fe)) => {
                    let c = cs.checked_add(12);
                    let f = fs.checked_add(13);
                    match (c, f) {
                        (Some(c), Some(f)) => sliceable_exec(text, c, ce) && sliceable_exec(text, f, fe),
                        _ => false,
                    }
                },
                _ => false,
            },
            None => true,
        }
    } else {
        true
    }
}

fn concat3(a: &str, b: &str, c: &str) -> (res: String)
    ensures
        res@ == a@ + b@ + c@,
{
    let mut out: Vec<char> = Vec::new();
    push_str(&mut out, a);
    push_str(&mut out, b);
    push_str(&mut out, c);
    assert(out@ =~= a@ + b@ + c@);
    from_chars(&out)
}

/// Checks an SMAPI answer for a service error, a non-XML answer or a SOAP fault.
pub fn check_smapi_response(text: String) -> (res: Result<String, String>)
    requires
        smapi_answer_defined(text@),
    ensures
        match res {
            Ok(t) => smapi_answer(text@) == Ok::<Seq<char>, Seq<char>>(t@),
            Err(e) => smapi_answer(text@) == Err::<Seq<char>, Seq<char>>(e@),
        },
{
    let len = byte_len_exec(text.as_str());
    if json_like_exec(text.as_str()) {
        return match byte_find_exec(text.as_str(), "errorMessage") {
            Some(m) => Err(prefixed("Service error: ", byte_slice_exec(text.as_str(), m, min_bound(len, m, 200)).as_str())),
            None => Err(prefixed("Non-XML response: ", byte_slice_exec(text.as_str(), 0, min_bound(len, 0, 200)).as_str())),
        };
    }
    if contains_exec(&to_chars(text.as_str()), &to_chars("<faultstring>")) {
        if let Some(cs) = byte_find_exec(text.as_str(), "<faultcode>") {
            let (ce, fs, fe) = fault_bounds_exec(text.as_str(), cs);
            let ce = ce.unwrap();
            let fs = fs.unwrap();
            let fe = fe.unwrap();
            let code = byte_slice_exec(text.as_str(), cs + 12, ce);
            let fault = byte_slice_exec(text.as_str(), fs + 13, fe);
            let mut out: Vec<char> = Vec::new();
            push_str(&mut out, "SOAP fault: ");
            push_str(&mut out, code.as_str());
            push_str(&mut out, " - ");
            push_str(&mut out, fault.as_str());
            assert(out@ =~= "SOAP fault: "@ + code@ + " - "@ + fault@);
            return Err(from_chars(&out));
        }
    }
    Ok(text)
}

/// Reading a `getDeviceAuthToken` answer is defined: where it parses and holds no token, the
/// first 200 bytes that the message quotes end on a character boundary.
pub open spec fn auth_token_answer_defined(resp: Seq<char>) -> bool {
    match xml_parse(resp) {
        Ok(nodes) => first_text_from(nodes, "authToken"@, 0) is None ==> sliceable(resp, 0, min_int(byte_len(resp), 200)),
        Err(_) => true,
    }
}

/// What a `getDeviceAuthToken` answer yields: the first `authToken` text, or a message.
pub open spec fn auth_token_answer(resp: Seq<char>) -> Result<Seq<char>, Seq<char>> {
    match xml_parse(resp) {
        Err(e) => Err("Parse error: "@ + e),
        Ok(nodes) => match first_text_from(nodes, "authToken"@, 0) {
            Some(t) => Ok(t),
            None => Err("No authToken in response: "@ + byte_slice(resp, 0, min_int(byte_len(resp), 200))),
        },
    }
}

/// Whether reading a `getDeviceAuthToken` answer is defined.
pub fn auth_token_answer_is_defined(resp: &str) -> (res: bool)
    ensures
        res == auth_token_answer_defined(resp@),
{
    match parse_xml(resp) {
        Err(_) => true,
        Ok(nodes) => match first_text_exec(&nodes, "authToken") {
            Some(_) => true,
            None => sliceable_exec(resp, 0, min_bound(byte_len_exec(resp), 0, 200)),
        },
    }
}

/// Reads the token out of a `getDeviceAuthToken` answer.
pub fn parse_device_auth_token(resp: &str) -> (res: Result<String, String>)
    requires
        auth_token_answer_defined(resp@),
    ensures
        match res {
            Ok(t) => auth_token_answer(resp@) == Ok::<Seq<char>, Seq<char>>(t@),
            Err(e) => auth_token_answer(resp@) == Err::<Seq<char>, Seq<char>>(e@),
        },
{
    let nodes = match parse_xml(resp) {
        Ok(n) => n,
        Err(e) => return Err(prefixed("Parse error: ", e.as_str())),
    };
    match first_text_exec(&nodes, "authToken") {
        Some(t) => Ok(from_chars(&t)),
        None => {
            let head = byte_slice_exec(resp, 0, min_bound(byte_len_exec(resp), 0, 200));
            Err(prefixed("No authToken in response: ", head.as_str()))
        },
    }
}

/// Reads the token out of a `getDeviceAuthToken` answer where that is defined: `None` where
/// the answer holds no token and its first 200 bytes end inside a character, which leaves
/// the error message without a defined text.
pub fn device_auth_token_checked(resp: &str) -> (res: Option<Result<String, String>>)
    ensures
        match res {
            None => !auth_token_answer_defined(resp@),
            Some(Ok(t)) => auth_token_answer_defined(resp@) && auth_token_answer(resp@) == Ok::<Seq<char>, Seq<char>>(t@),
            Some(Err(e)) => auth_token_answer_defined(resp@) && auth_token_answer(resp@) == Err::<Seq<char>, Seq<char>>(e@),
        },
{
    if auth_token_answer_is_defined(resp) {
        Some(parse_device_auth_token(resp))
    } else {
        None
    }
}

// ── QQ Music ───────────────────────────────────────────────────────────

/// The search address of QQ Music's web API for `term`, at most `count` songs.
pub open spec fn qq_search_url_spec(term: Seq<char>, count: u32) -> Seq<char> {
    "https://c.y.qq.com/soso/fcgi-bin/client_search_cp?w="@ + percent_encoded(encode_utf8(term))
        + "&format=json&p=1&n="@ + decimal(count as nat)
}

/// Builds the search address of QQ Music's web API.
pub fn qq_search_url(term: &str, count: u32) -> (res: String)
    ensures
        res@ == qq_search_url_spec(term@, count),
{
    let mut out: Vec<char> = Vec::new();
    push_str(&mut out, "https://c.y.qq.com/soso/fcgi-bin/client_search_cp?w=");
    push_str(&mut out, url_encode(term).as_str());
    push_str(&mut out, "&format=json&p=1&n=");
    push_decimal(&mut out, count as u64);
    assert(out@ =~= "https://c.y.qq.com/soso/fcgi-bin/client_search_cp?w="@ + percent_encoded(encode_utf8(term@))
        + "&format=json&p=1&n="@ + decimal(count as nat));
    from_chars(&out)
}

/// A song of a QQ Music search answer, as its JSON gives it (missing numbers as 0, missing
/// strings as empty; the artist is the first singer's name).
#[derive(Debug, Clone)]
pub struct QqSong {
    pub song_id: u64,
    pub title: String,
    pub artist: String,
    pub album: String,
    pub album_id: u64,
}

pub struct QqSongView {
    pub song_id: u64,
    pub title: Seq<char>,
    pub artist: Seq<char>,
    pub album: Seq<char>,
    pub album_id: u64,
}

impl View for QqSong {
    type V = QqSongView;

    open spec fn view(&self) -> QqSongView {
        QqSongView {
            song_id: self.song_id,
            title: self.title@,
            artist: self.artist@,
            album: self.album@,
            album_id: self.album_id,
        }
    }
}

pub const QQ_DIDL_OPEN: &'static str = r#"<DIDL-Lite xmlns:dc="http://purl.org/dc/elements/1.1/" xmlns:upnp="urn:schemas-upnp-org:metadata-1-0/upnp/" xmlns:r="urn:schemas-rinconnetworks-com:metadata-1-0/" xmlns="urn:schemas-upnp-org:metadata-1-0/DIDL-Lite/"><item id="10032020SONG%3a"#;

pub const QQ_DIDL_MIDDLE: &'static str = r#"%3aSQ" parentID="00032020SONG%3a"#;

pub const QQ_DIDL_CLOSE: &'static str = r#"%3aSQ" restricted="true"><upnp:class>object.item.audioItem.musicTrack</upnp:class><desc id="cdudn" nameSpace="urn:schemas-rinconnetworks-com:metadata-1-0/">SA_RINCON5895_X_#Svc5895-0-Token</desc></item></DIDL-Lite>"#;

/// The playable item of a song: a Sonos `x-sonos-http` URI for the song, the album's cover
/// (where the album is known), and the DIDL-Lite metadata that carries the speaker-stored
/// credentials.
pub open spec fn qq_item(s: QqSongView) -> SmapiItemView {
    let id = decimal(s.song_id as nat);
    SmapiItemView {
        id: "SONG:"@ + id,
        title: s.title,
        item_type: "track"@,
        artist: Some(s.artist),
        album: Some(s.album),
        album_art_uri: Some(
            if s.album_id > 0 {
                "https://imgcache.qq.com/music/photo/album_300/"@ + decimal((s.album_id % 100) as nat)
                    + "/300_albumpic_"@ + decimal(s.album_id as nat) + "_0.jpg"@
            } else {
                Seq::empty()
            },
        ),
        uri: Some("x-sonos-http:SONG%3a"@ + id + "%3aSQ.flac?sid=23&flags=8232&sn=7"@),
        description: None,
        playback_metadata: Some(QQ_DIDL_OPEN@ + id + QQ_DIDL_MIDDLE@ + id + QQ_DIDL_CLOSE@),
    }
}

/// The songs worth listing: those with an ID and a title.
pub open spec fn qq_playable(s: QqSongView) -> bool {
    s.song_id != 0 && s.title.len() > 0
}

/// The items of the playable songs, in order.
pub open spec fn qq_items_spec(songs: Seq<QqSongView>) -> Seq<SmapiItemView>
    decreases songs.len(),
{
    if songs.len() == 0 {
        Seq::empty()
    } else {
        let prev = qq_items_spec(songs.drop_last());
        if qq_playable(songs.last()) {
            prev.push(qq_item(songs.last()))
        } else {
            prev
        }
    }
}

fn qq_item_exec(s: &QqSong) -> (res: SmapiItem)
    ensures
        res@ == qq_item(s@),
{
    let mut id: Vec<char> = Vec::new();
    push_decimal(&mut id, s.song_id);
    let ids = from_chars(&id);
    let mut art: Vec<char> = Vec::new();
    if s.album_id > 0 {
        push_str(&mut art, "https://imgcache.qq.com/music/photo/album_300/");
        push_decimal(&mut art, s.album_id % 100);
        push_str(&mut art, "/300_albumpic_");
        push_decimal(&mut art, s.album_id);
        push_str(&mut art, "_0.jpg");
    }
    let mut meta: Vec<char> = Vec::new();
    push_str(&mut meta, QQ_DIDL_OPEN);
    push_all(&mut meta, &id);
    push_str(&mut meta, QQ_DIDL_MIDDLE);
    push_all(&mut meta, &id);
    push_str(&mut meta, QQ_DIDL_CLOSE);
    let item = SmapiItem {
        id: prefixed("SONG:", ids.as_str()),
        title: s.title.clone(),
        item_type: "track".to_string(),
        artist: Some(s.artist.clone()),
        album: Some(s.album.clone()),
        album_art_uri: Some(from_chars(&art)),
        uri: Some(concat3("x-sonos-http:SONG%3a", ids.as_str(), "%3aSQ.flac?sid=23&flags=8232&sn=7")),
        description: None,
        playback_metadata: Some(from_chars(&meta)),
    };
    proof {
        let idv = decimal(s.song_id as nat);
        assert(meta@ =~= QQ_DIDL_OPEN@ + idv + QQ_DIDL_MIDDLE@ + idv + QQ_DIDL_CLOSE@);
        if s.album_id > 0 {
            assert(art@ =~= "https://imgcache.qq.com/music/photo/album_300/"@ + decimal((s.album_id % 100) as nat)
                + "/300_albumpic_"@ + decimal(s.album_id as nat) + "_0.jpg"@);
        } else {
            assert(art@ =~= Seq::<char>::empty());
        }
    }
    item
}

/// The items of a QQ Music search answer: `None` (no song list in the answer) is an error;
/// otherwise one track per song with an ID and a title, in order.
pub fn qq_items(songs: Option<Vec<QqSong>>) -> (res: Result<Vec<SmapiItem>, String>)
    ensures
        match res {
            Ok(items) => songs matches Some(s) && views(items@) == qq_items_spec(views(s@)),
            Err(e) => songs is None && e@ == "No song list in QQ Music response"@,
        },
{
    let songs = match songs {
        Some(s) => s,
        None => return Err("No song list in QQ Music response".to_string()),
    };
    let mut items: Vec<SmapiItem> = Vec::new();
    let mut i: usize = 0;
    assert(views(items@) =~= qq_items_spec(views(songs@.take(0))));
    while i < songs.len()
        invariant
            i <= songs@.len(),
            views(items@) == qq_items_spec(views(songs@.take(i as int))),
        decreases songs.len() - i,
    {
        let ghost before = views(items@);
        let s = &songs[i];
        proof {
            assert(views(songs@.take(i + 1)).drop_last() =~= views(songs@.take(i as int)));
            assert(views(songs@.take(i + 1)).last() == songs@[i as int]@);
        }
        if s.song_id != 0 && !s.title.as_str().is_empty() {
            let item = qq_item_exec(s);
            items.push(item);
            assert(views(items@) =~= before.push(item@));
        }
        i = i + 1;
    }
    assert(songs@.take(songs@.len() as int) =~= songs@);
    Ok(items)
}

/// A song of a QQ Music search answer, read as the answer gives it: `songid`, `songname`,
/// the first singer's `name`, `albumname` and `albumid`, a missing number as 0 and a
/// missing string as empty.
pub open spec fn qq_song_of(song: JsonValueView) -> QqSongView {
    QqSongView {
        song_id: json_u64_or_zero(json_field(song, "songid"@)),
        title: json_str_or_empty(json_field(song, "songname"@)),
        artist: json_str_or_empty(json_field(json_item(json_field(song, "singer"@), 0), "name"@)),
        album: json_str_or_empty(json_field(song, "albumname"@)),
        album_id: json_u64_or_zero(json_field(song, "albumid"@)),
    }
}

/// The songs of a QQ Music search answer: those of its `data.song.list` array, in order, or
/// `None` where that is no array.
pub open spec fn qq_songs_spec(v: JsonValueView) -> Option<Seq<QqSongView>> {
    match json_field(json_field(json_field(v, "data"@), "song"@), "list"@) {
        JsonValueView::Array(list) => Some(Seq::new(list.len(), |i: int| qq_song_of(list[i]))),
        _ => None,
    }
}

/// The plain value of a list that may be missing.
pub open spec fn opt_views<T: View>(o: Option<Vec<T>>) -> Option<Seq<T::V>> {
    match o {
        Some(v) => Some(views(v@)),
        None => None,
    }
}

fn qq_song_exec(song: &JsonValue) -> (res: QqSong)
    ensures
        res@ == qq_song_of(song@),
{
    let s = Some(song);
    let singer = json_item_exec(json_field_exec(s, "singer"), 0);
    QqSong {
        song_id: json_u64_exec(json_field_exec(s, "songid")),
        title: json_str_exec(json_field_exec(s, "songname")),
        artist: json_str_exec(json_field_exec(singer, "name")),
        album: json_str_exec(json_field_exec(s, "albumname")),
        album_id: json_u64_exec(json_field_exec(s, "albumid")),
    }
}

/// Reads the songs out of a parsed QQ Music search answer.
pub fn qq_songs(v: &JsonValue) -> (res: Option<Vec<QqSong>>)
    ensures
        opt_views(res) == qq_songs_spec(v@),
{
    let data = json_field_exec(Some(v), "data");
    let song = json_field_exec(data, "song");
    let list = json_field_exec(song, "list");
    match list {
        Some(JsonValue::Array(items)) => {
            let ghost lv = json_or_null(list)->Array_0;
            let mut out: Vec<QqSong> = Vec::new();
            let mut i: usize = 0;
            while i < items.len()
                invariant
                    i <= items@.len(),
                    lv.len() == items@.len(),
                    forall|j: int| 0 <= j < items@.len() ==> #[trigger] lv[j] == items@[j]@,
                    views(out@) == Seq::new(i as nat, |j: int| qq_song_of(lv[j])),
                decreases items.len() - i,
            {
                let ghost before = views(out@);
                let song_i = qq_song_exec(&items[i]);
                assert(song_i@ == qq_song_of(items@[i as int]@));
                out.push(song_i);
                assert(lv[i as int] == items@[i as int]@);
                assert(views(out@) =~= before.push(song_i@));
                assert(views(out@) =~= Seq::new((i + 1) as nat, |j: int| qq_song_of(lv[j])));
                i = i + 1;
            }
            assert(Seq::new(lv.len(), |j: int| qq_song_of(lv[j])) =~= Seq::new(i as nat, |j: int| qq_song_of(lv[j])));
            Some(out)
        },
        _ => None,
    }
}

/// Reads a QQ Music search answer: its JSON parse error, the absence of a song list, or the
/// items of its playable songs.
pub fn qq_answer_items(text: &str) -> (res: Result<Vec<SmapiItem>, String>)
    ensures
        match json_parse(text@) {
            Err(e) => res matches Err(m) && m@ == "QQ Music JSON parse error: "@ + e,
            Ok(v) => match qq_songs_spec(v) {
                None => res matches Err(m) && m@ == "No song list in QQ Music response"@,
                Some(s) => res matches Ok(items) && views(items@) == qq_items_spec(s),
            },
        },
{
    let v = match parse_json(text) {
        Ok(v) => v,
        Err(e) => return Err(prefixed("QQ Music JSON parse error: ", e.as_str())),
    };
    qq_items(qq_songs(&v))
}

} // verus!
