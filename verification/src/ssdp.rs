use vstd::prelude::*;
use crate::text::{
    from_utf8_lossy, utf8_lossy,
    lowercase, to_lowercase, trim, trim_chars,
    html_escape, html_escaped, push_all,
    decimal, push_decimal, push_str,
    contains, contains_exec, replace_str, replaced, find, find_from, matches_at, find_from_exec, from_chars, lemma_find_from, slice_chars, starts_with, starts_with_exec,
    to_chars, lex_lt,
};
use crate::soap::{
    device_url, device_url_exec, make_request, upnp_action, upnp_action_exec, xml_content_type,
    SoapRequest, SoapRequestView, SoapStep, SoapStepView,
};
use crate::regexes::{regex_capture, regex_capture_group};
use crate::sort::{stable_sort_by_key, stable_sort_of, views};
use crate::urls::{parse_url, url_parse};
use crate::xml::{
    child_with_tag, child_with_tag_exec, attr, attr_value, eq_chars, has_tag, text_of, text_of_exec, XmlNode, nodes_view, parse_xml, positions_with_tag, text_or_empty, text_or_empty_exec,
    tree_shaped, xml_parse, XmlNodeView, node_end,
};

verus! {

/// The plain value of an optional string.
pub open spec fn opt_view(o: Option<String>) -> Option<Seq<char>> {
    match o {
        Some(s) => Some(s@),
        None => None,
    }
}

/// `Some(s)` where `s` is not empty, else `None` (`Some(s).filter(|u| !u.is_empty())`).
pub open spec fn non_empty(s: Seq<char>) -> Option<Seq<char>> {
    if s.len() == 0 {
        None
    } else {
        Some(s)
    }
}

fn non_empty_string(v: Vec<char>) -> (res: Option<String>)
    ensures
        opt_view(res) == non_empty(v@),
{
    if v.len() == 0 {
        None
    } else {
        Some(from_chars(&v))
    }
}

// ── Data ───────────────────────────────────────────────────────────────

/// A Sonos device discovered via SSDP.
#[derive(Debug, Clone)]
pub struct SonosDevice {
    pub ip: String,
    pub port: u16,
    pub name: String,
    pub model: String,
    pub model_number: String,
    pub serial: String,
    pub firmware: String,
    pub room_name: String,
    pub icon_url: Option<String>,
    pub uid: String,
}

pub struct SonosDeviceView {
    pub ip: Seq<char>,
    pub port: u16,
    pub name: Seq<char>,
    pub model: Seq<char>,
    pub model_number: Seq<char>,
    pub serial: Seq<char>,
    pub firmware: Seq<char>,
    pub room_name: Seq<char>,
    pub icon_url: Option<Seq<char>>,
    pub uid: Seq<char>,
}

impl View for SonosDevice {
    type V = SonosDeviceView;

    open spec fn view(&self) -> SonosDeviceView {
        SonosDeviceView {
            ip: self.ip@,
            port: self.port,
            name: self.name@,
            model: self.model@,
            model_number: self.model_number@,
            serial: self.serial@,
            firmware: self.firmware@,
            room_name: self.room_name@,
            icon_url: opt_view(self.icon_url),
            uid: self.uid@,
        }
    }
}

/// A zone group: speakers playing together.
#[derive(Debug, Clone)]
pub struct ZoneGroup {
    pub coordinator_ip: String,
    pub coordinator_name: String,
    pub coordinator_uid: String,
    pub id: String,
    pub members: Vec<ZoneGroupMember>,
    /// IPs of invisible (stereo pair slave) members, not shown in members list
    pub hidden_ips: Vec<String>,
}

/// A visible member of a zone group.
#[derive(Debug, Clone)]
pub struct ZoneGroupMember {
    pub ip: String,
    pub name: String,
    pub room_name: String,
    pub uid: String,
    pub icon_url: Option<String>,
    pub is_coordinator: bool,
    pub is_invisible: bool,
}

pub struct ZoneGroupMemberView {
    pub ip: Seq<char>,
    pub name: Seq<char>,
    pub room_name: Seq<char>,
    pub uid: Seq<char>,
    pub icon_url: Option<Seq<char>>,
    pub is_coordinator: bool,
    pub is_invisible: bool,
}

impl View for ZoneGroupMember {
    type V = ZoneGroupMemberView;

    open spec fn view(&self) -> ZoneGroupMemberView {
        ZoneGroupMemberView {
            ip: self.ip@,
            name: self.name@,
            room_name: self.room_name@,
            uid: self.uid@,
            icon_url: opt_view(self.icon_url),
            is_coordinator: self.is_coordinator,
            is_invisible: self.is_invisible,
        }
    }
}

pub struct ZoneGroupView {
    pub coordinator_ip: Seq<char>,
    pub coordinator_name: Seq<char>,
    pub coordinator_uid: Seq<char>,
    pub id: Seq<char>,
    pub members: Seq<ZoneGroupMemberView>,
    pub hidden_ips: Seq<Seq<char>>,
}

impl View for ZoneGroup {
    type V = ZoneGroupView;

    open spec fn view(&self) -> ZoneGroupView {
        ZoneGroupView {
            coordinator_ip: self.coordinator_ip@,
            coordinator_name: self.coordinator_name@,
            coordinator_uid: self.coordinator_uid@,
            id: self.id@,
            members: self.members@.map_values(|m: ZoneGroupMember| m@),
            hidden_ips: self.hidden_ips@.map_values(|s: String| s@),
        }
    }
}

/// An entry of the play queue.
#[derive(Debug, Clone)]
pub struct QueueItem {
    pub title: String,
    pub artist: String,
    pub album: String,
    pub album_art_uri: String,
    pub uri: String,
    pub duration: String,
    pub track_number: u32,
}

pub struct QueueItemView {
    pub title: Seq<char>,
    pub artist: Seq<char>,
    pub album: Seq<char>,
    pub album_art_uri: Seq<char>,
    pub uri: Seq<char>,
    pub duration: Seq<char>,
    pub track_number: u32,
}

impl View for QueueItem {
    type V = QueueItemView;

    open spec fn view(&self) -> QueueItemView {
        QueueItemView {
            title: self.title@,
            artist: self.artist@,
            album: self.album@,
            album_art_uri: self.album_art_uri@,
            uri: self.uri@,
            duration: self.duration@,
            track_number: self.track_number,
        }
    }
}

/// An entry of a ContentDirectory listing.
#[derive(Debug, Clone)]
pub struct BrowserItem {
    pub title: String,
    pub uri: Option<String>,
    pub object_id: String,
    pub is_container: bool,
    pub album_art_uri: Option<String>,
    pub description: Option<String>,
}

pub struct BrowserItemView {
    pub title: Seq<char>,
    pub uri: Option<Seq<char>>,
    pub object_id: Seq<char>,
    pub is_container: bool,
    pub album_art_uri: Option<Seq<char>>,
    pub description: Option<Seq<char>>,
}

impl View for BrowserItem {
    type V = BrowserItemView;

    open spec fn view(&self) -> BrowserItemView {
        BrowserItemView {
            title: self.title@,
            uri: opt_view(self.uri),
            object_id: self.object_id@,
            is_container: self.is_container,
            album_art_uri: opt_view(self.album_art_uri),
            description: opt_view(self.description),
        }
    }
}

// ── DIDL-Lite listings ─────────────────────────────────────────────────

/// The text after the first occurrence of `pat` (the second half of `str::split_once`).
pub open spec fn after_first(s: Seq<char>, pat: Seq<char>) -> Option<Seq<char>> {
    match find(s, pat) {
        Some(p) => Some(s.skip(p + pat.len())),
        None => None,
    }
}

/// The text before the first occurrence of `pat` (the first half of `str::split_once`).
pub open spec fn before_first(s: Seq<char>, pat: Seq<char>) -> Option<Seq<char>> {
    match find(s, pat) {
        Some(p) => Some(s.take(p)),
        None => None,
    }
}

/// The value of a `duration="..."` found in `res`: the text between the first two quotes
/// after the first `duration=`, or the empty string.
pub open spec fn duration_in(res: Seq<char>) -> Seq<char> {
    match after_first(res, "duration="@) {
        None => Seq::empty(),
        Some(rest) => match after_first(rest, "\""@) {
            None => Seq::empty(),
            Some(r) => match before_first(r, "\""@) {
                None => Seq::empty(),
                Some(d) => d,
            },
        },
    }
}

/// The queue entry made of `item` node `i`, the `k`-th item of the listing (from 0).
pub open spec fn queue_item(nodes: Seq<XmlNodeView>, i: int, k: int) -> QueueItemView {
    let art = text_or_empty(nodes, i, "albumArtURI"@);
    let res = text_or_empty(nodes, i, "res"@);
    QueueItemView {
        title: text_or_empty(nodes, i, "title"@),
        artist: text_or_empty(nodes, i, "creator"@),
        album: text_or_empty(nodes, i, "album"@),
        album_art_uri: if starts_with(art, "/"@) {
            Seq::empty()
        } else {
            art
        },
        uri: res,
        duration: duration_in(res),
        track_number: ((k + 1) % 0x1_0000_0000) as u32,
    }
}

/// The queue entries of a parsed DIDL-Lite document: one per `item` element, in document
/// order, numbered from 1.
pub open spec fn queue_items(nodes: Seq<XmlNodeView>) -> Seq<QueueItemView> {
    let ps = positions_with_tag(nodes, 0, nodes.len() as int, "item"@);
    Seq::new(ps.len(), |k: int| queue_item(nodes, ps[k], k))
}

/// What `parse_didl_queue` yields for a parse result.
pub open spec fn didl_queue_result(parsed: Result<Seq<XmlNodeView>, Seq<char>>) -> Result<
    Seq<QueueItemView>,
    Seq<char>,
> {
    match parsed {
        Ok(nodes) => Ok(queue_items(nodes)),
        Err(e) => Err(e),
    }
}

/// The queue is numbered from one: the `k`-th entry read out of a queue listing has track
/// number `k + 1` (modulo 2^32, as a `u32` counter wraps).
pub proof fn lemma_queue_numbered_from_one(xml: Seq<char>, items: Seq<QueueItemView>, k: int)
    requires
        didl_queue_result(xml_parse(xml)) == Ok::<Seq<QueueItemView>, Seq<char>>(items),
        0 <= k < items.len(),
    ensures
        items[k].track_number as int == (k + 1) % 0x1_0000_0000,
{
}

fn after_first_exec(s: &Vec<char>, pat: &str) -> (res: Option<Vec<char>>)
    ensures
        match res {
            Some(r) => after_first(s@, pat@) == Some(r@),
            None => after_first(s@, pat@) is None,
        },
{
    let pv = to_chars(pat);
    match find_from_exec(s, &pv, 0) {
        Some(p) => {
            proof {
                lemma_find_from(s@, pv@, 0);
                assert(matches_at(s@, pv@, p as int));
            }
            let n = s.len();
            let start = p + pv.len();
            Some(slice_chars(s, start, n))
        },
        None => None,
    }
}

fn before_first_exec(s: &Vec<char>, pat: &str) -> (res: Option<Vec<char>>)
    ensures
        match res {
            Some(r) => before_first(s@, pat@) == Some(r@),
            None => before_first(s@, pat@) is None,
        },
{
    let pv = to_chars(pat);
    match find_from_exec(s, &pv, 0) {
        Some(p) => {
            proof {
                lemma_find_from(s@, pv@, 0);
            }
            let r = slice_chars(s, 0, p);
            assert(r@ =~= s@.take(p as int));
            Some(r)
        },
        None => None,
    }
}

fn duration_exec(res: &Vec<char>) -> (d: Vec<char>)
    ensures
        d@ == duration_in(res@),
{
    match after_first_exec(res, "duration=") {
        None => Vec::new(),
        Some(rest) => match after_first_exec(&rest, "\"") {
            None => Vec::new(),
            Some(r) => match before_first_exec(&r, "\"") {
                None => Vec::new(),
                Some(d) => d,
            },
        },
    }
}

/// Reads the queue entries out of a DIDL-Lite document.
pub fn parse_didl_queue(xml: &str) -> (res: Result<Vec<QueueItem>, String>)
    ensures
        match res {
            Ok(items) => didl_queue_result(xml_parse(xml@)) == Ok::<
                Seq<QueueItemView>,
                Seq<char>,
            >(items@.map_values(|q: QueueItem| q@)),
            Err(e) => didl_queue_result(xml_parse(xml@)) == Err::<Seq<QueueItemView>, Seq<char>>(
                e@,
            ),
        },
{
    let nodes = match parse_xml(xml) {
        Ok(n) => n,
        Err(e) => return Err(e),
    };
    let ghost nv = nodes_view(nodes@);
    let tag = to_chars("item");
    let mut items: Vec<QueueItem> = Vec::new();
    let mut track_num: u32 = 0;
    let mut i: usize = 0;
    while i < nodes.len()
        invariant
            i <= nodes@.len(),
            nv == nodes_view(nodes@),
            tree_shaped(nv),
            tag@ == "item"@,
            track_num as int == items@.len() % 0x1_0000_0000,
            items@.len() == positions_with_tag(nv, 0, i as int, "item"@).len(),
            forall|k: int|
                0 <= k < items@.len() ==> #[trigger] items@[k]@ == queue_item(
                    nv,
                    positions_with_tag(nv, 0, i as int, "item"@)[k],
                    k,
                ),
        decreases nodes.len() - i,
    {
        let ghost before = positions_with_tag(nv, 0, i as int, "item"@);
        if has_tag(&nodes, i, &tag) {
            track_num = track_num.wrapping_add(1);
            let mut art = text_or_empty_exec(&nodes, i, "albumArtURI");
            let slash = to_chars("/");
            if starts_with_exec(&art, &slash) {
                art = Vec::new();
            }
            let res_text = text_or_empty_exec(&nodes, i, "res");
            let duration = duration_exec(&res_text);
            let item = QueueItem {
                title: from_chars(&text_or_empty_exec(&nodes, i, "title")),
                artist: from_chars(&text_or_empty_exec(&nodes, i, "creator")),
                album: from_chars(&text_or_empty_exec(&nodes, i, "album")),
                album_art_uri: from_chars(&art),
                uri: from_chars(&res_text),
                duration: from_chars(&duration),
                track_number: track_num,
            };
            items.push(item);
            proof {
                assert(positions_with_tag(nv, 0, i + 1, "item"@) == before.push(i as int));
            }
        } else {
            proof {
                assert(positions_with_tag(nv, 0, i + 1, "item"@) == before);
            }
        }
        i = i + 1;
    }
    proof {
        assert(items@.map_values(|q: QueueItem| q@) =~= queue_items(nv));
    }
    Ok(items)
}

/// The positions in `[lo, hi)` of `container` and `item` elements, in order.
pub open spec fn listing_positions(nodes: Seq<XmlNodeView>, lo: int, hi: int) -> Seq<int>
    decreases hi - lo,
{
    if hi <= lo {
        Seq::empty()
    } else if nodes[hi - 1].name == "container"@ || nodes[hi - 1].name == "item"@ {
        listing_positions(nodes, lo, hi - 1).push(hi - 1)
    } else {
        listing_positions(nodes, lo, hi - 1)
    }
}

/// The listing entry made of the `container` or `item` node `i`.
pub open spec fn browser_item(nodes: Seq<XmlNodeView>, i: int) -> BrowserItemView {
    let is_container = nodes[i].name == "container"@;
    BrowserItemView {
        title: text_or_empty(nodes, i, "title"@),
        uri: if is_container {
            None
        } else {
            Some(text_or_empty(nodes, i, "res"@))
        },
        object_id: attr_value(nodes[i], "id"@),
        is_container: is_container,
        album_art_uri: non_empty(text_or_empty(nodes, i, "albumArtURI"@)),
        description: non_empty(text_or_empty(nodes, i, "description"@)),
    }
}

/// What `parse_didl_browse` yields for a parse result: one entry per `container` or `item`
/// element, in document order.
pub open spec fn didl_browse_result(parsed: Result<Seq<XmlNodeView>, Seq<char>>) -> Result<
    Seq<BrowserItemView>,
    Seq<char>,
> {
    match parsed {
        Ok(nodes) => {
            let ps = listing_positions(nodes, 0, nodes.len() as int);
            Ok(Seq::new(ps.len(), |k: int| browser_item(nodes, ps[k])))
        },
        Err(e) => Err(e),
    }
}

/// Reads the entries of a ContentDirectory listing out of a DIDL-Lite document.
pub fn parse_didl_browse(xml: &str) -> (res: Result<Vec<BrowserItem>, String>)
    ensures
        match res {
            Ok(items) => didl_browse_result(xml_parse(xml@)) == Ok::<
                Seq<BrowserItemView>,
                Seq<char>,
            >(items@.map_values(|b: BrowserItem| b@)),
            Err(e) => didl_browse_result(xml_parse(xml@)) == Err::<
                Seq<BrowserItemView>,
                Seq<char>,
            >(e@),
        },
{
    let nodes = match parse_xml(xml) {
        Ok(n) => n,
        Err(e) => return Err(e),
    };
    let ghost nv = nodes_view(nodes@);
    let container = to_chars("container");
    let item = to_chars("item");
    let mut items: Vec<BrowserItem> = Vec::new();
    let mut i: usize = 0;
    while i < nodes.len()
        invariant
            i <= nodes@.len(),
            nv == nodes_view(nodes@),
            tree_shaped(nv),
            container@ == "container"@,
            item@ == "item"@,
            items@.len() == listing_positions(nv, 0, i as int).len(),
            forall|k: int|
                0 <= k < items@.len() ==> #[trigger] items@[k]@ == browser_item(
                    nv,
                    listing_positions(nv, 0, i as int)[k],
                ),
        decreases nodes.len() - i,
    {
        let ghost before = listing_positions(nv, 0, i as int);
        let is_container = has_tag(&nodes, i, &container);
        if is_container || has_tag(&nodes, i, &item) {
            let uri = if is_container {
                None
            } else {
                Some(from_chars(&text_or_empty_exec(&nodes, i, "res")))
            };
            let entry = BrowserItem {
                title: from_chars(&text_or_empty_exec(&nodes, i, "title")),
                uri: uri,
                object_id: from_chars(&attr(&nodes[i], "id")),
                is_container: is_container,
                album_art_uri: non_empty_string(text_or_empty_exec(&nodes, i, "albumArtURI")),
                description: non_empty_string(text_or_empty_exec(&nodes, i, "description")),
            };
            items.push(entry);
            proof {
                assert(listing_positions(nv, 0, i + 1) == before.push(i as int));
            }
        } else {
            proof {
                assert(listing_positions(nv, 0, i + 1) == before);
            }
        }
        i = i + 1;
    }
    proof {
        let ps = listing_positions(nv, 0, nv.len() as int);
        assert(items@.map_values(|b: BrowserItem| b@) =~= Seq::new(
            ps.len(),
            |k: int| browser_item(nv, ps[k]),
        ));
    }
    Ok(items)
}

// ── Zone groups ────────────────────────────────────────────────────────

/// The host of a member's `Location` URL, or the empty string where the location does not
/// start with `http`, does not parse, or names no host.
pub open spec fn member_ip(location: Seq<char>) -> Seq<char> {
    if starts_with(location, "http"@) {
        match url_parse(location) {
            Ok((Some(h), _)) => h,
            _ => Seq::empty(),
        }
    } else {
        Seq::empty()
    }
}

/// What a `ZoneGroupMember` node `m` says of the member. On the status page
/// (`coordinator` is `None`) the member says itself whether it coordinates and carries an
/// icon `URL`; in the topology state (`coordinator` is the group's `Coordinator` attribute)
/// the member coordinates when its `UUID` equals that attribute, and no icon is read.
pub open spec fn member_facts(
    nodes: Seq<XmlNodeView>,
    m: int,
    coordinator: Option<Seq<char>>,
) -> ZoneGroupMemberView {
    let uid = attr_value(nodes[m], "UUID"@);
    ZoneGroupMemberView {
        ip: member_ip(attr_value(nodes[m], "Location"@)),
        name: attr_value(nodes[m], "ZoneGroupName"@),
        room_name: attr_value(nodes[m], "ZoneName"@),
        uid: uid,
        icon_url: match coordinator {
            None => text_of(nodes, m, "URL"@),
            Some(_) => None,
        },
        is_coordinator: match coordinator {
            None => attr_value(nodes[m], "IsCoordinator"@) == "1"@,
            Some(c) => uid == c,
        },
        is_invisible: attr_value(nodes[m], "Invisible"@) == "1"@,
    }
}

/// What a group has gathered from its members so far.
#[verifier::ext_equal]
pub struct GroupAcc {
    pub members: Seq<ZoneGroupMemberView>,
    pub hidden: Seq<Seq<char>>,
    pub coord_ip: Seq<char>,
    pub coord_name: Seq<char>,
    pub coord_uid: Seq<char>,
}

/// Takes in one member: a coordinator sets the group's coordinator (its group name, or its
/// room where that is empty); an invisible member adds its IP to the hidden ones, any other
/// member is listed.
pub open spec fn group_step(acc: GroupAcc, f: ZoneGroupMemberView) -> GroupAcc {
    let acc2 = if f.is_coordinator {
        GroupAcc {
            coord_ip: f.ip,
            coord_name: if f.name.len() == 0 {
                f.room_name
            } else {
                f.name
            },
            coord_uid: f.uid,
            ..acc
        }
    } else {
        acc
    };
    if f.is_invisible {
        GroupAcc { hidden: acc2.hidden.push(f.ip), ..acc2 }
    } else {
        GroupAcc { members: acc2.members.push(ZoneGroupMemberView { is_invisible: false, ..f }), ..acc2 }
    }
}

/// Takes in the members at positions `ms`, in order.
pub open spec fn group_fold(nodes: Seq<XmlNodeView>, ms: Seq<int>, coordinator: Option<Seq<char>>) -> GroupAcc
    decreases ms.len(),
{
    if ms.len() == 0 {
        GroupAcc {
            members: Seq::empty(),
            hidden: Seq::empty(),
            coord_ip: Seq::empty(),
            coord_name: Seq::empty(),
            coord_uid: Seq::empty(),
        }
    } else {
        group_step(group_fold(nodes, ms.drop_last(), coordinator), member_facts(nodes, ms.last(), coordinator))
    }
}

/// The group that `ZoneGroup` node `zg` describes, if a coordinator with an IP was found. The
/// group is named after its coordinator, or after its first listed member's room where the
/// coordinator has no name.
pub open spec fn zone_group_at(nodes: Seq<XmlNodeView>, zg: int, from_status: bool) -> Option<ZoneGroupView> {
    let coordinator = if from_status {
        None
    } else {
        Some(attr_value(nodes[zg], "Coordinator"@))
    };
    let acc = group_fold(nodes, positions_with_tag(nodes, zg, node_end(nodes, zg), "ZoneGroupMember"@), coordinator);
    if acc.coord_ip.len() == 0 {
        None
    } else {
        Some(ZoneGroupView {
            coordinator_ip: acc.coord_ip,
            coordinator_name: if acc.coord_name.len() == 0 {
                if acc.members.len() > 0 {
                    acc.members[0].room_name
                } else {
                    Seq::empty()
                }
            } else {
                acc.coord_name
            },
            coordinator_uid: acc.coord_uid,
            id: attr_value(nodes[zg], "ID"@),
            members: acc.members,
            hidden_ips: acc.hidden,
        })
    }
}

/// The groups of the `ZoneGroup` nodes at positions `zgs`, in order.
pub open spec fn groups_at(nodes: Seq<XmlNodeView>, zgs: Seq<int>, from_status: bool) -> Seq<ZoneGroupView>
    decreases zgs.len(),
{
    if zgs.len() == 0 {
        Seq::empty()
    } else {
        let prev = groups_at(nodes, zgs.drop_last(), from_status);
        match zone_group_at(nodes, zgs.last(), from_status) {
            Some(g) => prev.push(g),
            None => prev,
        }
    }
}

/// The groups of the status page: for each `ZoneGroups` node, the groups of the `ZoneGroup`
/// nodes within it.
pub open spec fn status_groups(nodes: Seq<XmlNodeView>, lists: Seq<int>) -> Seq<ZoneGroupView>
    decreases lists.len(),
{
    if lists.len() == 0 {
        Seq::empty()
    } else {
        let l = lists.last();
        status_groups(nodes, lists.drop_last()) + groups_at(
            nodes,
            positions_with_tag(nodes, l, node_end(nodes, l), "ZoneGroup"@),
            true,
        )
    }
}

/// Whether the member at `m` of the `ZoneGroup` node `zg` is marked as the group's
/// coordinator: `IsCoordinator="1"` on the status page; in a topology answer, a `UUID` equal
/// to the group's `Coordinator` attribute.
pub open spec fn marked_coordinator(nodes: Seq<XmlNodeView>, zg: int, m: int, from_status: bool) -> bool {
    if from_status {
        attr_value(nodes[m], "IsCoordinator"@) == "1"@
    } else {
        attr_value(nodes[m], "UUID"@) == attr_value(nodes[zg], "Coordinator"@)
    }
}

/// Every position listed by `positions_with_tag` lies in the range and carries the tag.
proof fn lemma_positions_with_tag(nodes: Seq<XmlNodeView>, lo: int, hi: int, tag: Seq<char>)
    ensures
        forall|k: int| 0 <= k < positions_with_tag(nodes, lo, hi, tag).len() ==>
            lo <= #[trigger] positions_with_tag(nodes, lo, hi, tag)[k] < hi
            && nodes[positions_with_tag(nodes, lo, hi, tag)[k]].name == tag,
    decreases hi - lo,
{
    if hi > lo {
        lemma_positions_with_tag(nodes, lo, hi - 1, tag);
    }
}

/// The coordinator that a group's members give: the last member marked as coordinator sets
/// the coordinator's IP and UUID; where none is marked, the IP stays empty.
proof fn lemma_fold_coordinator(nodes: Seq<XmlNodeView>, ms: Seq<int>, zg: int, from_status: bool)
    ensures
        ({
            let coordinator = if from_status { None } else { Some(attr_value(nodes[zg], "Coordinator"@)) };
            let acc = group_fold(nodes, ms, coordinator);
            (exists|k: int| 0 <= k < ms.len() && #[trigger] marked_coordinator(nodes, zg, ms[k], from_status)
                && acc.coord_ip == member_ip(attr_value(nodes[ms[k]], "Location"@))
                && acc.coord_uid == attr_value(nodes[ms[k]], "UUID"@)
                && forall|k2: int| k < k2 < ms.len() ==> !marked_coordinator(nodes, zg, #[trigger] ms[k2], from_status))
            || (acc.coord_ip.len() == 0 && forall|k: int| 0 <= k < ms.len() ==> !marked_coordinator(nodes, zg, #[trigger] ms[k], from_status))
        }),
    decreases ms.len(),
{
    let coordinator = if from_status { None } else { Some(attr_value(nodes[zg], "Coordinator"@)) };
    if ms.len() > 0 {
        let prev = ms.drop_last();
        lemma_fold_coordinator(nodes, prev, zg, from_status);
        let last = ms.len() - 1;
        let f = member_facts(nodes, ms[last], coordinator);
        assert(f.is_coordinator == marked_coordinator(nodes, zg, ms[last], from_status));
        assert forall|k: int| 0 <= k < prev.len() implies #[trigger] prev[k] == ms[k] by {}
        if f.is_coordinator {
            assert(marked_coordinator(nodes, zg, ms[last], from_status));
        } else {
            let pacc = group_fold(nodes, prev, coordinator);
            if exists|k: int| 0 <= k < prev.len() && #[trigger] marked_coordinator(nodes, zg, prev[k], from_status)
                && pacc.coord_ip == member_ip(attr_value(nodes[prev[k]], "Location"@))
                && pacc.coord_uid == attr_value(nodes[prev[k]], "UUID"@)
                && forall|k2: int| k < k2 < prev.len() ==> !marked_coordinator(nodes, zg, #[trigger] prev[k2], from_status) {
                let k = choose|k: int| 0 <= k < prev.len() && #[trigger] marked_coordinator(nodes, zg, prev[k], from_status)
                    && pacc.coord_ip == member_ip(attr_value(nodes[prev[k]], "Location"@))
                    && pacc.coord_uid == attr_value(nodes[prev[k]], "UUID"@)
                    && forall|k2: int| k < k2 < prev.len() ==> !marked_coordinator(nodes, zg, #[trigger] prev[k2], from_status);
                assert(marked_coordinator(nodes, zg, ms[k], from_status));
                assert forall|k2: int| k < k2 < ms.len() implies !marked_coordinator(nodes, zg, #[trigger] ms[k2], from_status) by {
                    if k2 < last {
                        assert(prev[k2] == ms[k2]);
                    }
                }
            } else {
                assert forall|k: int| 0 <= k < ms.len() implies !marked_coordinator(nodes, zg, #[trigger] ms[k], from_status) by {
                    if k < last {
                        assert(prev[k] == ms[k]);
                    }
                }
            }
        }
    }
}

/// A group is led by its marked coordinator: every group read off a `ZoneGroup` node has as
/// coordinator IP and UUID the IP (from its `Location`) and `UUID` of a `ZoneGroupMember`
/// of that group marked as coordinator, the last one where several are.
pub proof fn lemma_group_coordinator(nodes: Seq<XmlNodeView>, zg: int, from_status: bool)
    ensures
        zone_group_at(nodes, zg, from_status) matches Some(g) ==> exists|m: int|
            zg <= m < node_end(nodes, zg) && nodes[m].name == "ZoneGroupMember"@
                && #[trigger] marked_coordinator(nodes, zg, m, from_status)
                && g.coordinator_ip == member_ip(attr_value(nodes[m], "Location"@))
                && g.coordinator_uid == attr_value(nodes[m], "UUID"@)
                && forall|m2: int| m < m2 < node_end(nodes, zg) && nodes[m2].name == "ZoneGroupMember"@
                    ==> !marked_coordinator(nodes, zg, m2, from_status),
{
    let ms = positions_with_tag(nodes, zg, node_end(nodes, zg), "ZoneGroupMember"@);
    lemma_fold_coordinator(nodes, ms, zg, from_status);
    lemma_positions_with_tag(nodes, zg, node_end(nodes, zg), "ZoneGroupMember"@);
    lemma_positions_complete(nodes, zg, node_end(nodes, zg), "ZoneGroupMember"@);
    if let Some(g) = zone_group_at(nodes, zg, from_status) {
        let coordinator = if from_status { None } else { Some(attr_value(nodes[zg], "Coordinator"@)) };
        let acc = group_fold(nodes, ms, coordinator);
        assert(acc.coord_ip.len() > 0);
        let k = choose|k: int| 0 <= k < ms.len() && #[trigger] marked_coordinator(nodes, zg, ms[k], from_status)
            && acc.coord_ip == member_ip(attr_value(nodes[ms[k]], "Location"@))
            && acc.coord_uid == attr_value(nodes[ms[k]], "UUID"@)
            && forall|k2: int| k < k2 < ms.len() ==> !marked_coordinator(nodes, zg, #[trigger] ms[k2], from_status);
        let m = ms[k];
        assert(zg <= m < node_end(nodes, zg));
        assert forall|m2: int| m < m2 < node_end(nodes, zg) && nodes[m2].name == "ZoneGroupMember"@
            implies !marked_coordinator(nodes, zg, m2, from_status) by {
            let k2 = choose|k2: int| 0 <= k2 < ms.len() && ms[k2] == m2;
            lemma_positions_increasing(nodes, zg, node_end(nodes, zg), "ZoneGroupMember"@);
            assert(ms[k2] == m2);
            if k2 <= k {
                if k2 < k {
                    assert(ms[k2] < ms[k]);
                }
            }
        }
    }
}

/// Whether group `g` is led by a member marked as coordinator of some `ZoneGroup` node:
/// its coordinator IP and UUID are that member's IP (from its `Location`) and `UUID`.
pub open spec fn led_by_marked_member(nodes: Seq<XmlNodeView>, g: ZoneGroupView, from_status: bool) -> bool {
    exists|zg: int, m: int|
        0 <= zg < nodes.len() && nodes[zg].name == "ZoneGroup"@ && zg <= m < node_end(nodes, zg)
            && nodes[m].name == "ZoneGroupMember"@ && #[trigger] marked_coordinator(nodes, zg, m, from_status)
            && g.coordinator_ip == member_ip(attr_value(nodes[m], "Location"@))
            && g.coordinator_uid == attr_value(nodes[m], "UUID"@)
}

proof fn lemma_groups_at_led(nodes: Seq<XmlNodeView>, zgs: Seq<int>, from_status: bool)
    requires
        forall|k: int| 0 <= k < zgs.len() ==> 0 <= #[trigger] zgs[k] < nodes.len() && nodes[zgs[k]].name == "ZoneGroup"@,
    ensures
        forall|i: int| 0 <= i < groups_at(nodes, zgs, from_status).len() ==>
            led_by_marked_member(nodes, #[trigger] groups_at(nodes, zgs, from_status)[i], from_status),
    decreases zgs.len(),
{
    if zgs.len() > 0 {
        let prev = zgs.drop_last();
        assert forall|k: int| 0 <= k < prev.len() implies 0 <= #[trigger] prev[k] < nodes.len() && nodes[prev[k]].name == "ZoneGroup"@ by {
            assert(prev[k] == zgs[k]);
        }
        lemma_groups_at_led(nodes, prev, from_status);
        let zg = zgs.last();
        lemma_group_coordinator(nodes, zg, from_status);
        if let Some(g) = zone_group_at(nodes, zg, from_status) {
            let m = choose|m: int| zg <= m < node_end(nodes, zg) && nodes[m].name == "ZoneGroupMember"@
                && #[trigger] marked_coordinator(nodes, zg, m, from_status)
                && g.coordinator_ip == member_ip(attr_value(nodes[m], "Location"@))
                && g.coordinator_uid == attr_value(nodes[m], "UUID"@)
                && forall|m2: int| m < m2 < node_end(nodes, zg) && nodes[m2].name == "ZoneGroupMember"@
                    ==> !marked_coordinator(nodes, zg, m2, from_status);
            assert(zgs[zgs.len() - 1] == zg);
            assert(0 <= zg < nodes.len() && nodes[zg].name == "ZoneGroup"@);
            assert(marked_coordinator(nodes, zg, m, from_status));
            assert(led_by_marked_member(nodes, g, from_status));
        }
        let pg = groups_at(nodes, prev, from_status);
        let all = groups_at(nodes, zgs, from_status);
        assert forall|i: int| 0 <= i < all.len() implies led_by_marked_member(nodes, #[trigger] all[i], from_status) by {
            if i < pg.len() {
                assert(all[i] == pg[i]);
            }
        }
    }
}

proof fn lemma_status_groups_led(nodes: Seq<XmlNodeView>, lists: Seq<int>)
    requires
        forall|k: int| 0 <= k < lists.len() ==> 0 <= #[trigger] lists[k] < nodes.len(),
        tree_shaped(nodes),
    ensures
        forall|i: int| 0 <= i < status_groups(nodes, lists).len() ==>
            led_by_marked_member(nodes, #[trigger] status_groups(nodes, lists)[i], true),
    decreases lists.len(),
{
    if lists.len() > 0 {
        let prev = lists.drop_last();
        assert forall|k: int| 0 <= k < prev.len() implies 0 <= #[trigger] prev[k] < nodes.len() by {
            assert(prev[k] == lists[k]);
        }
        lemma_status_groups_led(nodes, prev);
        let l = lists.last();
        let zgs = positions_with_tag(nodes, l, node_end(nodes, l), "ZoneGroup"@);
        lemma_positions_with_tag(nodes, l, node_end(nodes, l), "ZoneGroup"@);
        assert(0 < nodes[l].size && l + nodes[l].size <= nodes.len());
        lemma_groups_at_led(nodes, zgs, true);
        let a = status_groups(nodes, prev);
        let b = groups_at(nodes, zgs, true);
        assert(status_groups(nodes, lists) == a + b);
        assert forall|i: int| 0 <= i < (a + b).len() implies led_by_marked_member(nodes, #[trigger] (a + b)[i], true) by {
            if i < a.len() {
                assert((a + b)[i] == a[i]);
            } else {
                assert((a + b)[i] == b[i - a.len()]);
            }
        }
    }
}

/// Every group read from a status page is led by a member marked `IsCoordinator="1"`: in
/// the groups `zone_groups_from_status` returns, each group's coordinator IP and UUID are
/// the IP (from the `Location`) and `UUID` of such a member of one of the page's zone groups.
pub proof fn lemma_status_groups_led_by_coordinator(nodes: Seq<XmlNodeView>, out: Seq<ZoneGroupView>)
    requires
        tree_shaped(nodes),
        stable_sort_of::<ZoneGroup>(out, status_groups(nodes, group_lists(nodes))),
    ensures
        forall|i: int| 0 <= i < out.len() ==> led_by_marked_member(nodes, #[trigger] out[i], true),
{
    broadcast use vstd::seq_lib::group_to_multiset_ensures;

    let input = status_groups(nodes, group_lists(nodes));
    lemma_positions_with_tag(nodes, 0, nodes.len() as int, "ZoneGroups"@);
    lemma_status_groups_led(nodes, group_lists(nodes));
    crate::sort::lemma_stable_sort_permutes::<ZoneGroup>(out, input);
    assert forall|i: int| 0 <= i < out.len() implies led_by_marked_member(nodes, #[trigger] out[i], true) by {
        assert(out.contains(out[i]));
        assert(out.to_multiset().count(out[i]) > 0);
        assert(input.to_multiset().count(out[i]) > 0);
        assert(input.contains(out[i]));
        let j = choose|j: int| 0 <= j < input.len() && input[j] == out[i];
        assert(led_by_marked_member(nodes, input[j], true));
    }
}

/// Every group read from a topology answer is led by the member whose `UUID` is its
/// `Coordinator`: in the groups `zone_groups_from_topology` returns, each group's coordinator
/// IP and UUID are the IP (from the `Location`) and `UUID` of such a member.
pub proof fn lemma_topology_groups_led_by_coordinator(nodes: Seq<XmlNodeView>, out: Seq<ZoneGroupView>)
    requires
        stable_sort_of::<ZoneGroup>(out, groups_at(nodes, positions_with_tag(nodes, 0, nodes.len() as int, "ZoneGroup"@), false)),
    ensures
        forall|i: int| 0 <= i < out.len() ==> led_by_marked_member(nodes, #[trigger] out[i], false),
{
    broadcast use vstd::seq_lib::group_to_multiset_ensures;

    let input = groups_at(nodes, positions_with_tag(nodes, 0, nodes.len() as int, "ZoneGroup"@), false);
    lemma_positions_with_tag(nodes, 0, nodes.len() as int, "ZoneGroup"@);
    lemma_groups_at_led(nodes, positions_with_tag(nodes, 0, nodes.len() as int, "ZoneGroup"@), false);
    crate::sort::lemma_stable_sort_permutes::<ZoneGroup>(out, input);
    assert forall|i: int| 0 <= i < out.len() implies led_by_marked_member(nodes, #[trigger] out[i], false) by {
        assert(out.contains(out[i]));
        assert(out.to_multiset().count(out[i]) > 0);
        assert(input.to_multiset().count(out[i]) > 0);
        assert(input.contains(out[i]));
        let j = choose|j: int| 0 <= j < input.len() && input[j] == out[i];
        assert(led_by_marked_member(nodes, input[j], false));
    }
}

/// Every position in the range that carries the tag is listed by `positions_with_tag`.
proof fn lemma_positions_complete(nodes: Seq<XmlNodeView>, lo: int, hi: int, tag: Seq<char>)
    ensures
        forall|m: int| lo <= m < hi && nodes[m].name == tag ==> exists|k: int|
            0 <= k < positions_with_tag(nodes, lo, hi, tag).len() && #[trigger] positions_with_tag(nodes, lo, hi, tag)[k] == m,
    decreases hi - lo,
{
    if hi > lo {
        lemma_positions_complete(nodes, lo, hi - 1, tag);
        let prev = positions_with_tag(nodes, lo, hi - 1, tag);
        let ps = positions_with_tag(nodes, lo, hi, tag);
        assert forall|m: int| lo <= m < hi && nodes[m].name == tag implies exists|k: int|
            0 <= k < ps.len() && #[trigger] ps[k] == m by {
            if m == hi - 1 {
                assert(ps[ps.len() - 1] == m);
            } else {
                let k = choose|k: int| 0 <= k < prev.len() && #[trigger] prev[k] == m;
                assert(ps[k] == prev[k]);
            }
        }
    }
}

/// `positions_with_tag` lists positions in increasing order.
proof fn lemma_positions_increasing(nodes: Seq<XmlNodeView>, lo: int, hi: int, tag: Seq<char>)
    ensures
        forall|a: int, b: int| 0 <= a < b < positions_with_tag(nodes, lo, hi, tag).len() ==>
            #[trigger] positions_with_tag(nodes, lo, hi, tag)[a] < #[trigger] positions_with_tag(nodes, lo, hi, tag)[b],
    decreases hi - lo,
{
    if hi > lo {
        lemma_positions_increasing(nodes, lo, hi - 1, tag);
        lemma_positions_with_tag(nodes, lo, hi - 1, tag);
    }
}

impl crate::sort::SortKey for ZoneGroup {
    open spec fn key_of(v: ZoneGroupView) -> Seq<char> {
        v.coordinator_name
    }

    fn sort_key_chars(&self) -> (r: Vec<char>) {
        to_chars(self.coordinator_name.as_str())
    }
}

fn member_ip_exec(location: &Vec<char>) -> (res: String)
    ensures
        res@ == member_ip(location@),
{
    let http = to_chars("http");
    if starts_with_exec(location, &http) {
        match parse_url(from_chars(location).as_str()) {
            Ok(u) => match u.host {
                Some(h) => h,
                None => String::new(),
            },
            Err(_) => String::new(),
        }
    } else {
        String::new()
    }
}

fn member_facts_exec(nodes: &Vec<XmlNode>, m: usize, coordinator: &Option<Vec<char>>) -> (res: ZoneGroupMember)
    requires
        m < nodes@.len(),
        tree_shaped(nodes_view(nodes@)),
    ensures
        res@ == member_facts(nodes_view(nodes@), m as int, chars_opt_view(*coordinator)),
{
    let node = &nodes[m];
    assert(node@ == nodes_view(nodes@)[m as int]);
    let uid = attr(node, "UUID");
    let one = to_chars("1");
    let (icon_url, is_coordinator) = match coordinator {
        None => {
            let icon = match text_of_exec(nodes, m, "URL") {
                Some(t) => Some(from_chars(&t)),
                None => None,
            };
            (icon, eq_chars(&attr(node, "IsCoordinator"), &one))
        },
        Some(c) => (None, eq_chars(&uid, c)),
    };
    ZoneGroupMember {
        ip: member_ip_exec(&attr(node, "Location")),
        name: from_chars(&attr(node, "ZoneGroupName")),
        room_name: from_chars(&attr(node, "ZoneName")),
        uid: from_chars(&uid),
        icon_url: icon_url,
        is_coordinator: is_coordinator,
        is_invisible: eq_chars(&attr(node, "Invisible"), &one),
    }
}

/// The plain value of an optional character vector.
pub open spec fn chars_opt_view(o: Option<Vec<char>>) -> Option<Seq<char>> {
    match o {
        Some(c) => Some(c@),
        None => None,
    }
}

/// The plain value of the accumulator.
pub open spec fn acc_view(
    members: Vec<ZoneGroupMember>,
    hidden: Vec<String>,
    coord_ip: String,
    coord_name: String,
    coord_uid: String,
) -> GroupAcc {
    GroupAcc {
        members: members@.map_values(|m: ZoneGroupMember| m@),
        hidden: hidden@.map_values(|s: String| s@),
        coord_ip: coord_ip@,
        coord_name: coord_name@,
        coord_uid: coord_uid@,
    }
}

fn zone_group_at_exec(nodes: &Vec<XmlNode>, zg: usize, from_status: bool) -> (res: Option<ZoneGroup>)
    requires
        zg < nodes@.len(),
        tree_shaped(nodes_view(nodes@)),
    ensures
        match res {
            Some(g) => zone_group_at(nodes_view(nodes@), zg as int, from_status) == Some(g@),
            None => zone_group_at(nodes_view(nodes@), zg as int, from_status) is None,
        },
{
    let ghost nv = nodes_view(nodes@);
    let coordinator: Option<Vec<char>> = if from_status {
        None
    } else {
        Some(attr(&nodes[zg], "Coordinator"))
    };
    let ghost cv = chars_opt_view(coordinator);
    assert(cv == (if from_status {
        None
    } else {
        Some(attr_value(nv[zg as int], "Coordinator"@))
    }));
    let tag = to_chars("ZoneGroupMember");
    assert(nv[zg as int].size == nodes@[zg as int].size);
    assert(0 < nv[zg as int].size && zg + nv[zg as int].size <= nv.len());
    assert(nv.len() == nodes.len());
    let end = zg + nodes[zg].size;
    let mut members: Vec<ZoneGroupMember> = Vec::new();
    let mut hidden: Vec<String> = Vec::new();
    let mut coord_ip = String::new();
    let mut coord_name = String::new();
    let mut coord_uid = String::new();
    let mut m = zg;
    proof {
        assert(acc_view(members, hidden, coord_ip, coord_name, coord_uid) =~= group_fold(
            nv,
            positions_with_tag(nv, zg as int, zg as int, "ZoneGroupMember"@),
            cv,
        ));
    }
    while m < end
        invariant
            zg <= m <= end <= nodes@.len(),
            nv == nodes_view(nodes@),
            tree_shaped(nv),
            tag@ == "ZoneGroupMember"@,
            cv == chars_opt_view(coordinator),
            acc_view(members, hidden, coord_ip, coord_name, coord_uid) == group_fold(
                nv,
                positions_with_tag(nv, zg as int, m as int, "ZoneGroupMember"@),
                cv,
            ),
        decreases end - m,
    {
        let ghost before = positions_with_tag(nv, zg as int, m as int, "ZoneGroupMember"@);
        let ghost acc0 = acc_view(members, hidden, coord_ip, coord_name, coord_uid);
        if has_tag(nodes, m, &tag) {
            let f = member_facts_exec(nodes, m, &coordinator);
            if f.is_coordinator {
                coord_ip = f.ip.clone();
                coord_name = if f.name.as_str().is_empty() {
                    f.room_name.clone()
                } else {
                    f.name.clone()
                };
                coord_uid = f.uid.clone();
            }
            if f.is_invisible {
                hidden.push(f.ip);
            } else {
                let listed = ZoneGroupMember { is_invisible: false, ..f };
                members.push(listed);
            }
            proof {
                let after = positions_with_tag(nv, zg as int, m + 1, "ZoneGroupMember"@);
                assert(after == before.push(m as int));
                assert(after.drop_last() =~= before);
                assert(acc_view(members, hidden, coord_ip, coord_name, coord_uid) =~= group_step(
                    acc0,
                    f@,
                ));
            }
        } else {
            proof {
                assert(positions_with_tag(nv, zg as int, m + 1, "ZoneGroupMember"@) == before);
            }
        }
        m = m + 1;
    }
    if coord_ip.as_str().is_empty() {
        None
    } else {
        let display_name = if coord_name.as_str().is_empty() {
            if members.len() > 0 {
                members[0].room_name.clone()
            } else {
                String::new()
            }
        } else {
            coord_name
        };
        let g = ZoneGroup {
            coordinator_ip: coord_ip,
            coordinator_name: display_name,
            coordinator_uid: coord_uid,
            id: from_chars(&attr(&nodes[zg], "ID")),
            members: members,
            hidden_ips: hidden,
        };
        Some(g)
    }
}

fn groups_at_exec(nodes: &Vec<XmlNode>, lo: usize, hi: usize, from_status: bool) -> (res: Vec<ZoneGroup>)
    requires
        lo <= hi <= nodes@.len(),
        tree_shaped(nodes_view(nodes@)),
    ensures
        views(res@) == groups_at(
            nodes_view(nodes@),
            positions_with_tag(nodes_view(nodes@), lo as int, hi as int, "ZoneGroup"@),
            from_status,
        ),
{
    let ghost nv = nodes_view(nodes@);
    let tag = to_chars("ZoneGroup");
    let mut groups: Vec<ZoneGroup> = Vec::new();
    let mut i = lo;
    assert(views(groups@) =~= Seq::<ZoneGroupView>::empty());
    while i < hi
        invariant
            lo <= i <= hi <= nodes@.len(),
            nv == nodes_view(nodes@),
            tree_shaped(nv),
            tag@ == "ZoneGroup"@,
            views(groups@) == groups_at(nv, positions_with_tag(nv, lo as int, i as int, "ZoneGroup"@), from_status),
        decreases hi - i,
    {
        let ghost before = positions_with_tag(nv, lo as int, i as int, "ZoneGroup"@);
        let ghost g0 = views(groups@);
        if has_tag(nodes, i, &tag) {
            proof {
                let after = positions_with_tag(nv, lo as int, i + 1, "ZoneGroup"@);
                assert(after == before.push(i as int));
                assert(after.drop_last() =~= before);
            }
            match zone_group_at_exec(nodes, i, from_status) {
                Some(g) => {
                    groups.push(g);
                    assert(views(groups@) =~= g0.push(g@));
                },
                None => {},
            }
        } else {
            proof {
                assert(positions_with_tag(nv, lo as int, i + 1, "ZoneGroup"@) == before);
            }
        }
        i = i + 1;
    }
    groups
}

/// The `ZoneGroups` lists of a parsed status page.
pub open spec fn group_lists(nodes: Seq<XmlNodeView>) -> Seq<int> {
    positions_with_tag(nodes, 0, nodes.len() as int, "ZoneGroups"@)
}

/// Reads the zone groups out of a device's `/status/zp` page, sorted by coordinator name
/// (stably). `Ok(None)` says that the page holds no group, so that the topology service must
/// be asked instead.
pub fn zone_groups_from_status(xml: &str) -> (res: Result<Option<Vec<ZoneGroup>>, String>)
    ensures
        match res {
            Ok(Some(v)) => xml_parse(xml@) matches Ok(nodes) && status_groups(nodes, group_lists(nodes)).len() > 0
                && stable_sort_of::<ZoneGroup>(views(v@), status_groups(nodes, group_lists(nodes))),
            Ok(None) => xml_parse(xml@) matches Ok(nodes) && status_groups(nodes, group_lists(nodes)).len() == 0,
            Err(e) => xml_parse(xml@) == Err::<Seq<XmlNodeView>, Seq<char>>(e@),
        },
{
    let nodes = match parse_xml(xml) {
        Ok(n) => n,
        Err(e) => return Err(e),
    };
    let ghost nv = nodes_view(nodes@);
    let tag = to_chars("ZoneGroups");
    let mut groups: Vec<ZoneGroup> = Vec::new();
    let mut l: usize = 0;
    assert(views(groups@) =~= Seq::<ZoneGroupView>::empty());
    while l < nodes.len()
        invariant
            l <= nodes@.len(),
            nv == nodes_view(nodes@),
            tree_shaped(nv),
            tag@ == "ZoneGroups"@,
            views(groups@) == status_groups(nv, positions_with_tag(nv, 0, l as int, "ZoneGroups"@)),
        decreases nodes.len() - l,
    {
        let ghost before = positions_with_tag(nv, 0, l as int, "ZoneGroups"@);
        let ghost g0 = views(groups@);
        if has_tag(&nodes, l, &tag) {
            assert(nv[l as int].size == nodes@[l as int].size);
            let end = l + nodes[l].size;
            let mut more = groups_at_exec(&nodes, l, end, true);
            let ghost m0 = views(more@);
            groups.append(&mut more);
            proof {
                let after = positions_with_tag(nv, 0, l + 1, "ZoneGroups"@);
                assert(after == before.push(l as int));
                assert(after.drop_last() =~= before);
                assert(views(groups@) =~= g0 + m0);
            }
        } else {
            proof {
                assert(positions_with_tag(nv, 0, l + 1, "ZoneGroups"@) == before);
            }
        }
        l = l + 1;
    }
    if groups.len() == 0 {
        return Ok(None);
    }
    Ok(Some(stable_sort_by_key(groups)))
}

/// `s` with the entities `&lt;`, `&gt;`, `&amp;` and `&quot;` replaced, one after the other
/// in that order.
pub open spec fn unescape_lgaq(s: Seq<char>) -> Seq<char> {
    replaced(replaced(replaced(replaced(s, "&lt;"@, "<"@), "&gt;"@, ">"@), "&amp;"@, "&"@), "&quot;"@, "\""@)
}

/// Replaces the entities `&lt;`, `&gt;`, `&amp;` and `&quot;`, one after the other.
pub fn unescape_entities(s: &str) -> (res: String)
    ensures
        res@ == unescape_lgaq(s@),
{
    proof {
        reveal_strlit("&lt;");
        reveal_strlit("&gt;");
        reveal_strlit("&amp;");
        reveal_strlit("&quot;");
    }
    let a = replace_str(s, "&lt;", "<");
    let b = replace_str(a.as_str(), "&gt;", ">");
    let c = replace_str(b.as_str(), "&amp;", "&");
    replace_str(c.as_str(), "&quot;", "\"")
}

/// The document to parse out of a topology service answer: the answer with its entities
/// replaced where it holds an escaped `ZoneGroups` element, else the answer itself.
pub open spec fn topology_document(text: Seq<char>) -> Seq<char> {
    if contains(text, "&lt;ZoneGroups"@) {
        unescape_lgaq(text)
    } else {
        text
    }
}

/// Reads the zone groups out of a ZoneGroupTopology `GetZoneGroupState` answer, sorted by
/// coordinator name (stably).
pub fn zone_groups_from_topology(text: &str) -> (res: Result<Vec<ZoneGroup>, String>)
    ensures
        match res {
            Ok(v) => xml_parse(topology_document(text@)) matches Ok(nodes) && stable_sort_of::<ZoneGroup>(
                views(v@),
                groups_at(nodes, positions_with_tag(nodes, 0, nodes.len() as int, "ZoneGroup"@), false),
            ),
            Err(e) => xml_parse(topology_document(text@)) == Err::<Seq<XmlNodeView>, Seq<char>>(e@),
        },
{
    let tv = to_chars(text);
    let marker = to_chars("&lt;ZoneGroups");
    let state_xml = if contains_exec(&tv, &marker) {
        unescape_entities(text)
    } else {
        from_chars(&tv)
    };
    let nodes = match parse_xml(state_xml.as_str()) {
        Ok(n) => n,
        Err(e) => return Err(e),
    };
    let n = nodes.len();
    let groups = groups_at_exec(&nodes, 0, n, false);
    Ok(stable_sort_by_key(groups))
}

/// Whether `r` is what reading the topology answer `text` gives: its groups, sorted by
/// coordinator name (stably), or the message of its parse error.
pub open spec fn topology_read(text: Seq<char>, r: Result<Seq<ZoneGroupView>, Seq<char>>) -> bool {
    match r {
        Ok(v) => xml_parse(topology_document(text)) matches Ok(nodes) && stable_sort_of::<ZoneGroup>(
            v,
            groups_at(nodes, positions_with_tag(nodes, 0, nodes.len() as int, "ZoneGroup"@), false),
        ),
        Err(e) => xml_parse(topology_document(text)) == Err::<Seq<XmlNodeView>, Seq<char>>(e),
    }
}

/// The zone groups of a household, from its status page and, where that page lists no
/// group, from the topology service's answer. `Ok(None)` says that the page lists no group
/// and no topology answer was given: the topology service must be asked, and its answer
/// passed in. Once it is, the result is the topology service's groups, whatever else the
/// status page holds.
pub fn zone_groups_answer(status_xml: &str, topology_text: Option<&str>) -> (res: Result<Option<Vec<ZoneGroup>>, String>)
    ensures
        match xml_parse(status_xml@) {
            Err(e) => res matches Err(m) && m@ == e,
            Ok(nodes) => if status_groups(nodes, group_lists(nodes)).len() > 0 {
                res matches Ok(Some(v)) && stable_sort_of::<ZoneGroup>(views(v@), status_groups(nodes, group_lists(nodes)))
            } else {
                match topology_text {
                    None => res matches Ok(None),
                    Some(t) => match res {
                        Ok(Some(v)) => topology_read(t@, Ok(views(v@))),
                        Err(e) => topology_read(t@, Err(e@)),
                        Ok(None) => false,
                    },
                }
            },
        },
{
    match zone_groups_from_status(status_xml)? {
        Some(groups) => Ok(Some(groups)),
        None => match topology_text {
            None => Ok(None),
            Some(t) => match zone_groups_from_topology(t) {
                Ok(groups) => Ok(Some(groups)),
                Err(e) => Err(e),
            },
        },
    }
}

// ── Requests ───────────────────────────────────────────────────────────

/// The start of every SOAP envelope these requests send.
pub const ENVELOPE_HEAD: &'static str = r#"<?xml version="1.0" encoding="utf-8"?>
<s:Envelope xmlns:s="http://schemas.xmlsoap.org/soap/envelope/" s:encodingStyle="http://schemas.xmlsoap.org/soap/encoding/">
  <s:Body>
"#;

/// The end of every SOAP envelope these requests send.
pub const ENVELOPE_TAIL: &'static str = r#"
  </s:Body>
</s:Envelope>"#;

pub const BROWSE_OPEN: &'static str = r#"    <u:Browse xmlns:u="urn:schemas-upnp-org:service:ContentDirectory:1">
      <ObjectID>"#;

pub const BROWSE_AFTER_ID: &'static str = r#"</ObjectID>
      <BrowseFlag>BrowseDirectChildren</BrowseFlag>
      <Filter>dc:title,dc:creator,upnp:album,upnp:albumArtURI,res</Filter>
      <StartingIndex>"#;

pub const BROWSE_AFTER_START: &'static str = r#"</StartingIndex>
      <RequestedCount>"#;

pub const BROWSE_CLOSE: &'static str = r#"</RequestedCount>
      <SortCriteria></SortCriteria>
    </u:Browse>"#;

/// The ContentDirectory `Browse` envelope for the direct children of `object_id` (inserted
/// as it is), from `start`, at most `limit`.
pub open spec fn browse_body(object_id: Seq<char>, start: u32, limit: u32) -> Seq<char> {
    ENVELOPE_HEAD@ + BROWSE_OPEN@ + object_id + BROWSE_AFTER_ID@ + decimal(start as nat)
        + BROWSE_AFTER_START@ + decimal(limit as nat) + BROWSE_CLOSE@ + ENVELOPE_TAIL@
}

/// The ContentDirectory `Browse` request to a device.
pub open spec fn browse_request(ip: Seq<char>, object_id: Seq<char>, start: u32, limit: u32) -> SoapRequestView {
    SoapRequestView {
        url: device_url(ip, "/MediaServer/ContentDirectory/Control"@),
        soap_action: upnp_action("urn:schemas-upnp-org:service:ContentDirectory:1"@, "Browse"@),
        content_type: xml_content_type(),
        body: browse_body(object_id, start, limit),
    }
}

/// Builds the ContentDirectory `Browse` request for the direct children of `object_id`.
pub fn browse_directory_request(ip: &str, object_id: &str, start: u32, limit: u32) -> (res: SoapRequest)
    ensures
        res@ == browse_request(ip@, object_id@, start, limit),
{
    let mut out: Vec<char> = Vec::new();
    push_str(&mut out, ENVELOPE_HEAD);
    push_str(&mut out, BROWSE_OPEN);
    push_str(&mut out, object_id);
    push_str(&mut out, BROWSE_AFTER_ID);
    push_decimal(&mut out, start as u64);
    push_str(&mut out, BROWSE_AFTER_START);
    push_decimal(&mut out, limit as u64);
    push_str(&mut out, BROWSE_CLOSE);
    push_str(&mut out, ENVELOPE_TAIL);
    assert(out@ =~= browse_body(object_id@, start, limit));
    make_request(
        device_url_exec(ip, "/MediaServer/ContentDirectory/Control"),
        upnp_action_exec("urn:schemas-upnp-org:service:ContentDirectory:1", "Browse"),
        from_chars(&out),
    )
}

/// Builds the request for the play queue (object `Q:0`).
pub fn queue_request(ip: &str, start: u32, limit: u32) -> (res: SoapRequest)
    ensures
        res@ == browse_request(ip@, "Q:0"@, start, limit),
{
    browse_directory_request(ip, "Q:0", start, limit)
}

/// The page that lists a household's zone groups, on the device at `ip`.
pub fn zone_status_url(ip: &str) -> (res: String)
    ensures
        res@ == device_url(ip@, "/status/zp"@),
{
    device_url_exec(ip, "/status/zp")
}

pub const ZONE_GROUP_STATE_CALL: &'static str = r#"    <u:GetZoneGroupState xmlns:u="urn:schemas-upnp-org:service:ZoneGroupTopology:1">
      <InstanceID>0</InstanceID>
    </u:GetZoneGroupState>"#;

/// The ZoneGroupTopology `GetZoneGroupState` request, which is asked where the status page
/// lists no group.
pub open spec fn zone_group_state_request_view(ip: Seq<char>) -> SoapRequestView {
    SoapRequestView {
        url: device_url(ip, "/ZoneGroupTopology/Control"@),
        soap_action: upnp_action("urn:schemas-upnp-org:service:ZoneGroupTopology:1"@, "GetZoneGroupState"@),
        content_type: xml_content_type(),
        body: ENVELOPE_HEAD@ + ZONE_GROUP_STATE_CALL@ + ENVELOPE_TAIL@,
    }
}

/// Builds the ZoneGroupTopology `GetZoneGroupState` request.
pub fn zone_group_state_request(ip: &str) -> (res: SoapRequest)
    ensures
        res@ == zone_group_state_request_view(ip@),
{
    let mut out: Vec<char> = Vec::new();
    push_str(&mut out, ENVELOPE_HEAD);
    push_str(&mut out, ZONE_GROUP_STATE_CALL);
    push_str(&mut out, ENVELOPE_TAIL);
    make_request(
        device_url_exec(ip, "/ZoneGroupTopology/Control"),
        upnp_action_exec("urn:schemas-upnp-org:service:ZoneGroupTopology:1", "GetZoneGroupState"),
        from_chars(&out),
    )
}

/// Reads the play queue out of a `Browse` answer: its entities replaced, then its DIDL-Lite
/// items read.
pub fn queue_from_response(text: &str) -> (res: Result<Vec<QueueItem>, String>)
    ensures
        match res {
            Ok(items) => didl_queue_result(xml_parse(unescape_lgaq(text@))) == Ok::<
                Seq<QueueItemView>,
                Seq<char>,
            >(items@.map_values(|q: QueueItem| q@)),
            Err(e) => didl_queue_result(xml_parse(unescape_lgaq(text@))) == Err::<
                Seq<QueueItemView>,
                Seq<char>,
            >(e@),
        },
{
    let unescaped = unescape_entities(text);
    parse_didl_queue(unescaped.as_str())
}

/// Reads a directory listing out of a `Browse` answer: its entities replaced, then its
/// DIDL-Lite containers and items read.
pub fn browse_from_response(text: &str) -> (res: Result<Vec<BrowserItem>, String>)
    ensures
        match res {
            Ok(items) => didl_browse_result(xml_parse(unescape_lgaq(text@))) == Ok::<
                Seq<BrowserItemView>,
                Seq<char>,
            >(items@.map_values(|b: BrowserItem| b@)),
            Err(e) => didl_browse_result(xml_parse(unescape_lgaq(text@))) == Err::<
                Seq<BrowserItemView>,
                Seq<char>,
            >(e@),
        },
{
    let unescaped = unescape_entities(text);
    parse_didl_browse(unescaped.as_str())
}

pub const SET_URI_OPEN: &'static str = r#"    <u:SetAVTransportURI xmlns:u="urn:schemas-upnp-org:service:AVTransport:1">
      <InstanceID>0</InstanceID>
      <CurrentURI>"#;

pub const SET_URI_MIDDLE: &'static str = r#"</CurrentURI>
      <CurrentURIMetaData>"#;

pub const SET_URI_CLOSE: &'static str = r#"</CurrentURIMetaData>
    </u:SetAVTransportURI>"#;

pub const PLAY_CALL: &'static str = r#"    <u:Play xmlns:u="urn:schemas-upnp-org:service:AVTransport:1">
      <InstanceID>0</InstanceID>
      <Speed>1</Speed>
    </u:Play>"#;

pub const SEEK_OPEN: &'static str = r#"    <u:Seek xmlns:u="urn:schemas-upnp-org:service:AVTransport:1">
      <InstanceID>0</InstanceID>
      <Unit>TRACK_NR</Unit>
      <Target>"#;

pub const SEEK_CLOSE: &'static str = r#"</Target>
    </u:Seek>"#;

pub const ADD_OPEN: &'static str = r#"    <u:AddURIToQueue xmlns:u="urn:schemas-upnp-org:service:AVTransport:1">
      <InstanceID>0</InstanceID>
      <EnqueuedURI>"#;

pub const ADD_MIDDLE: &'static str = r#"</EnqueuedURI>
      <EnqueuedURIMetaData>"#;

pub const ADD_CLOSE: &'static str = r#"</EnqueuedURIMetaData>
      <DesiredFirstTrackNumberEnqueued>0</DesiredFirstTrackNumberEnqueued>
      <EnqueueAsNext>1</EnqueueAsNext>
    </u:AddURIToQueue>"#;

/// The URI of the device's own queue.
pub const QUEUE_URI: &'static str = "x-rincon-queue:Q:0#0";

/// The pattern of the track number that `AddURIToQueue` answers with.
pub const FIRST_TRACK_PATTERN: &'static str = r"<FirstTrackNumberEnqueued>(\d+)</FirstTrackNumberEnqueued>";

/// A `SetAVTransportURI` envelope; `uri` and `meta` are inserted as they are.
pub open spec fn set_uri_body(uri: Seq<char>, meta: Seq<char>) -> Seq<char> {
    ENVELOPE_HEAD@ + SET_URI_OPEN@ + uri + SET_URI_MIDDLE@ + meta + SET_URI_CLOSE@ + ENVELOPE_TAIL@
}

/// The `Play` envelope.
pub open spec fn play_body() -> Seq<char> {
    ENVELOPE_HEAD@ + PLAY_CALL@ + ENVELOPE_TAIL@
}

/// A `Seek` to track `target` of the queue.
pub open spec fn seek_track_body(target: Seq<char>) -> Seq<char> {
    ENVELOPE_HEAD@ + SEEK_OPEN@ + target + SEEK_CLOSE@ + ENVELOPE_TAIL@
}

/// An `AddURIToQueue` envelope; `uri` and `meta` are inserted as they are.
pub open spec fn add_to_queue_body(uri: Seq<char>, meta: Seq<char>) -> Seq<char> {
    ENVELOPE_HEAD@ + ADD_OPEN@ + uri + ADD_MIDDLE@ + meta + ADD_CLOSE@ + ENVELOPE_TAIL@
}

/// An AVTransport request to a device.
pub open spec fn av_request(ip: Seq<char>, action: Seq<char>, body: Seq<char>) -> SoapRequestView {
    SoapRequestView {
        url: device_url(ip, "/MediaRenderer/AVTransport/Control"@),
        soap_action: upnp_action("urn:schemas-upnp-org:service:AVTransport:1"@, action),
        content_type: xml_content_type(),
        body: body,
    }
}

/// A step of a sequence.
pub open spec fn step(request: SoapRequestView, must_succeed: bool) -> SoapStepView {
    SoapStepView { request, must_succeed }
}

fn av_request_exec(ip: &str, action: &str, body: Vec<char>) -> (res: SoapRequest)
    ensures
        res@ == av_request(ip@, action@, body@),
{
    make_request(
        device_url_exec(ip, "/MediaRenderer/AVTransport/Control"),
        upnp_action_exec("urn:schemas-upnp-org:service:AVTransport:1", action),
        from_chars(&body),
    )
}

fn set_uri_body_exec(uri: &str, meta: &str) -> (res: Vec<char>)
    ensures
        res@ == set_uri_body(uri@, meta@),
{
    let mut out: Vec<char> = Vec::new();
    push_str(&mut out, ENVELOPE_HEAD);
    push_str(&mut out, SET_URI_OPEN);
    push_str(&mut out, uri);
    push_str(&mut out, SET_URI_MIDDLE);
    push_str(&mut out, meta);
    push_str(&mut out, SET_URI_CLOSE);
    push_str(&mut out, ENVELOPE_TAIL);
    assert(out@ =~= set_uri_body(uri@, meta@));
    out
}

fn play_body_exec() -> (res: Vec<char>)
    ensures
        res@ == play_body(),
{
    let mut out: Vec<char> = Vec::new();
    push_str(&mut out, ENVELOPE_HEAD);
    push_str(&mut out, PLAY_CALL);
    push_str(&mut out, ENVELOPE_TAIL);
    assert(out@ =~= play_body());
    out
}

fn seek_track_body_exec(target: &Vec<char>) -> (res: Vec<char>)
    ensures
        res@ == seek_track_body(target@),
{
    let mut out: Vec<char> = Vec::new();
    push_str(&mut out, ENVELOPE_HEAD);
    push_str(&mut out, SEEK_OPEN);
    push_all(&mut out, target);
    push_str(&mut out, SEEK_CLOSE);
    push_str(&mut out, ENVELOPE_TAIL);
    assert(out@ =~= seek_track_body(target@));
    out
}

/// The requests that play a URI: set it as the transport URI (`uri` and `metadata` escaped),
/// then play; a failure of either ends the sequence.
pub open spec fn play_uri_plan(ip: Seq<char>, uri: Seq<char>, metadata: Seq<char>) -> Seq<SoapStepView> {
    seq![
        step(av_request(ip, "SetAVTransportURI"@, set_uri_body(html_escaped(uri), html_escaped(metadata))), true),
        step(av_request(ip, "Play"@, play_body()), true),
    ]
}

/// Builds the requests that play a URI (with its DIDL-Lite metadata) on a device.
pub fn play_uri_steps(ip: &str, uri: &str, metadata: &str) -> (res: Vec<SoapStep>)
    ensures
        views(res@) == play_uri_plan(ip@, uri@, metadata@),
{
    let eu = html_escape(uri);
    let em = html_escape(metadata);
    let set = av_request_exec(ip, "SetAVTransportURI", set_uri_body_exec(eu.as_str(), em.as_str()));
    let play = av_request_exec(ip, "Play", play_body_exec());
    let mut steps: Vec<SoapStep> = Vec::new();
    steps.push(SoapStep { request: set, must_succeed: true });
    steps.push(SoapStep { request: play, must_succeed: true });
    assert(views(steps@) =~= play_uri_plan(ip@, uri@, metadata@));
    steps
}

/// The requests that play track `target` of the queue: switch to the queue (a failure is
/// passed over: the device may be on it already), seek to the track, play.
pub open spec fn queue_track_plan(ip: Seq<char>, target: Seq<char>) -> Seq<SoapStepView> {
    seq![
        step(av_request(ip, "SetAVTransportURI"@, set_uri_body(QUEUE_URI@, Seq::empty())), false),
        step(av_request(ip, "Seek"@, seek_track_body(target)), true),
        step(av_request(ip, "Play"@, play_body()), true),
    ]
}

fn queue_track_steps(ip: &str, target: &Vec<char>) -> (res: Vec<SoapStep>)
    ensures
        views(res@) == queue_track_plan(ip@, target@),
{
    let set = av_request_exec(ip, "SetAVTransportURI", set_uri_body_exec(QUEUE_URI, ""));
    let seek = av_request_exec(ip, "Seek", seek_track_body_exec(target));
    let play = av_request_exec(ip, "Play", play_body_exec());
    let mut steps: Vec<SoapStep> = Vec::new();
    steps.push(SoapStep { request: set, must_succeed: false });
    steps.push(SoapStep { request: seek, must_succeed: true });
    steps.push(SoapStep { request: play, must_succeed: true });
    proof {
        reveal_strlit("");
        assert(""@ =~= Seq::<char>::empty());
    }
    assert(views(steps@) =~= queue_track_plan(ip@, target@));
    steps
}

/// Builds the requests that play track `track_index` of a device's queue.
pub fn play_from_queue_steps(ip: &str, track_index: u32) -> (res: Vec<SoapStep>)
    ensures
        views(res@) == queue_track_plan(ip@, decimal(track_index as nat)),
{
    let mut target: Vec<char> = Vec::new();
    push_decimal(&mut target, track_index as u64);
    assert(target@ =~= decimal(track_index as nat));
    queue_track_steps(ip, &target)
}

/// The `AddURIToQueue` request for a URI (`uri` and `metadata` escaped), to be queued next.
pub open spec fn add_to_queue_plan(ip: Seq<char>, uri: Seq<char>, metadata: Seq<char>) -> SoapRequestView {
    av_request(ip, "AddURIToQueue"@, add_to_queue_body(html_escaped(uri), html_escaped(metadata)))
}

/// Builds the request that adds a URI (with its DIDL-Lite metadata) to a device's queue.
pub fn add_to_queue_request(ip: &str, uri: &str, metadata: &str) -> (res: SoapRequest)
    ensures
        res@ == add_to_queue_plan(ip@, uri@, metadata@),
{
    let eu = html_escape(uri);
    let em = html_escape(metadata);
    let mut out: Vec<char> = Vec::new();
    push_str(&mut out, ENVELOPE_HEAD);
    push_str(&mut out, ADD_OPEN);
    push_str(&mut out, eu.as_str());
    push_str(&mut out, ADD_MIDDLE);
    push_str(&mut out, em.as_str());
    push_str(&mut out, ADD_CLOSE);
    push_str(&mut out, ENVELOPE_TAIL);
    assert(out@ =~= add_to_queue_body(html_escaped(uri@), html_escaped(metadata@)));
    av_request_exec(ip, "AddURIToQueue", out)
}

/// The queue position that an `AddURIToQueue` answer reports: the digits of its
/// `FirstTrackNumberEnqueued` element, or `0` where the answer holds none.
pub open spec fn enqueued_track(response: Seq<char>) -> Seq<char> {
    match regex_capture(FIRST_TRACK_PATTERN@, response, 1) {
        Ok(Some(t)) => t,
        _ => "0"@,
    }
}

/// Builds the requests that follow an `AddURIToQueue` answer: play the track it reports.
/// (The pattern compiles; were it to fail, track `0` would be asked for.)
pub fn enqueued_play_steps(ip: &str, response: &str) -> (res: Vec<SoapStep>)
    ensures
        views(res@) == queue_track_plan(ip@, enqueued_track(response@)),
{
    let track = match regex_capture_group(FIRST_TRACK_PATTERN, response, 1) {
        Ok(Some(t)) => t,
        _ => "0".to_string(),
    };
    let target = to_chars(track.as_str());
    queue_track_steps(ip, &target)
}

// ── Device description ─────────────────────────────────────────────────

/// The text of the element at `root/device/{tag}` below the document root, or the empty
/// string where the path or the text is missing.
pub open spec fn device_field(nodes: Seq<XmlNodeView>, tag: Seq<char>) -> Seq<char> {
    match child_with_tag(nodes, 0, "root"@) {
        None => Seq::empty(),
        Some(r) => match child_with_tag(nodes, r, "device"@) {
            None => Seq::empty(),
            Some(d) => match child_with_tag(nodes, d, tag) {
                None => Seq::empty(),
                Some(x) => match nodes[x].text {
                    Some(t) => t,
                    None => Seq::empty(),
                },
            },
        },
    }
}

/// The first position at or after `from` of a `mimetype` element whose text starts with
/// `image/`.
pub open spec fn image_mimetype_from(nodes: Seq<XmlNodeView>, from: int) -> Option<int>
    decreases nodes.len() - from,
{
    if from < 0 || from >= nodes.len() {
        None
    } else if nodes[from].name == "mimetype"@ && starts_with(
        match nodes[from].text {
            Some(t) => t,
            None => Seq::empty(),
        },
        "image/"@,
    ) {
        Some(from)
    } else {
        image_mimetype_from(nodes, from + 1)
    }
}

/// The device's icon: the `url` text within the parent of the first image `mimetype`.
pub open spec fn device_icon(nodes: Seq<XmlNodeView>) -> Option<Seq<char>> {
    match image_mimetype_from(nodes, 0) {
        None => None,
        Some(j) => match nodes[j].parent {
            None => None,
            Some(p) => text_of(nodes, p, "url"@),
        },
    }
}

/// The device that a description document at `location` describes: the URL's host (or
/// `unknown`) and port (or 1400), the `root/device` fields, the icon, and the `UDN` without
/// its `uuid:` prefixes.
pub open spec fn device_description(location: Seq<char>, xml: Seq<char>) -> Result<SonosDeviceView, Seq<char>> {
    match xml_parse(xml) {
        Err(e) => Err(e),
        Ok(nodes) => match url_parse(location) {
            Err(e) => Err(e),
            Ok((host, port)) => Ok(SonosDeviceView {
                ip: match host {
                    Some(h) => h,
                    None => "unknown"@,
                },
                port: match port {
                    Some(p) => p,
                    None => 1400,
                },
                name: device_field(nodes, "friendlyName"@),
                model: device_field(nodes, "modelName"@),
                model_number: device_field(nodes, "modelNumber"@),
                serial: device_field(nodes, "serialNum"@),
                firmware: device_field(nodes, "softwareVersion"@),
                room_name: device_field(nodes, "roomName"@),
                icon_url: device_icon(nodes),
                uid: replaced(device_field(nodes, "UDN"@), "uuid:"@, ""@),
            }),
        },
    }
}

fn device_field_exec(nodes: &Vec<XmlNode>, tag: &str) -> (res: String)
    ensures
        res@ == device_field(nodes_view(nodes@), tag@),
{
    match child_with_tag_exec(nodes, 0, "root") {
        None => String::new(),
        Some(r) => match child_with_tag_exec(nodes, r, "device") {
            None => String::new(),
            Some(d) => match child_with_tag_exec(nodes, d, tag) {
                None => String::new(),
                Some(x) => {
                    assert(nodes_view(nodes@)[x as int] == nodes@[x as int]@);
                    match &nodes[x].text {
                        Some(t) => from_chars(t),
                        None => String::new(),
                    }
                },
            },
        },
    }
}

fn device_icon_exec(nodes: &Vec<XmlNode>) -> (res: Option<String>)
    requires
        tree_shaped(nodes_view(nodes@)),
    ensures
        opt_view(res) == device_icon(nodes_view(nodes@)),
{
    let ghost nv = nodes_view(nodes@);
    let mime = to_chars("mimetype");
    let image = to_chars("image/");
    let mut j: usize = 0;
    while j < nodes.len()
        invariant
            j <= nodes@.len(),
            nv == nodes_view(nodes@),
            tree_shaped(nv),
            mime@ == "mimetype"@,
            image@ == "image/"@,
            image_mimetype_from(nv, 0) == image_mimetype_from(nv, j as int),
        decreases nodes.len() - j,
    {
        assert(nv[j as int] == nodes@[j as int]@);
        if has_tag(nodes, j, &mime) {
            let t = match &nodes[j].text {
                Some(t) => t.clone(),
                None => Vec::new(),
            };
            if starts_with_exec(&t, &image) {
                return match nodes[j].parent {
                    None => None,
                    Some(p) => match text_of_exec(nodes, p, "url") {
                        Some(u) => Some(from_chars(&u)),
                        None => None,
                    },
                };
            }
        }
        j = j + 1;
    }
    None
}

/// Reads a device out of the description document fetched from `location`.
pub fn device_from_description(location: &str, xml: &str) -> (res: Result<SonosDevice, String>)
    ensures
        match res {
            Ok(d) => device_description(location@, xml@) == Ok::<SonosDeviceView, Seq<char>>(d@),
            Err(e) => device_description(location@, xml@) == Err::<SonosDeviceView, Seq<char>>(e@),
        },
{
    let nodes = match parse_xml(xml) {
        Ok(n) => n,
        Err(e) => return Err(e),
    };
    let url = match parse_url(location) {
        Ok(u) => u,
        Err(e) => return Err(e),
    };
    let ip = match url.host {
        Some(h) => h,
        None => "unknown".to_string(),
    };
    let port = match url.port {
        Some(p) => p,
        None => 1400,
    };
    let udn = device_field_exec(&nodes, "UDN");
    proof {
        reveal_strlit("uuid:");
    }
    let uid = replace_str(udn.as_str(), "uuid:", "");
    Ok(SonosDevice {
        ip: ip,
        port: port,
        name: device_field_exec(&nodes, "friendlyName"),
        model: device_field_exec(&nodes, "modelName"),
        model_number: device_field_exec(&nodes, "modelNumber"),
        serial: device_field_exec(&nodes, "serialNum"),
        firmware: device_field_exec(&nodes, "softwareVersion"),
        room_name: device_field_exec(&nodes, "roomName"),
        icon_url: device_icon_exec(&nodes),
        uid: uid,
    })
}

// ── Discovery ──────────────────────────────────────────────────────────

impl crate::sort::SortKey for SonosDevice {
    open spec fn key_of(v: SonosDeviceView) -> Seq<char> {
        v.room_name
    }

    fn sort_key_chars(&self) -> (r: Vec<char>) {
        to_chars(self.room_name.as_str())
    }
}

/// Some device of `s` has IP `ip`.
pub open spec fn ip_listed(s: Seq<SonosDeviceView>, ip: Seq<char>) -> bool {
    exists|i: int| 0 <= i < s.len() && #[trigger] s[i].ip == ip
}

/// The first device found at each IP, in the order found.
pub open spec fn first_per_ip(s: Seq<SonosDeviceView>) -> Seq<SonosDeviceView>
    decreases s.len(),
{
    if s.len() == 0 {
        Seq::empty()
    } else {
        let prev = first_per_ip(s.drop_last());
        if ip_listed(prev, s.last().ip) {
            prev
        } else {
            prev.push(s.last())
        }
    }
}

/// The devices to show after discovery: one per IP (the first found there), sorted by room
/// name.
pub fn merge_devices(devices: Vec<SonosDevice>) -> (res: Vec<SonosDevice>)
    ensures
        stable_sort_of::<SonosDevice>(views(res@), first_per_ip(views(devices@))),
{
    let ghost orig = views(devices@);
    let mut input = devices;
    let mut kept: Vec<SonosDevice> = Vec::new();
    let ghost mut done: Seq<SonosDeviceView> = Seq::empty();
    assert(done + views(input@) =~= orig);
    assert(views(kept@) =~= first_per_ip(done));
    while input.len() > 0
        invariant
            orig == done + views(input@),
            views(kept@) == first_per_ip(done),
        decreases input.len(),
    {
        let ghost input0 = views(input@);
        let d = input.remove(0);
        let mut seen = false;
        let mut k: usize = 0;
        while k < kept.len()
            invariant
                k <= kept@.len(),
                seen == exists|i: int| 0 <= i < k && #[trigger] kept@[i]@.ip == d@.ip,
            decreases kept.len() - k,
        {
            let same = kept[k].ip == d.ip;
            proof {
                if same {
                    assert(kept@[k as int]@.ip == d@.ip);
                } else {
                    assert(kept@[k as int]@.ip != d@.ip);
                }
            }
            seen = seen || same;
            k = k + 1;
        }
        proof {
            let prev = views(kept@);
            assert(seen == ip_listed(prev, d@.ip)) by {
                if seen {
                    let i = choose|i: int| 0 <= i < k && #[trigger] kept@[i]@.ip == d@.ip;
                    assert(prev[i].ip == d@.ip);
                }
                if ip_listed(prev, d@.ip) {
                    let i = choose|i: int| 0 <= i < prev.len() && #[trigger] prev[i].ip == d@.ip;
                    assert(kept@[i]@.ip == d@.ip);
                }
            }
            assert(done.push(d@).drop_last() =~= done);
        }
        let ghost kv = views(kept@);
        if !seen {
            kept.push(d);
            assert(views(kept@) =~= kv.push(d@));
        }
        proof {
            done = done.push(d@);
            assert(orig =~= done + views(input@)) by {
                assert(input0 =~= seq![d@] + views(input@));
            }
        }
    }
    assert(done =~= orig);
    stable_sort_by_key(kept)
}

/// No two devices share an IP.
pub open spec fn ips_distinct(s: Seq<SonosDeviceView>) -> bool {
    forall|i: int, j: int| 0 <= i < j < s.len() ==> #[trigger] s[i].ip != #[trigger] s[j].ip
}

proof fn lemma_first_per_ip_distinct(s: Seq<SonosDeviceView>)
    ensures
        ips_distinct(first_per_ip(s)),
    decreases s.len(),
{
    if s.len() > 0 {
        lemma_first_per_ip_distinct(s.drop_last());
        let prev = first_per_ip(s.drop_last());
        let r = first_per_ip(s);
        if !ip_listed(prev, s.last().ip) {
            assert forall|i: int, j: int| 0 <= i < j < r.len() implies #[trigger] r[i].ip != #[trigger] r[j].ip by {
                if j == r.len() - 1 {
                    assert(r[i] == prev[i]);
                    if r[i].ip == r[j].ip {
                        assert(prev[i].ip == s.last().ip);
                    }
                } else {
                    assert(r[i] == prev[i] && r[j] == prev[j]);
                }
            }
        }
    }
}

/// Discovery sorts by room: in what `merge_devices` returns for the devices found, no
/// device's room name sorts before that of a device listed earlier, and the devices are
/// those kept for their IPs, each as often as it was kept.
pub proof fn lemma_merged_sorted_by_room(out: Seq<SonosDeviceView>, found: Seq<SonosDeviceView>)
    requires
        stable_sort_of::<SonosDevice>(out, first_per_ip(found)),
    ensures
        forall|i: int, j: int| 0 <= i < j < out.len() ==> !lex_lt(#[trigger] out[j].room_name, #[trigger] out[i].room_name),
        out.to_multiset() == first_per_ip(found).to_multiset(),
{
    crate::sort::lemma_stable_sort_permutes::<SonosDevice>(out, first_per_ip(found));
    assert forall|i: int, j: int| 0 <= i < j < out.len() implies !lex_lt(#[trigger] out[j].room_name, #[trigger] out[i].room_name) by {
        assert(!lex_lt(<SonosDevice as crate::sort::SortKey>::key_of(out[j]), <SonosDevice as crate::sort::SortKey>::key_of(out[i])));
    }
}

/// Discovery lists each speaker once: in what `merge_devices` returns for the devices found,
/// no two devices share an IP.
pub proof fn lemma_merged_ips_distinct(out: Seq<SonosDeviceView>, found: Seq<SonosDeviceView>)
    requires
        stable_sort_of::<SonosDevice>(out, first_per_ip(found)),
    ensures
        ips_distinct(out),
{
    broadcast use vstd::seq_lib::group_to_multiset_ensures;

    let input = first_per_ip(found);
    lemma_first_per_ip_distinct(found);
    crate::sort::lemma_stable_sort_permutes::<SonosDevice>(out, input);
    assert(input.no_duplicates()) by {
        assert forall|i: int, j: int| 0 <= i < input.len() && 0 <= j < input.len() && i != j implies input[i] != input[j] by {
            if i < j {
                assert(input[i].ip != input[j].ip);
            } else {
                assert(input[j].ip != input[i].ip);
            }
        }
    }
    input.lemma_multiset_has_no_duplicates();
    out.lemma_multiset_has_no_duplicates_conv();
    assert forall|i: int, j: int| 0 <= i < j < out.len() implies #[trigger] out[i].ip != #[trigger] out[j].ip by {
        if out[i].ip == out[j].ip {
            assert(out[i] != out[j]);
            assert(out.contains(out[i]));
            assert(out.contains(out[j]));
            assert(input.to_multiset().count(out[i]) > 0);
            assert(input.to_multiset().count(out[j]) > 0);
            let p = choose|p: int| 0 <= p < input.len() && input[p] == out[i];
            let q = choose|q: int| 0 <= q < input.len() && input[q] == out[j];
            if p < q {
                assert(input[p].ip != input[q].ip);
            } else {
                assert(input[q].ip != input[p].ip);
            }
        }
    }
}

/// A group as the library hands it out: it has a coordinator with an IP, and lists only
/// visible members (invisible ones only count among its hidden IPs).
pub open spec fn group_well_formed(g: ZoneGroupView) -> bool {
    &&& g.coordinator_ip.len() > 0
    &&& forall|m: int| 0 <= m < g.members.len() ==> !(#[trigger] g.members[m]).is_invisible
}

proof fn lemma_group_fold_visible(nodes: Seq<XmlNodeView>, ms: Seq<int>, coordinator: Option<Seq<char>>)
    ensures
        forall|m: int| 0 <= m < group_fold(nodes, ms, coordinator).members.len()
            ==> !(#[trigger] group_fold(nodes, ms, coordinator).members[m]).is_invisible,
    decreases ms.len(),
{
    if ms.len() > 0 {
        lemma_group_fold_visible(nodes, ms.drop_last(), coordinator);
    }
}

proof fn lemma_groups_at_well_formed(nodes: Seq<XmlNodeView>, zgs: Seq<int>, from_status: bool)
    ensures
        forall|k: int| 0 <= k < groups_at(nodes, zgs, from_status).len() ==> group_well_formed(
            #[trigger] groups_at(nodes, zgs, from_status)[k],
        ),
    decreases zgs.len(),
{
    if zgs.len() > 0 {
        lemma_groups_at_well_formed(nodes, zgs.drop_last(), from_status);
        let zg = zgs.last();
        let coordinator = if from_status {
            None
        } else {
            Some(attr_value(nodes[zg], "Coordinator"@))
        };
        lemma_group_fold_visible(
            nodes,
            positions_with_tag(nodes, zg, node_end(nodes, zg), "ZoneGroupMember"@),
            coordinator,
        );
        let prev = groups_at(nodes, zgs.drop_last(), from_status);
        let all = groups_at(nodes, zgs, from_status);
        assert forall|k: int| 0 <= k < all.len() implies group_well_formed(#[trigger] all[k]) by {
            if k < prev.len() {
                assert(all[k] == prev[k]);
            } else {
                let g = zone_group_at(nodes, zg, from_status)->Some_0;
                assert(all[k] == g);
            }
        }
    }
}

proof fn lemma_status_groups_well_formed(nodes: Seq<XmlNodeView>, lists: Seq<int>)
    ensures
        forall|k: int| 0 <= k < status_groups(nodes, lists).len() ==> group_well_formed(
            #[trigger] status_groups(nodes, lists)[k],
        ),
    decreases lists.len(),
{
    if lists.len() > 0 {
        let l = lists.last();
        lemma_status_groups_well_formed(nodes, lists.drop_last());
        lemma_groups_at_well_formed(nodes, positions_with_tag(nodes, l, node_end(nodes, l), "ZoneGroup"@), true);
        let a = status_groups(nodes, lists.drop_last());
        let b = groups_at(nodes, positions_with_tag(nodes, l, node_end(nodes, l), "ZoneGroup"@), true);
        assert forall|k: int| 0 <= k < (a + b).len() implies group_well_formed(#[trigger] (a + b)[k]) by {
            if k < a.len() {
                assert((a + b)[k] == a[k]);
            } else {
                assert((a + b)[k] == b[k - a.len()]);
            }
        }
    }
}

proof fn lemma_sorted_groups_well_formed(out: Seq<ZoneGroupView>, input: Seq<ZoneGroupView>)
    requires
        stable_sort_of::<ZoneGroup>(out, input),
        forall|k: int| 0 <= k < input.len() ==> group_well_formed(#[trigger] input[k]),
    ensures
        forall|k: int| 0 <= k < out.len() ==> group_well_formed(#[trigger] out[k]),
{
    broadcast use vstd::seq_lib::group_to_multiset_ensures;

    crate::sort::lemma_stable_sort_permutes::<ZoneGroup>(out, input);
    assert forall|k: int| 0 <= k < out.len() implies group_well_formed(#[trigger] out[k]) by {
        assert(out.contains(out[k]));
        assert(input.to_multiset().count(out[k]) > 0);
        let p = choose|p: int| 0 <= p < input.len() && input[p] == out[k];
        assert(group_well_formed(input[p]));
    }
}

/// Every group read off a status page has a coordinator with an IP and lists only visible
/// members.
pub proof fn lemma_status_zone_groups_well_formed(xml: Seq<char>, out: Seq<ZoneGroupView>)
    requires
        xml_parse(xml) matches Ok(nodes) && stable_sort_of::<ZoneGroup>(out, status_groups(nodes, group_lists(nodes))),
    ensures
        forall|k: int| 0 <= k < out.len() ==> group_well_formed(#[trigger] out[k]),
{
    let nodes = xml_parse(xml)->Ok_0;
    lemma_status_groups_well_formed(nodes, group_lists(nodes));
    lemma_sorted_groups_well_formed(out, status_groups(nodes, group_lists(nodes)));
}

/// Every group read off a topology answer has a coordinator with an IP and lists only
/// visible members.
pub proof fn lemma_topology_zone_groups_well_formed(text: Seq<char>, out: Seq<ZoneGroupView>)
    requires
        xml_parse(topology_document(text)) matches Ok(nodes) && stable_sort_of::<ZoneGroup>(
            out,
            groups_at(nodes, positions_with_tag(nodes, 0, nodes.len() as int, "ZoneGroup"@), false),
        ),
    ensures
        forall|k: int| 0 <= k < out.len() ==> group_well_formed(#[trigger] out[k]),
{
    let nodes = xml_parse(topology_document(text))->Ok_0;
    let input = groups_at(nodes, positions_with_tag(nodes, 0, nodes.len() as int, "ZoneGroup"@), false);
    lemma_groups_at_well_formed(nodes, positions_with_tag(nodes, 0, nodes.len() as int, "ZoneGroup"@), false);
    lemma_sorted_groups_well_formed(out, input);
}

/// The line of `s` that starts at `start` ends at the next line feed, or at the end.
pub open spec fn line_end(s: Seq<char>, start: int) -> int {
    match find_from(s, "\n"@, start) {
        Some(p) => p,
        None => s.len() as int,
    }
}

/// The line of `s` that starts at `start`, without its line feed and, where it ends in a line
/// feed, without a carriage return before it (one item of std's `str::lines`).
pub open spec fn line_at(s: Seq<char>, start: int) -> Seq<char> {
    let e = line_end(s, start);
    let raw = s.subrange(start, e);
    if e < s.len() && raw.len() > 0 && raw.last() == '\r' {
        raw.drop_last()
    } else {
        raw
    }
}

/// The text after the first `:` of a line, trimmed; empty where there is no `:`.
pub open spec fn header_value(line: Seq<char>) -> Seq<char> {
    match find(line, ":"@) {
        Some(p) => trim(line.skip(p + 1)),
        None => trim(Seq::empty()),
    }
}

/// The value of the first line, from the one starting at `start`, whose lowercase starts
/// with `prefix` and whose value is not empty.
pub open spec fn header_from(s: Seq<char>, prefix: Seq<char>, start: int) -> Option<Seq<char>>
    decreases s.len() + 1 - start,
{
    if start < 0 || start >= s.len() {
        None
    } else {
        let line = line_at(s, start);
        let v = header_value(line);
        if starts_with(lowercase(line), prefix) && v.len() > 0 {
            Some(v)
        } else {
            proof {
                lemma_find_from(s, "\n"@, start);
            }
            header_from(s, prefix, line_end(s, start) + 1)
        }
    }
}

/// The value of header `header` (named in any case) in an HTTP-style response: the trimmed
/// text after the colon of the first line that starts with `header:` in lowercase and has a
/// value.
pub open spec fn header_in(response: Seq<char>, header: Seq<char>) -> Option<Seq<char>> {
    header_from(response, lowercase(header) + ":"@, 0)
}

/// Finds the value of `header` in an SSDP response.
pub fn extract_header(response: &str, header: &str) -> (res: Option<String>)
    ensures
        opt_view(res) == header_in(response@, header@),
{
    let mut prefix = to_chars(to_lowercase(header).as_str());
    prefix.push(':');
    proof {
        reveal_strlit(":");
        assert(prefix@ =~= lowercase(header@) + ":"@);
    }
    let s = to_chars(response);
    let lf = to_chars("\n");
    let colon = to_chars(":");
    let mut start: usize = 0;
    while start < s.len()
        invariant
            start <= s@.len(),
            prefix@ == lowercase(header@) + ":"@,
            lf@ == "\n"@,
            colon@ == ":"@,
            header_in(response@, header@) == header_from(s@, prefix@, start as int),
            s@ == response@,
        decreases s.len() - start,
    {
        let e = match find_from_exec(&s, &lf, start) {
            Some(p) => p,
            None => s.len(),
        };
        proof {
            lemma_find_from(s@, "\n"@, start as int);
        }
        assert(e == line_end(s@, start as int));
        let mut line = slice_chars(&s, start, e);
        if e < s.len() && line.len() > 0 && line[line.len() - 1] == '\r' {
            line.pop();
            assert(line@ =~= s@.subrange(start as int, e as int).drop_last());
        }
        assert(line@ == line_at(s@, start as int));
        let lower = to_chars(to_lowercase(from_chars(&line).as_str()).as_str());
        let value = match find_from_exec(&line, &colon, 0) {
            Some(p) => {
                let n = line.len();
                proof {
                    reveal_strlit(":");
                    lemma_find_from(line@, colon@, 0);
                    assert(matches_at(line@, colon@, p as int));
                }
                trim_chars(&slice_chars(&line, p + 1, n))
            },
            None => {
                let empty: Vec<char> = Vec::new();
                assert(empty@ =~= Seq::<char>::empty());
                trim_chars(&empty)
            },
        };
        proof {
            if let Some(p) = find(line@, ":"@) {
                assert(line@.subrange(p + 1, line@.len() as int) =~= line@.skip(p + 1));
            }
        }
        assert(value@ == header_value(line@));
        if starts_with_exec(&lower, &prefix) && value.len() > 0 {
            return Some(from_chars(&value));
        }
        assert(header_from(s@, prefix@, start as int) == header_from(s@, prefix@, e + 1));
        if e == s.len() {
            assert(header_from(s@, prefix@, e + 1) is None);
            return None;
        }
        start = e + 1;
    }
    None
}

// ── SSDP discovery ─────────────────────────────────────────────────────

/// The SSDP search for Sonos zone players.
pub const MSEARCH: &'static str = "M-SEARCH * HTTP/1.1\r\nHost: 239.255.255.250:1900\r\nMan: \"ssdp:discover\"\r\nMX: 3\r\nST: urn:schemas-upnp-org:device:ZonePlayer:1\r\n\r\n";

/// Where the search is sent.
pub const SSDP_MULTICAST_ADDR: &'static str = "239.255.255.250:1900";

/// How often the search is sent.
pub const MSEARCH_SENDS: u32 = 3;

/// The multicast time-to-live of the search.
pub const SSDP_MULTICAST_TTL: u32 = 2;

/// How long one wait for an answer lasts, in seconds.
pub const SSDP_READ_TIMEOUT_SECS: u64 = 2;

/// The header of an answer that holds the device description URL.
pub const LOCATION_HEADER: &'static str = "LOCATION";

/// No two elements are equal.
pub open spec fn distinct(s: Seq<Seq<char>>) -> bool {
    forall|i: int, j: int| 0 <= i < j < s.len() ==> #[trigger] s[i] != #[trigger] s[j]
}

/// The list after an answer whose text is `response`: its location added at the end where it
/// has one that is not listed yet.
pub open spec fn after_answer(locations: Seq<Seq<char>>, response: Seq<char>) -> Seq<Seq<char>> {
    match header_in(response, LOCATION_HEADER@) {
        Some(l) => if locations.contains(l) {
            locations
        } else {
            locations.push(l)
        },
        None => locations,
    }
}

/// Collects the description URLs that SSDP answers name: each once, in the order first
/// named. The socket, the repeats and the deadline are the caller's.
pub struct SsdpCollector {
    locations: Vec<String>,
}

impl SsdpCollector {
    /// The locations collected so far.
    pub closed spec fn collected(&self) -> Seq<Seq<char>> {
        self.locations@.map_values(|s: String| s@)
    }

    #[verifier::type_invariant]
    spec fn inv(&self) -> bool {
        distinct(self.collected())
    }

    /// A collector that has seen no answer.
    pub fn new() -> (res: Self)
        ensures
            res.collected() == Seq::<Seq<char>>::empty(),
            distinct(res.collected()),
    {
        let res = SsdpCollector { locations: Vec::new() };
        assert(res.collected() =~= Seq::<Seq<char>>::empty());
        res
    }

    /// Takes in the text of an answer.
    pub fn on_response(&mut self, response: &str)
        ensures
            final(self).collected() == after_answer(old(self).collected(), response@),
            distinct(final(self).collected()),
    {
        proof {
            use_type_invariant(&*self);
        }
        let ghost old_list = self.collected();
        match extract_header(response, LOCATION_HEADER) {
            None => {},
            Some(location) => {
                let mut seen = false;
                let mut k: usize = 0;
                while k < self.locations.len()
                    invariant
                        k <= self.locations@.len(),
                        old_list == self.collected(),
                        seen == exists|i: int| 0 <= i < k && #[trigger] old_list[i] == location@,
                    decreases self.locations.len() - k,
                {
                    let same = self.locations[k] == location;
                    proof {
                        assert(old_list[k as int] == self.locations@[k as int]@);
                    }
                    seen = seen || same;
                    k = k + 1;
                }
                proof {
                    if old_list.contains(location@) {
                        let i = choose|i: int| 0 <= i < old_list.len() && old_list[i] == location@;
                        assert(old_list[i] == location@);
                    }
                }
                if !seen {
                    let mut list = Vec::new();
                    std::mem::swap(&mut list, &mut self.locations);
                    list.push(location);
                    proof {
                        let nl = list@.map_values(|s: String| s@);
                        assert(nl =~= old_list.push(location@));
                        assert forall|i: int, j: int| 0 <= i < j < nl.len() implies #[trigger] nl[i]
                            != #[trigger] nl[j] by {
                            if j == nl.len() - 1 {
                                assert(old_list[i] == nl[i]);
                            } else {
                                assert(nl[i] == old_list[i] && nl[j] == old_list[j]);
                            }
                        }
                    }
                    self.locations = list;
                }
            },
        }
        proof {
            use_type_invariant(&*self);
        }
    }

    /// Takes in the bytes of an answer, decoded as UTF-8 with invalid sequences replaced.
    pub fn on_datagram(&mut self, datagram: &[u8])
        ensures
            final(self).collected() == after_answer(old(self).collected(), utf8_lossy(datagram@)),
            distinct(final(self).collected()),
    {
        let text = from_utf8_lossy(datagram);
        self.on_response(text.as_str());
    }

    /// Whether a wait that ran out without an answer ends the search: it does once some
    /// location has been collected.
    pub fn stop_on_timeout(&self) -> (res: bool)
        ensures
            res == (self.collected().len() > 0),
    {
        self.locations.len() > 0
    }

    /// Whether the search goes on after `elapsed_secs` whole seconds of a search that may
    /// last `timeout_secs` seconds: it does while less time than that has passed (a time of
    /// `s` whole seconds and a fraction is under `t` seconds exactly when `s < t`).
    pub fn keeps_listening(&self, elapsed_secs: u64, timeout_secs: u64) -> (res: bool)
        ensures
            res == (elapsed_secs < timeout_secs),
    {
        elapsed_secs < timeout_secs
    }

    /// The locations collected, in the order first named.
    pub fn into_locations(self) -> (res: Vec<String>)
        ensures
            res@.map_values(|s: String| s@) == self.collected(),
    {
        self.locations
    }
}

} // verus!
