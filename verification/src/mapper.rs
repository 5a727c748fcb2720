//! The topology mapper: folds a stream of decoded frames into a
//! deduplicated graph of access points (one `Collection` per BSSID), their
//! sighted client nodes and links, and — in people mode — a record per
//! probing device whose vendor matches a fixed phone-vendor allow-list.
//!
//! The whole aggregation step is specified by `spec_map_step`: feeding one
//! frame moves the mapper's abstract state exactly as that function says.
//! First sightings win: a collection, node or person field is never
//! refreshed by a later frame for the same key.

use vstd::prelude::*;
use vstd::string::StrSliceExecFns;
use vstd::string::StringExecFns;

use crate::dot11::vendors::{spec_lookup, spec_oui_key, VendorsDB};
use crate::dot11::{Dot11Header, FrameSubType, FrameType, HeaderModel};
use crate::info::{Beacon, BodyInformation, BodyModel};

verus! {

// ---------------------------------------------------------------------------
// Address classes the mapper treats specially
// ---------------------------------------------------------------------------

/// The broadcast address, as MAC text.
pub open spec fn spec_is_broadcast(mac: Seq<char>) -> bool {
    mac == "ff:ff:ff:ff:ff:ff"@
}

/// The unspecified address, as MAC text.
pub open spec fn spec_is_unspecified(mac: Seq<char>) -> bool {
    mac == "00:00:00:00:00:00"@
}

/// MAC text with the IPv6-multicast prefix `33:33:00:`.
pub open spec fn spec_is_multicast(mac: Seq<char>) -> bool {
    mac.len() >= 9 && mac[0] == '3' && mac[1] == '3' && mac[2] == ':' && mac[3] == '3' && mac[4]
        == '3' && mac[5] == ':' && mac[6] == '0' && mac[7] == '0' && mac[8] == ':'
}

fn is_broadcast(mac: &String) -> (r: bool)
    ensures
        r == spec_is_broadcast(mac@),
{
    let b = String::from_str("ff:ff:ff:ff:ff:ff");
    *mac == b
}

fn is_unspecified(mac: &String) -> (r: bool)
    ensures
        r == spec_is_unspecified(mac@),
{
    let u = String::from_str("00:00:00:00:00:00");
    *mac == u
}

fn is_multicast(mac: &String) -> (r: bool)
    ensures
        r == spec_is_multicast(mac@),
{
    let s = mac.as_str();
    if s.unicode_len() < 9 {
        return false;
    }
    s.get_char(0) == '3' && s.get_char(1) == '3' && s.get_char(2) == ':' && s.get_char(3) == '3'
        && s.get_char(4) == '3' && s.get_char(5) == ':' && s.get_char(6) == '0' && s.get_char(7)
        == '0' && s.get_char(8) == ':'
}

// ---------------------------------------------------------------------------
// The phone-vendor allow-list used in people mode
// ---------------------------------------------------------------------------

/// Vendors whose probing devices are taken to be phones.
pub open spec fn spec_is_phone_vendor(v: Seq<char>) -> bool {
    ||| v == "Samsung Electronics Co.,Ltd"@
    ||| v == "Apple, Inc."@
    ||| v == "HTC Corporation"@
    ||| v == "Huawei Symantec Technologies Co.,Ltd."@
    ||| v == "Google, Inc."@
    ||| v == "Microsoft"@
    ||| v == "Motorola (Wuhan) Mobility Technologies Communication Co., Ltd."@
}

fn is_phone_vendor(v: &String) -> (r: bool)
    ensures
        r == spec_is_phone_vendor(v@),
{
    *v == String::from_str("Samsung Electronics Co.,Ltd") || *v == String::from_str("Apple, Inc.")
        || *v == String::from_str("HTC Corporation") || *v == String::from_str(
        "Huawei Symantec Technologies Co.,Ltd.",
    ) || *v == String::from_str("Google, Inc.") || *v == String::from_str("Microsoft") || *v
        == String::from_str("Motorola (Wuhan) Mobility Technologies Communication Co., Ltd.")
}

// ---------------------------------------------------------------------------
// Graph value types and their models
// ---------------------------------------------------------------------------

/// The mathematical shape of one sighted station.
pub struct NodeModel {
    pub mac: Seq<char>,
    pub vendor: Seq<char>,
    pub signal: i8,
}

/// The vendor and signal captured when a station was first seen; kept
/// unchanged on later sightings of the same MAC.
pub struct Properties {
    pub vendor: String,
    pub signal: i8,
}

/// One sighted station in a collection's node set.
pub struct Node {
    pub mac: String,
    pub properties: Properties,
}

impl View for Node {
    type V = NodeModel;

    open spec fn view(&self) -> NodeModel {
        NodeModel {
            mac: self.mac@,
            vendor: self.properties.vendor@,
            signal: self.properties.signal,
        }
    }
}

impl Node {
    /// Builds a node from a MAC, its vendor and the sighting signal.
    pub fn new(mac: String, vendor: String, signal: i8) -> (n: Node)
        ensures
            n@ == (NodeModel { mac: mac@, vendor: vendor@, signal }),
    {
        let properties = Properties { vendor, signal };
        Node { mac, properties }
    }
}

/// The mathematical shape of one directed link.
pub struct LinkModel {
    pub source: Seq<char>,
    pub target: Seq<char>,
}

/// One directed link of the graph; `(a, b)` and `(b, a)` are distinct.
pub struct Link {
    pub source: String,
    pub target: String,
}

impl View for Link {
    type V = LinkModel;

    open spec fn view(&self) -> LinkModel {
        LinkModel { source: self.source@, target: self.target@ }
    }
}

impl Link {
    /// Builds the ordered link from `src` to `dst`.
    pub fn new(src: String, dst: String) -> (l: Link)
        ensures
            l@ == (LinkModel { source: src@, target: dst@ }),
    {
        Link { source: src, target: dst }
    }
}

/// The view of a vector of nodes.
pub open spec fn spec_nodes(s: Seq<Node>) -> Seq<NodeModel> {
    s.map_values(|n: Node| n@)
}

/// The view of a vector of links.
pub open spec fn spec_links(s: Seq<Link>) -> Seq<LinkModel> {
    s.map_values(|l: Link| l@)
}

/// The mathematical shape of one access point's collection.
pub struct CollModel {
    pub ssid: Seq<char>,
    pub protocol: Seq<char>,
    pub version: Seq<char>,
    pub router_id: Seq<char>,
    pub label: Seq<char>,
    pub signal: i8,
    pub current_channel: u8,
    pub nodes: Seq<NodeModel>,
    pub links: Seq<LinkModel>,
}

/// One discovered access point: identity and first-seen radio facts, plus
/// the deduplicated sets of sighted nodes and links.
pub struct Collection {
    pub ssid: String,
    pub protocol: String,
    pub version: String,
    pub router_id: String,
    pub label: String,
    pub signal: i8,
    pub current_channel: u8,
    pub nodes: Vec<Node>,
    pub links: Vec<Link>,
}

impl View for Collection {
    type V = CollModel;

    open spec fn view(&self) -> CollModel {
        CollModel {
            ssid: self.ssid@,
            protocol: self.protocol@,
            version: self.version@,
            router_id: self.router_id@,
            label: self.label@,
            signal: self.signal,
            current_channel: self.current_channel,
            nodes: spec_nodes(self.nodes@),
            links: spec_links(self.links@),
        }
    }
}

impl Collection {
    /// An empty collection speaking the 802.11 protocol.
    pub fn new() -> (r: Collection)
        ensures
            r@.ssid == Seq::<char>::empty(),
            r@.protocol == "802.11"@,
            r@.version == Seq::<char>::empty(),
            r@.router_id == Seq::<char>::empty(),
            r@.label == Seq::<char>::empty(),
            r@.signal == 0i8,
            r@.current_channel == 0u8,
            r@.nodes == Seq::<NodeModel>::empty(),
            r@.links == Seq::<LinkModel>::empty(),
    {
        let r = Collection {
            ssid: String::new(),
            protocol: String::from_str("802.11"),
            version: String::new(),
            router_id: String::new(),
            label: String::new(),
            signal: 0,
            current_channel: 0,
            nodes: Vec::new(),
            links: Vec::new(),
        };
        proof {
            assert(spec_nodes(r.nodes@) =~= Seq::<NodeModel>::empty());
            assert(spec_links(r.links@) =~= Seq::<LinkModel>::empty());
        }
        r
    }

    /// Appends a node; the caller is responsible for deduplication.
    pub fn push_node(&mut self, node: Node)
        ensures
            final(self)@ == (CollModel { nodes: old(self)@.nodes.push(node@), ..old(self)@ }),
    {
        let ghost n = node@;
        self.nodes.push(node);
        proof {
            assert(spec_nodes(self.nodes@) =~= spec_nodes(old(self).nodes@).push(n));
        }
    }

    /// Appends a link; the caller is responsible for deduplication.
    pub fn push_link(&mut self, link: Link)
        ensures
            final(self)@ == (CollModel { links: old(self)@.links.push(link@), ..old(self)@ }),
    {
        let ghost l = link@;
        self.links.push(link);
        proof {
            assert(spec_links(self.links@) =~= spec_links(old(self).links@).push(l));
        }
    }
}

/// The mathematical shape of one person record.
pub struct PersonModel {
    pub mac: Seq<char>,
    pub vendor: Seq<char>,
    pub signal: i8,
}

/// One probing device whose vendor matched the phone allow-list. The
/// distance estimate derived from the sighting's radio metadata is floating
/// point and is kept by the caller alongside these records.
pub struct People {
    pub mac: String,
    pub vendor: String,
    pub signal: i8,
}

impl View for People {
    type V = PersonModel;

    open spec fn view(&self) -> PersonModel {
        PersonModel { mac: self.mac@, vendor: self.vendor@, signal: self.signal }
    }
}

/// The view of a vector of people.
pub open spec fn spec_people(s: Seq<People>) -> Seq<PersonModel> {
    s.map_values(|p: People| p@)
}

/// The view of a vector of collections.
pub open spec fn spec_colls(s: Seq<Collection>) -> Seq<CollModel> {
    s.map_values(|c: Collection| c@)
}

/// The export document: every discovered collection under one root.
pub struct NetworkCollection {
    pub id: String,
    pub collection: Vec<Collection>,
}

/// The per-frame radio metadata the capture source hands over with each
/// frame: the received signal strength and the channel the radio was tuned
/// to.
#[derive(Copy, Clone, PartialEq, Eq, Structural, Debug)]
pub struct RadioInfo {
    pub signal: i8,
    pub channel: u8,
}

// ---------------------------------------------------------------------------
// Searching the keyed collections
// ---------------------------------------------------------------------------

/// Whether some node in `nodes` already carries `mac`.
pub open spec fn spec_node_present(nodes: Seq<NodeModel>, mac: Seq<char>) -> bool {
    exists|i: int| 0 <= i < nodes.len() && (#[trigger] nodes[i]).mac == mac
}

/// Whether `links` already holds exactly the ordered pair `l`.
pub open spec fn spec_link_present(links: Seq<LinkModel>, l: LinkModel) -> bool {
    exists|i: int| 0 <= i < links.len() && (#[trigger] links[i]) == l
}

/// The index of the first collection keyed by `bssid`, or -1.
pub open spec fn spec_coll_find(net: Seq<CollModel>, bssid: Seq<char>) -> int
    decreases net.len(),
{
    if net.len() == 0 {
        -1
    } else if net[0].router_id == bssid {
        0
    } else {
        let r = spec_coll_find(net.drop_first(), bssid);
        if r < 0 {
            -1
        } else {
            r + 1
        }
    }
}

/// The index of the first person record keyed by `mac`, or -1.
pub open spec fn spec_people_find(people: Seq<PersonModel>, mac: Seq<char>) -> int
    decreases people.len(),
{
    if people.len() == 0 {
        -1
    } else if people[0].mac == mac {
        0
    } else {
        let r = spec_people_find(people.drop_first(), mac);
        if r < 0 {
            -1
        } else {
            r + 1
        }
    }
}

/// What `spec_coll_find` finds: the first match when it is non-negative,
/// and no match at all when it is negative.
pub proof fn lemma_coll_find_props(net: Seq<CollModel>, bssid: Seq<char>)
    ensures
        spec_coll_find(net, bssid) >= 0 ==> 0 <= spec_coll_find(net, bssid) < net.len() && net[
            spec_coll_find(net, bssid)
        ].router_id == bssid && (forall|j: int|
            0 <= j < spec_coll_find(net, bssid) ==> (#[trigger] net[j]).router_id != bssid),
        spec_coll_find(net, bssid) < 0 ==> (forall|j: int|
            0 <= j < net.len() ==> (#[trigger] net[j]).router_id != bssid),
    decreases net.len(),
{
    if net.len() > 0 && net[0].router_id != bssid {
        lemma_coll_find_props(net.drop_first(), bssid);
        let r = spec_coll_find(net.drop_first(), bssid);
        if r >= 0 {
            assert(net.drop_first()[r] == net[r + 1]);
            assert forall|j: int| 0 <= j < r + 1 implies (#[trigger] net[j]).router_id != bssid by {
                if j > 0 {
                    assert(net.drop_first()[j - 1] == net[j]);
                }
            }
        } else {
            assert forall|j: int| 0 <= j < net.len() implies (#[trigger] net[j]).router_id
                != bssid by {
                if j > 0 {
                    assert(net.drop_first()[j - 1] == net[j]);
                }
            }
        }
    }
}

/// A linear scan that saw no match before `i` pins `spec_coll_find` down.
pub proof fn lemma_coll_find_at(net: Seq<CollModel>, bssid: Seq<char>, i: int)
    requires
        0 <= i <= net.len(),
        forall|j: int| 0 <= j < i ==> (#[trigger] net[j]).router_id != bssid,
    ensures
        i < net.len() && net[i].router_id == bssid ==> spec_coll_find(net, bssid) == i,
        i == net.len() ==> spec_coll_find(net, bssid) == -1,
    decreases i,
{
    if i > 0 {
        assert(net[0].router_id != bssid);
        assert forall|j: int| 0 <= j < i - 1 implies (#[trigger] net.drop_first()[j]).router_id
            != bssid by {
            assert(net.drop_first()[j] == net[j + 1]);
        }
        lemma_coll_find_at(net.drop_first(), bssid, i - 1);
        if i < net.len() && net[i].router_id == bssid {
            assert(net.drop_first()[i - 1] == net[i]);
        }
    }
}

/// The counterpart of `lemma_coll_find_at` for the people records.
pub proof fn lemma_people_find_at(people: Seq<PersonModel>, mac: Seq<char>, i: int)
    requires
        0 <= i <= people.len(),
        forall|j: int| 0 <= j < i ==> (#[trigger] people[j]).mac != mac,
    ensures
        i < people.len() && people[i].mac == mac ==> spec_people_find(people, mac) == i,
        i == people.len() ==> spec_people_find(people, mac) == -1,
    decreases i,
{
    if i > 0 {
        assert(people[0].mac != mac);
        assert forall|j: int| 0 <= j < i - 1 implies (#[trigger] people.drop_first()[j]).mac
            != mac by {
            assert(people.drop_first()[j] == people[j + 1]);
        }
        lemma_people_find_at(people.drop_first(), mac, i - 1);
        if i < people.len() && people[i].mac == mac {
            assert(people.drop_first()[i - 1] == people[i]);
        }
    }
}

/// The counterpart of `lemma_coll_find_props` for the people records.
pub proof fn lemma_people_find_props(people: Seq<PersonModel>, mac: Seq<char>)
    ensures
        spec_people_find(people, mac) >= 0 ==> 0 <= spec_people_find(people, mac) < people.len()
            && people[spec_people_find(people, mac)].mac == mac,
        spec_people_find(people, mac) < 0 ==> (forall|j: int|
            0 <= j < people.len() ==> (#[trigger] people[j]).mac != mac),
    decreases people.len(),
{
    if people.len() > 0 && people[0].mac != mac {
        lemma_people_find_props(people.drop_first(), mac);
        let r = spec_people_find(people.drop_first(), mac);
        if r >= 0 {
            assert(people.drop_first()[r] == people[r + 1]);
        } else {
            assert forall|j: int| 0 <= j < people.len() implies (#[trigger] people[j]).mac
                != mac by {
                if j > 0 {
                    assert(people.drop_first()[j - 1] == people[j]);
                }
            }
        }
    }
}

fn find_collection(net: &Vec<Collection>, bssid: &String) -> (r: Option<usize>)
    ensures
        (match r {
            Some(i) => i < net@.len() && spec_coll_find(spec_colls(net@), bssid@) == i,
            None => spec_coll_find(spec_colls(net@), bssid@) == -1,
        }),
{
    let ghost netm = spec_colls(net@);
    let mut i: usize = 0;
    while i < net.len()
        invariant
            i <= net@.len(),
            netm == spec_colls(net@),
            netm.len() == net@.len(),
            forall|j: int| 0 <= j < i ==> (#[trigger] netm[j]).router_id != bssid@,
        decreases net@.len() - i,
    {
        proof {
            assert(netm[i as int] == net@[i as int]@);
        }
        if net[i].router_id == *bssid {
            proof {
                lemma_coll_find_at(netm, bssid@, i as int);
            }
            return Some(i);
        }
        i = i + 1;
    }
    proof {
        lemma_coll_find_at(netm, bssid@, i as int);
    }
    None
}

fn find_person(people: &Vec<People>, mac: &String) -> (r: Option<usize>)
    ensures
        (match r {
            Some(i) => i < people@.len() && spec_people_find(spec_people(people@), mac@) == i,
            None => spec_people_find(spec_people(people@), mac@) == -1,
        }),
{
    let ghost pm = spec_people(people@);
    let mut i: usize = 0;
    while i < people.len()
        invariant
            i <= people@.len(),
            pm == spec_people(people@),
            pm.len() == people@.len(),
            forall|j: int| 0 <= j < i ==> (#[trigger] pm[j]).mac != mac@,
        decreases people@.len() - i,
    {
        proof {
            assert(pm[i as int] == people@[i as int]@);
        }
        if people[i].mac == *mac {
            proof {
                lemma_people_find_at(pm, mac@, i as int);
            }
            return Some(i);
        }
        i = i + 1;
    }
    proof {
        lemma_people_find_at(pm, mac@, i as int);
    }
    None
}

fn node_in(nodes: &Vec<Node>, mac: &String) -> (r: bool)
    ensures
        r == spec_node_present(spec_nodes(nodes@), mac@),
{
    let ghost nm = spec_nodes(nodes@);
    let mut i: usize = 0;
    while i < nodes.len()
        invariant
            i <= nodes@.len(),
            nm == spec_nodes(nodes@),
            nm.len() == nodes@.len(),
            forall|j: int| 0 <= j < i ==> (#[trigger] nm[j]).mac != mac@,
        decreases nodes@.len() - i,
    {
        proof {
            assert(nm[i as int] == nodes@[i as int]@);
        }
        if nodes[i].mac == *mac {
            proof {
                assert(nm[i as int].mac == mac@);
            }
            return true;
        }
        i = i + 1;
    }
    false
}

fn link_in(links: &Vec<Link>, link: &Link) -> (r: bool)
    ensures
        r == spec_link_present(spec_links(links@), link@),
{
    let ghost lm = spec_links(links@);
    let mut i: usize = 0;
    while i < links.len()
        invariant
            i <= links@.len(),
            lm == spec_links(links@),
            lm.len() == links@.len(),
            forall|j: int| 0 <= j < i ==> (#[trigger] lm[j]) != link@,
        decreases links@.len() - i,
    {
        proof {
            assert(lm[i as int] == links@[i as int]@);
        }
        if links[i].source == link.source && links[i].target == link.target {
            proof {
                assert(lm[i as int] == link@);
            }
            return true;
        }
        i = i + 1;
    }
    false
}

// ---------------------------------------------------------------------------
// The mapper and its abstract state
// ---------------------------------------------------------------------------

/// The abstract state of a mapper: the vendor table, the per-BSSID
/// collections and the per-MAC people records.
pub struct MapperModel {
    pub vendors: Seq<(Seq<char>, Seq<char>)>,
    pub net: Seq<CollModel>,
    pub people: Seq<PersonModel>,
}

/// The aggregation engine: owns the vendor table and the two keyed
/// collections, and folds one decoded frame in at a time.
pub struct Mapper {
    pub vendors: VendorsDB,
    pub net_map: Vec<Collection>,
    pub people_map: Vec<People>,
}

impl View for Mapper {
    type V = MapperModel;

    open spec fn view(&self) -> MapperModel {
        MapperModel {
            vendors: self.vendors@,
            net: spec_colls(self.net_map@),
            people: spec_people(self.people_map@),
        }
    }
}

/// A collection's internal invariant: node MACs are unique and links are
/// unique as ordered pairs.
pub open spec fn coll_wf(c: CollModel) -> bool {
    &&& (forall|i: int, j: int|
        #![trigger c.nodes[i], c.nodes[j]]
        0 <= i < j < c.nodes.len() ==> c.nodes[i].mac != c.nodes[j].mac)
    &&& (forall|i: int, j: int|
        #![trigger c.links[i], c.links[j]]
        0 <= i < j < c.links.len() ==> c.links[i] != c.links[j])
}

/// The mapper's invariant: one collection per BSSID, each internally
/// deduplicated, and one people record per MAC.
pub open spec fn mapper_wf(m: MapperModel) -> bool {
    &&& (forall|i: int, j: int|
        #![trigger m.net[i], m.net[j]]
        0 <= i < j < m.net.len() ==> m.net[i].router_id != m.net[j].router_id)
    &&& (forall|i: int| 0 <= i < m.net.len() ==> coll_wf(#[trigger] m.net[i]))
    &&& (forall|i: int, j: int|
        #![trigger m.people[i], m.people[j]]
        0 <= i < j < m.people.len() ==> m.people[i].mac != m.people[j].mac)
}

// ---------------------------------------------------------------------------
// One aggregation step, abstractly
// ---------------------------------------------------------------------------

/// Adds the edge `mac -> bssid` to the collection keyed by `bssid`:
/// broadcast and multicast MACs are rejected, an unknown BSSID drops the
/// edge, and an already-present node or link is left exactly as first seen.
pub open spec fn spec_add_edge_to_net(
    m: MapperModel,
    mac: Seq<char>,
    bssid: Seq<char>,
    signal: i8,
) -> MapperModel {
    if spec_is_broadcast(mac) || spec_is_multicast(mac) {
        m
    } else {
        let i = spec_coll_find(m.net, bssid);
        if i < 0 {
            m
        } else {
            let vendor = spec_lookup(m.vendors, spec_oui_key(mac));
            let n = NodeModel { mac, vendor, signal };
            let c0 = m.net[i];
            let c1 = if spec_node_present(c0.nodes, mac) {
                c0
            } else {
                CollModel { nodes: c0.nodes.push(n), ..c0 }
            };
            let l = LinkModel { source: mac, target: bssid };
            let c2 = if spec_link_present(c1.links, l) {
                c1
            } else {
                CollModel { links: c1.links.push(l), ..c1 }
            };
            MapperModel { net: m.net.update(i, c2), ..m }
        }
    }
}

/// Creates the collection for a Beacon's BSSID: the broadcast address, the
/// unspecified address, an unset BSSID, an already-known BSSID or an empty
/// SSID creates nothing; otherwise the new collection carries this frame's
/// SSID, signal and channel, the vendor label of the BSSID, and a self-node.
pub open spec fn spec_add_access_point(
    m: MapperModel,
    ssid_value: Seq<char>,
    channel: u8,
    signal: i8,
    bssid: Seq<char>,
) -> (MapperModel, Option<CollModel>) {
    if spec_is_broadcast(bssid) || spec_is_unspecified(bssid) || bssid.len() == 0 {
        (m, None)
    } else if spec_coll_find(m.net, bssid) >= 0 {
        (m, None)
    } else if ssid_value.len() == 0 {
        (m, None)
    } else {
        let label = spec_lookup(m.vendors, spec_oui_key(bssid));
        let c = CollModel {
            ssid: ssid_value,
            protocol: "802.11"@,
            version: Seq::empty(),
            router_id: bssid,
            label,
            signal,
            current_channel: channel,
            nodes: seq![NodeModel { mac: bssid, vendor: label, signal: 0 }],
            links: Seq::empty(),
        };
        (MapperModel { net: m.net.push(c), ..m }, Some(c))
    }
}

/// Upserts the people record for a probing MAC whose vendor is on the phone
/// allow-list; any other vendor changes nothing.
pub open spec fn spec_add_people(m: MapperModel, mac: Seq<char>, signal: i8) -> MapperModel {
    let vendor = spec_lookup(m.vendors, spec_oui_key(mac));
    if spec_is_phone_vendor(vendor) {
        let p = PersonModel { mac, vendor, signal };
        let i = spec_people_find(m.people, mac);
        if i < 0 {
            MapperModel { people: m.people.push(p), ..m }
        } else {
            MapperModel { people: m.people.update(i, p), ..m }
        }
    } else {
        m
    }
}

/// How one decoded frame moves the mapper's state, and the collection a
/// Beacon may have created. In people mode only probe requests act; in
/// topology mode probe requests and data frames add edges and Beacons may
/// create access points.
pub open spec fn spec_map_step(
    m: MapperModel,
    signal: i8,
    channel: u8,
    h: HeaderModel,
    people: bool,
) -> (MapperModel, Option<CollModel>) {
    let ft = h.frame_control.frame_type;
    let st = h.frame_control.frame_subtype;
    if people {
        if ft == FrameType::Management && st == FrameSubType::ProbeReq {
            (spec_add_people(m, h.src, signal), None)
        } else {
            (m, None)
        }
    } else if ft == FrameType::Management && st == FrameSubType::ProbeReq {
        (spec_add_edge_to_net(m, h.src, h.bssid, signal), None)
    } else if ft == FrameType::Data && (st == FrameSubType::QoS || st == FrameSubType::Data) {
        (
            spec_add_edge_to_net(
                spec_add_edge_to_net(m, h.src, h.bssid, signal),
                h.dst,
                h.bssid,
                signal,
            ),
            None,
        )
    } else if ft == FrameType::Data && st == FrameSubType::NullData {
        (spec_add_edge_to_net(m, h.dst, h.bssid, signal), None)
    } else if ft == FrameType::Management {
        match h.info {
            BodyModel::Beacon(b) => spec_add_access_point(m, b.ssid.value, channel, signal, h.bssid),
            _ => (m, None),
        }
    } else {
        (m, None)
    }
}

// ---------------------------------------------------------------------------
// Cloning the graph values (so a created collection can be handed back)
// ---------------------------------------------------------------------------

fn clone_nodes(v: &Vec<Node>) -> (r: Vec<Node>)
    ensures
        r@ == v@,
{
    let mut out: Vec<Node> = Vec::new();
    let mut i: usize = 0;
    while i < v.len()
        invariant
            i <= v@.len(),
            out@ == v@.take(i as int),
        decreases v@.len() - i,
    {
        let n = &v[i];
        let copy = Node {
            mac: n.mac.clone(),
            properties: Properties {
                vendor: n.properties.vendor.clone(),
                signal: n.properties.signal,
            },
        };
        proof {
            assert(copy == v@[i as int]);
        }
        out.push(copy);
        proof {
            assert(out@ =~= v@.take(i as int + 1));
        }
        i = i + 1;
    }
    proof {
        assert(v@.take(v@.len() as int) =~= v@);
    }
    out
}

fn clone_links(v: &Vec<Link>) -> (r: Vec<Link>)
    ensures
        r@ == v@,
{
    let mut out: Vec<Link> = Vec::new();
    let mut i: usize = 0;
    while i < v.len()
        invariant
            i <= v@.len(),
            out@ == v@.take(i as int),
        decreases v@.len() - i,
    {
        let l = &v[i];
        let copy = Link { source: l.source.clone(), target: l.target.clone() };
        proof {
            assert(copy == v@[i as int]);
        }
        out.push(copy);
        proof {
            assert(out@ =~= v@.take(i as int + 1));
        }
        i = i + 1;
    }
    proof {
        assert(v@.take(v@.len() as int) =~= v@);
    }
    out
}

fn clone_collection(c: &Collection) -> (r: Collection)
    ensures
        r@ == c@,
{
    Collection {
        ssid: c.ssid.clone(),
        protocol: c.protocol.clone(),
        version: c.version.clone(),
        router_id: c.router_id.clone(),
        label: c.label.clone(),
        signal: c.signal,
        current_channel: c.current_channel,
        nodes: clone_nodes(&c.nodes),
        links: clone_links(&c.links),
    }
}

// ---------------------------------------------------------------------------
// The mapper's executable steps
// ---------------------------------------------------------------------------

impl Mapper {
    /// A mapper over an already-loaded vendor table, with no access points
    /// or people sighted yet.
    pub fn new(vendors: VendorsDB) -> (m: Mapper)
        ensures
            m@ == (MapperModel {
                vendors: vendors@,
                net: Seq::<CollModel>::empty(),
                people: Seq::<PersonModel>::empty(),
            }),
            mapper_wf(m@),
    {
        let m = Mapper { vendors, net_map: Vec::new(), people_map: Vec::new() };
        proof {
            assert(spec_colls(m.net_map@) =~= Seq::<CollModel>::empty());
            assert(spec_people(m.people_map@) =~= Seq::<PersonModel>::empty());
        }
        m
    }

    /// Builds the candidate node for a sighted MAC: its vendor is looked up
    /// now and frozen into the node.
    fn add_node(&self, mac: String, signal: i8) -> (n: Node)
        ensures
            n@ == (NodeModel {
                mac: mac@,
                vendor: spec_lookup(self@.vendors, spec_oui_key(mac@)),
                signal,
            }),
    {
        let vendor = self.vendors.lookup(mac.clone());
        Node::new(mac, vendor, signal)
    }

    /// Adds the edge `mac -> bssid` to the collection keyed by `bssid`,
    /// exactly as `spec_add_edge_to_net` says.
    fn add_to_collection(&mut self, mac: String, bssid: String, signal: i8)
        ensures
            final(self)@ == spec_add_edge_to_net(old(self)@, mac@, bssid@, signal),
    {
        let ghost m0 = self@;
        if is_broadcast(&mac) || is_multicast(&mac) {
            return ;
        }
        let node = self.add_node(mac.clone(), signal);
        let ghost nm = node@;
        let link = Link::new(mac, bssid.clone());
        let ghost lm = link@;
        let idx = match find_collection(&self.net_map, &bssid) {
            Some(i) => i,
            None => {
                return ;
            },
        };
        let ghost c0 = m0.net[idx as int];
        let mut access_point = self.net_map.remove(idx);
        proof {
            assert(access_point@ == c0);
        }
        let ghost c1 = if spec_node_present(c0.nodes, nm.mac) {
            c0
        } else {
            CollModel { nodes: c0.nodes.push(nm), ..c0 }
        };
        if !node_in(&access_point.nodes, &node.mac) {
            access_point.push_node(node);
        }
        proof {
            assert(access_point@ == c1);
        }
        let ghost c2 = if spec_link_present(c1.links, lm) {
            c1
        } else {
            CollModel { links: c1.links.push(lm), ..c1 }
        };
        if !link_in(&access_point.links, &link) {
            access_point.push_link(link);
        }
        proof {
            assert(access_point@ == c2);
        }
        self.net_map.insert(idx, access_point);
        proof {
            assert(spec_colls(self.net_map@) =~= m0.net.update(idx as int, c2));
        }
    }

    /// Creates the collection for a Beacon frame, exactly as
    /// `spec_add_access_point` says, and hands the created collection back.
    fn add_access_point(&mut self, beacon: Beacon, signal: i8, bssid: String) -> (r: Option<
        Collection,
    >)
        ensures
            ({
                let step = spec_add_access_point(
                    old(self)@,
                    beacon@.ssid.value,
                    beacon.current_channel,
                    signal,
                    bssid@,
                );
                final(self)@ == step.0 && (match r {
                    Some(c) => step.1 == Some(c@),
                    None => step.1 is None,
                })
            }),
    {
        let ghost m0 = self@;
        if is_broadcast(&bssid) || is_unspecified(&bssid) {
            return None;
        }
        if bssid.as_str().is_empty() {
            return None;
        }
        match find_collection(&self.net_map, &bssid) {
            Some(_) => {
                return None;
            },
            None => {},
        }
        if beacon.ssid.value.as_str().is_empty() {
            return None;
        }
        let label = self.vendors.lookup(bssid.clone());
        let mut access_point = Collection::new();
        access_point.ssid = beacon.ssid.value.clone();
        access_point.signal = signal;
        access_point.current_channel = beacon.current_channel;
        access_point.router_id = bssid.clone();
        access_point.label = label.clone();
        let node = Node::new(bssid, label, 0);
        access_point.push_node(node);
        let ghost c = access_point@;
        let result = clone_collection(&access_point);
        self.net_map.push(access_point);
        proof {
            assert(c.nodes =~= seq![
                NodeModel {
                    mac: bssid@,
                    vendor: spec_lookup(m0.vendors, spec_oui_key(bssid@)),
                    signal: 0,
                },
            ]);
            assert(c.links =~= Seq::<LinkModel>::empty());
            assert(spec_colls(self.net_map@) =~= m0.net.push(c));
        }
        Some(result)
    }

    /// Upserts the people record for a probing MAC, exactly as
    /// `spec_add_people` says.
    fn add_people(&mut self, src: String, signal: i8)
        ensures
            final(self)@ == spec_add_people(old(self)@, src@, signal),
    {
        let ghost m0 = self@;
        let vendor = self.vendors.lookup(src.clone());
        if is_phone_vendor(&vendor) {
            let ghost pm = PersonModel { mac: src@, vendor: vendor@, signal };
            let person = People { mac: src, vendor, signal };
            proof {
                assert(person@ == pm);
            }
            match find_person(&self.people_map, &person.mac) {
                Some(i) => {
                    self.people_map.remove(i);
                    self.people_map.insert(i, person);
                    proof {
                        assert(spec_people(self.people_map@) =~= m0.people.update(i as int, pm));
                    }
                },
                None => {
                    self.people_map.push(person);
                    proof {
                        assert(spec_people(self.people_map@) =~= m0.people.push(pm));
                    }
                },
            }
        }
    }

    /// Folds one decoded frame into the topology (or, in people mode, the
    /// people records), exactly as `spec_map_step` says; a Beacon that
    /// created a collection hands a copy of it back.
    pub fn map(&mut self, radio: RadioInfo, dot11_header: Dot11Header, people: bool) -> (r: Option<
        Collection,
    >)
        ensures
            final(self)@ == spec_map_step(
                old(self)@,
                radio.signal,
                radio.channel,
                dot11_header@,
                people,
            ).0,
            (match r {
                Some(c) => spec_map_step(
                    old(self)@,
                    radio.signal,
                    radio.channel,
                    dot11_header@,
                    people,
                ).1 == Some(c@),
                None => spec_map_step(
                    old(self)@,
                    radio.signal,
                    radio.channel,
                    dot11_header@,
                    people,
                ).1 is None,
            }),
            mapper_wf(old(self)@) ==> mapper_wf(final(self)@),
    {
        let ghost h = dot11_header@;
        let signal = radio.signal;
        let frame_type = dot11_header.frame_control.frame_type;
        let frame_subtype = dot11_header.frame_control.frame_subtype;
        let r = if people {
            if frame_type == FrameType::Management && frame_subtype == FrameSubType::ProbeReq {
                self.add_people(dot11_header.src, signal);
            }
            None
        } else if frame_type == FrameType::Management && frame_subtype == FrameSubType::ProbeReq {
            self.add_to_collection(dot11_header.src, dot11_header.bssid, signal);
            None
        } else if frame_type == FrameType::Data && (frame_subtype == FrameSubType::QoS
            || frame_subtype == FrameSubType::Data) {
            self.add_to_collection(dot11_header.src, dot11_header.bssid.clone(), signal);
            self.add_to_collection(dot11_header.dst, dot11_header.bssid, signal);
            None
        } else if frame_type == FrameType::Data && frame_subtype == FrameSubType::NullData {
            self.add_to_collection(dot11_header.dst, dot11_header.bssid, signal);
            None
        } else if frame_type == FrameType::Management {
            match dot11_header.info {
                BodyInformation::Beacon(mut beacon) => {
                    beacon.current_channel = radio.channel;
                    self.add_access_point(beacon, signal, dot11_header.bssid)
                },
                _ => None,
            }
        } else {
            None
        };
        proof {
            if mapper_wf(old(self)@) {
                lemma_map_step_preserves_wf(old(self)@, radio.signal, radio.channel, h, people);
            }
        }
        r
    }
}

// ---------------------------------------------------------------------------
// Laws of the aggregation step
// ---------------------------------------------------------------------------

proof fn lemma_add_edge_preserves_wf(m: MapperModel, mac: Seq<char>, bssid: Seq<char>, signal: i8)
    requires
        mapper_wf(m),
    ensures
        mapper_wf(spec_add_edge_to_net(m, mac, bssid, signal)),
{
    let i = spec_coll_find(m.net, bssid);
    if !(spec_is_broadcast(mac) || spec_is_multicast(mac)) && i >= 0 {
        lemma_coll_find_props(m.net, bssid);
        let m2 = spec_add_edge_to_net(m, mac, bssid, signal);
        let vendor = spec_lookup(m.vendors, spec_oui_key(mac));
        let n = NodeModel { mac, vendor, signal };
        let c0 = m.net[i];
        let c1 = if spec_node_present(c0.nodes, mac) {
            c0
        } else {
            CollModel { nodes: c0.nodes.push(n), ..c0 }
        };
        let l = LinkModel { source: mac, target: bssid };
        let c2 = if spec_link_present(c1.links, l) {
            c1
        } else {
            CollModel { links: c1.links.push(l), ..c1 }
        };
        assert(coll_wf(c0));
        assert forall|p: int, q: int|
            #![trigger c2.nodes[p], c2.nodes[q]]
            0 <= p < q < c2.nodes.len() implies c2.nodes[p].mac != c2.nodes[q].mac by {
            if q >= c0.nodes.len() {
                assert(!spec_node_present(c0.nodes, mac));
                assert(c2.nodes[p] == c0.nodes[p]);
                assert(c2.nodes[q] == n);
            }
        }
        assert forall|p: int, q: int|
            #![trigger c2.links[p], c2.links[q]]
            0 <= p < q < c2.links.len() implies c2.links[p] != c2.links[q] by {
            if q >= c1.links.len() {
                assert(!spec_link_present(c1.links, l));
                assert(c2.links[p] == c1.links[p]);
                assert(c2.links[q] == l);
            }
        }
        assert(coll_wf(c2));
        assert forall|j: int| 0 <= j < m2.net.len() implies coll_wf(#[trigger] m2.net[j]) by {
            if j != i {
                assert(m2.net[j] == m.net[j]);
            }
        }
        assert forall|p: int, q: int|
            #![trigger m2.net[p], m2.net[q]]
            0 <= p < q < m2.net.len() implies m2.net[p].router_id != m2.net[q].router_id by {
            assert(m2.net[p].router_id == m.net[p].router_id);
            assert(m2.net[q].router_id == m.net[q].router_id);
        }
    }
}

proof fn lemma_add_access_point_preserves_wf(
    m: MapperModel,
    ssid_value: Seq<char>,
    channel: u8,
    signal: i8,
    bssid: Seq<char>,
)
    requires
        mapper_wf(m),
    ensures
        mapper_wf(spec_add_access_point(m, ssid_value, channel, signal, bssid).0),
{
    let (m2, r) = spec_add_access_point(m, ssid_value, channel, signal, bssid);
    if r is Some {
        lemma_coll_find_props(m.net, bssid);
        let c = m2.net[m2.net.len() - 1];
        assert forall|p: int, q: int|
            #![trigger m2.net[p], m2.net[q]]
            0 <= p < q < m2.net.len() implies m2.net[p].router_id != m2.net[q].router_id by {
            if q == m2.net.len() - 1 {
                assert(m2.net[p] == m.net[p]);
                assert((#[trigger] m.net[p]).router_id != bssid);
            }
        }
        assert(coll_wf(c));
        assert forall|j: int| 0 <= j < m2.net.len() implies coll_wf(#[trigger] m2.net[j]) by {
            if j < m2.net.len() - 1 {
                assert(m2.net[j] == m.net[j]);
            }
        }
    }
}

proof fn lemma_add_people_preserves_wf(m: MapperModel, mac: Seq<char>, signal: i8)
    requires
        mapper_wf(m),
    ensures
        mapper_wf(spec_add_people(m, mac, signal)),
{
    let vendor = spec_lookup(m.vendors, spec_oui_key(mac));
    if spec_is_phone_vendor(vendor) {
        lemma_people_find_props(m.people, mac);
        let m2 = spec_add_people(m, mac, signal);
        let i = spec_people_find(m.people, mac);
        if i < 0 {
            assert forall|p: int, q: int|
                #![trigger m2.people[p], m2.people[q]]
                0 <= p < q < m2.people.len() implies m2.people[p].mac != m2.people[q].mac by {
                if q == m2.people.len() - 1 {
                    assert(m2.people[p] == m.people[p]);
                    assert((#[trigger] m.people[p]).mac != mac);
                }
            }
        } else {
            assert forall|p: int, q: int|
                #![trigger m2.people[p], m2.people[q]]
                0 <= p < q < m2.people.len() implies m2.people[p].mac != m2.people[q].mac by {
                assert(m2.people[p].mac == m.people[p].mac);
                assert(m2.people[q].mac == m.people[q].mac);
            }
        }
    }
}

/// Law: feeding any one frame preserves the mapper's invariant — one
/// collection per BSSID, deduplicated nodes and links, one record per MAC.
pub proof fn lemma_map_step_preserves_wf(
    m: MapperModel,
    signal: i8,
    channel: u8,
    h: HeaderModel,
    people: bool,
)
    requires
        mapper_wf(m),
    ensures
        mapper_wf(spec_map_step(m, signal, channel, h, people).0),
{
    let ft = h.frame_control.frame_type;
    let st = h.frame_control.frame_subtype;
    if people {
        if ft == FrameType::Management && st == FrameSubType::ProbeReq {
            lemma_add_people_preserves_wf(m, h.src, signal);
        }
    } else if ft == FrameType::Management && st == FrameSubType::ProbeReq {
        lemma_add_edge_preserves_wf(m, h.src, h.bssid, signal);
    } else if ft == FrameType::Data && (st == FrameSubType::QoS || st == FrameSubType::Data) {
        lemma_add_edge_preserves_wf(m, h.src, h.bssid, signal);
        lemma_add_edge_preserves_wf(
            spec_add_edge_to_net(m, h.src, h.bssid, signal),
            h.dst,
            h.bssid,
            signal,
        );
    } else if ft == FrameType::Data && st == FrameSubType::NullData {
        lemma_add_edge_preserves_wf(m, h.dst, h.bssid, signal);
    } else if ft == FrameType::Management {
        match h.info {
            BodyModel::Beacon(b) => {
                lemma_add_access_point_preserves_wf(m, b.ssid.value, channel, signal, h.bssid);
            },
            _ => {},
        }
    }
}

/// Law: once a Beacon has created the collection for a BSSID, a second
/// Beacon for the same BSSID changes nothing and creates nothing — the
/// first sighting's SSID, signal and channel stay, whatever the second
/// frame carries.
pub proof fn lemma_beacon_first_seen_wins(
    m: MapperModel,
    v1: Seq<char>,
    ch1: u8,
    s1: i8,
    v2: Seq<char>,
    ch2: u8,
    s2: i8,
    bssid: Seq<char>,
)
    ensures
        ({
            let (m1, r1) = spec_add_access_point(m, v1, ch1, s1, bssid);
            let (m2, r2) = spec_add_access_point(m1, v2, ch2, s2, bssid);
            r1 is Some ==> m2 == m1 && r2 is None
        }),
{
    let (m1, r1) = spec_add_access_point(m, v1, ch1, s1, bssid);
    if r1 is Some {
        lemma_coll_find_props(m1.net, bssid);
        assert(m1.net[m1.net.len() - 1].router_id == bssid);
        assert(spec_coll_find(m1.net, bssid) >= 0);
    }
}

/// Law: adding the same `(mac, bssid)` edge a second time leaves the state
/// exactly as the first addition left it, whatever signal the second
/// sighting carries: at most one node and one link exist for the pair.
pub proof fn lemma_edge_dedup(m: MapperModel, mac: Seq<char>, bssid: Seq<char>, s1: i8, s2: i8)
    ensures
        ({
            let m1 = spec_add_edge_to_net(m, mac, bssid, s1);
            spec_add_edge_to_net(m1, mac, bssid, s2) == m1
        }),
{
    if !(spec_is_broadcast(mac) || spec_is_multicast(mac)) {
        let i = spec_coll_find(m.net, bssid);
        if i >= 0 {
            lemma_coll_find_props(m.net, bssid);
            let m1 = spec_add_edge_to_net(m, mac, bssid, s1);
            let vendor = spec_lookup(m.vendors, spec_oui_key(mac));
            let n = NodeModel { mac, vendor, signal: s1 };
            let c0 = m.net[i];
            let c1 = if spec_node_present(c0.nodes, mac) {
                c0
            } else {
                CollModel { nodes: c0.nodes.push(n), ..c0 }
            };
            let l = LinkModel { source: mac, target: bssid };
            let c2 = if spec_link_present(c1.links, l) {
                c1
            } else {
                CollModel { links: c1.links.push(l), ..c1 }
            };
            assert(m1.net == m.net.update(i, c2));
            assert forall|j: int| 0 <= j < i implies (#[trigger] m1.net[j]).router_id != bssid by {
                assert(m1.net[j] == m.net[j]);
            }
            assert(m1.net[i] == c2);
            assert(c2.router_id == bssid);
            lemma_coll_find_at(m1.net, bssid, i);
            assert(spec_coll_find(m1.net, bssid) == i);
            if !spec_node_present(c0.nodes, mac) {
                assert(c1.nodes[c0.nodes.len() as int].mac == mac);
                assert(spec_node_present(c1.nodes, mac));
            }
            assert(spec_node_present(c2.nodes, mac));
            if !spec_link_present(c1.links, l) {
                assert(c2.links[c1.links.len() as int] == l);
            }
            assert(spec_link_present(c2.links, l));
            let m2 = spec_add_edge_to_net(m1, mac, bssid, s2);
            assert(m1.net.update(i, c2) =~= m1.net);
            assert(m2 == m1);
        }
    }
}

/// Law: a Beacon whose BSSID is the broadcast or the unspecified address
/// never creates a collection, and an edge whose MAC is the broadcast
/// address or carries the multicast prefix never adds a node or a link.
pub proof fn lemma_excluded_addresses(
    m: MapperModel,
    v: Seq<char>,
    ch: u8,
    s: i8,
    bssid: Seq<char>,
    mac: Seq<char>,
    bssid2: Seq<char>,
)
    ensures
        spec_is_broadcast(bssid) || spec_is_unspecified(bssid) ==> spec_add_access_point(
            m,
            v,
            ch,
            s,
            bssid,
        ) == (m, None::<CollModel>),
        spec_is_broadcast(mac) || spec_is_multicast(mac) ==> spec_add_edge_to_net(m, mac, bssid2, s)
            == m,
{
}


} // verus!
