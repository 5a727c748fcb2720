use nearby::dot11::vendors::VendorsDB;
use nearby::dot11::Dot11Header;
use nearby::mapper::{Collection, Link, Mapper, Node, RadioInfo};

const AP_BSSID: &str = "aa:bb:cc:dd:ee:ff";
const CLIENT: &str = "11:22:33:44:55:66";

fn mac(text: &str) -> [u8; 6] {
    let mut out = [0u8; 6];
    for (i, part) in text.split(':').enumerate() {
        out[i] = u8::from_str_radix(part, 16).unwrap();
    }
    out
}

fn beacon_frame(bssid: &str, ssid: &str) -> Vec<u8> {
    let mut frame: Vec<u8> = vec![0x80, 0x00, 0x00, 0x00];
    frame.extend([0xff; 6]); // addr1: broadcast destination
    frame.extend(mac(bssid)); // addr2: source
    frame.extend(mac(bssid)); // addr3: BSSID
    frame.extend([0x00, 0x00]); // sequence control
    frame.extend([0u8; 8]); // timestamp
    frame.extend([0x64, 0x00]); // interval
    frame.extend([0x01, 0x04]); // capability info
    frame.push(0x00); // SSID element
    frame.push(ssid.len() as u8);
    frame.extend(ssid.as_bytes());
    frame.extend([0x01, 1, 0x82]); // supported rates
    frame
}

fn qos_data_frame(src: &str, dst: &str, bssid: &str) -> Vec<u8> {
    let mut frame: Vec<u8> = vec![0x88, 0x00, 0x00, 0x00];
    frame.extend(mac(dst)); // addr1: destination
    frame.extend(mac(src)); // addr2: source
    frame.extend(mac(bssid)); // addr3: BSSID
    frame.extend([0x00, 0x00]); // sequence control
    frame
}

fn null_data_frame(src: &str, dst: &str, bssid: &str) -> Vec<u8> {
    let mut frame: Vec<u8> = vec![0x48, 0x00, 0x00, 0x00];
    frame.extend(mac(dst));
    frame.extend(mac(src));
    frame.extend(mac(bssid));
    frame.extend([0x00, 0x00]);
    frame
}

fn probe_request_frame(src: &str, bssid: &str, ssid: &str) -> Vec<u8> {
    let mut frame: Vec<u8> = vec![0x40, 0x00, 0x00, 0x00];
    frame.extend([0xff; 6]); // addr1: destination
    frame.extend(mac(src)); // addr2: source
    frame.extend(mac(bssid)); // addr3: BSSID
    frame.extend([0x00, 0x00]);
    frame.push(0x00); // SSID element
    frame.push(ssid.len() as u8);
    frame.extend(ssid.as_bytes());
    frame.extend([0x01, 1, 0x82]); // supported rates
    frame
}

fn radio(signal: i8, channel: u8) -> RadioInfo {
    RadioInfo { signal, channel }
}

fn empty_mapper() -> Mapper {
    Mapper::new(VendorsDB::new(Vec::new()))
}

fn feed(mapper: &mut Mapper, frame: &[u8], signal: i8, channel: u8) -> Option<Collection> {
    let header = Dot11Header::from_bytes(frame).unwrap();
    mapper.map(radio(signal, channel), header, false)
}

fn node_count(collection: &Collection, mac_text: &str) -> usize {
    collection.nodes.iter().filter(|n| n.mac == mac_text).count()
}

fn link_count(collection: &Collection, source: &str, target: &str) -> usize {
    collection.links.iter().filter(|l| l.source == source && l.target == target).count()
}

#[test]
fn beacon_creates_one_collection() {
    let mut mapper = empty_mapper();
    let created = feed(&mut mapper, &beacon_frame(AP_BSSID, "Home"), -40, 6);

    assert_eq!(mapper.net_map.len(), 1);
    let ap = &mapper.net_map[0];
    assert_eq!(ap.ssid, "Home");
    assert_eq!(ap.protocol, "802.11");
    assert_eq!(ap.router_id, AP_BSSID);
    assert_eq!(ap.signal, -40);
    assert_eq!(ap.current_channel, 6);
    assert_eq!(ap.nodes.len(), 1);
    assert_eq!(ap.nodes[0].mac, AP_BSSID);
    assert_eq!(ap.nodes[0].properties.signal, 0);
    assert!(ap.links.is_empty());

    let returned = created.expect("the first Beacon should hand the new collection back");
    assert_eq!(returned.ssid, "Home");
    assert_eq!(returned.router_id, AP_BSSID);
    assert_eq!(returned.nodes.len(), 1);
}

#[test]
fn repeated_beacon_keeps_first_sighting() {
    let mut mapper = empty_mapper();
    let first = feed(&mut mapper, &beacon_frame(AP_BSSID, "Home"), -40, 6);
    assert!(first.is_some());

    let second = feed(&mut mapper, &beacon_frame(AP_BSSID, "Home"), -10, 11);
    assert!(second.is_none());
    assert_eq!(mapper.net_map.len(), 1);
    assert_eq!(mapper.net_map[0].ssid, "Home");
    assert_eq!(mapper.net_map[0].signal, -40);
    assert_eq!(mapper.net_map[0].current_channel, 6);
}

#[test]
fn later_beacon_with_other_ssid_is_ignored() {
    let mut mapper = empty_mapper();
    feed(&mut mapper, &beacon_frame(AP_BSSID, "Home"), -40, 6);
    let second = feed(&mut mapper, &beacon_frame(AP_BSSID, "Evil"), -10, 11);
    assert!(second.is_none());
    assert_eq!(mapper.net_map.len(), 1);
    assert_eq!(mapper.net_map[0].ssid, "Home");
}

#[test]
fn empty_ssid_creates_no_collection() {
    let mut mapper = empty_mapper();
    let created = feed(&mut mapper, &beacon_frame(AP_BSSID, ""), -40, 6);
    assert!(created.is_none());
    assert!(mapper.net_map.is_empty());
}

#[test]
fn broadcast_and_unspecified_bssids_create_no_collection() {
    let mut mapper = empty_mapper();
    assert!(feed(&mut mapper, &beacon_frame("ff:ff:ff:ff:ff:ff", "Home"), -40, 6).is_none());
    assert!(feed(&mut mapper, &beacon_frame("00:00:00:00:00:00", "Home"), -40, 6).is_none());
    assert!(mapper.net_map.is_empty());
}

#[test]
fn identical_data_frames_add_one_node_and_one_link() {
    let mut mapper = empty_mapper();
    feed(&mut mapper, &beacon_frame(AP_BSSID, "Home"), -40, 6);
    feed(&mut mapper, &qos_data_frame(CLIENT, AP_BSSID, AP_BSSID), -50, 6);
    feed(&mut mapper, &qos_data_frame(CLIENT, AP_BSSID, AP_BSSID), -60, 6);

    assert_eq!(mapper.net_map.len(), 1);
    let ap = &mapper.net_map[0];
    assert_eq!(node_count(ap, CLIENT), 1);
    assert_eq!(link_count(ap, CLIENT, AP_BSSID), 1);
}

#[test]
fn node_fields_freeze_at_first_sighting() {
    let mut mapper = empty_mapper();
    feed(&mut mapper, &beacon_frame(AP_BSSID, "Home"), -40, 6);
    feed(&mut mapper, &qos_data_frame(CLIENT, AP_BSSID, AP_BSSID), -50, 6);
    feed(&mut mapper, &qos_data_frame(CLIENT, AP_BSSID, AP_BSSID), -60, 6);

    let ap = &mapper.net_map[0];
    let node = ap.nodes.iter().find(|n| n.mac == CLIENT).unwrap();
    assert_eq!(node.properties.signal, -50);
}

#[test]
fn multicast_macs_never_become_nodes() {
    let mut mapper = empty_mapper();
    feed(&mut mapper, &beacon_frame(AP_BSSID, "Home"), -40, 6);
    feed(&mut mapper, &qos_data_frame("33:33:00:01:02:03", AP_BSSID, AP_BSSID), -50, 6);

    let ap = &mapper.net_map[0];
    assert_eq!(node_count(ap, "33:33:00:01:02:03"), 0);
    assert_eq!(link_count(ap, "33:33:00:01:02:03", AP_BSSID), 0);
}

#[test]
fn broadcast_macs_never_become_nodes() {
    let mut mapper = empty_mapper();
    feed(&mut mapper, &beacon_frame(AP_BSSID, "Home"), -40, 6);
    feed(&mut mapper, &null_data_frame(AP_BSSID, "ff:ff:ff:ff:ff:ff", AP_BSSID), -50, 6);

    let ap = &mapper.net_map[0];
    assert_eq!(node_count(ap, "ff:ff:ff:ff:ff:ff"), 0);
}

#[test]
fn null_data_adds_only_the_destination_edge() {
    let mut mapper = empty_mapper();
    feed(&mut mapper, &beacon_frame(AP_BSSID, "Home"), -40, 6);
    feed(&mut mapper, &null_data_frame("77:88:99:aa:bb:cc", CLIENT, AP_BSSID), -50, 6);

    let ap = &mapper.net_map[0];
    assert_eq!(node_count(ap, CLIENT), 1);
    assert_eq!(node_count(ap, "77:88:99:aa:bb:cc"), 0);
}

#[test]
fn edges_for_unknown_bssids_are_dropped() {
    let mut mapper = empty_mapper();
    feed(&mut mapper, &qos_data_frame(CLIENT, AP_BSSID, AP_BSSID), -50, 6);
    assert!(mapper.net_map.is_empty());
}

#[test]
fn probe_request_adds_an_edge_in_topology_mode() {
    let mut mapper = empty_mapper();
    feed(&mut mapper, &beacon_frame(AP_BSSID, "Home"), -40, 6);
    feed(&mut mapper, &probe_request_frame(CLIENT, AP_BSSID, "Home"), -55, 6);

    let ap = &mapper.net_map[0];
    assert_eq!(node_count(ap, CLIENT), 1);
    assert_eq!(link_count(ap, CLIENT, AP_BSSID), 1);
}

#[test]
fn beacon_then_qos_data_build_the_home_topology() {
    let mut mapper = empty_mapper();
    feed(&mut mapper, &beacon_frame(AP_BSSID, "Home"), -40, 6);
    feed(&mut mapper, &qos_data_frame(CLIENT, AP_BSSID, AP_BSSID), -50, 6);

    assert_eq!(mapper.net_map.len(), 1);
    let ap = &mapper.net_map[0];
    assert_eq!(ap.ssid, "Home");
    assert_eq!(node_count(ap, CLIENT), 1);
    assert_eq!(link_count(ap, CLIENT, AP_BSSID), 1);
}

#[test]
fn vendor_lookup_reads_the_oui() {
    let db = VendorsDB::new(vec![
        ("112233".to_string(), "Apple, Inc.".to_string()),
        ("aabbcc".to_string(), "Acme Networks".to_string()),
    ]);
    assert_eq!(db.lookup(CLIENT.to_string()), "Apple, Inc.");
    assert_eq!(db.lookup(AP_BSSID.to_string()), "Acme Networks");
    assert_eq!(db.lookup("77:88:99:aa:bb:cc".to_string()), "");
}

#[test]
fn collections_are_labelled_with_the_bssid_vendor() {
    let db = VendorsDB::new(vec![("aabbcc".to_string(), "Acme Networks".to_string())]);
    let mut mapper = Mapper::new(db);
    feed(&mut mapper, &beacon_frame(AP_BSSID, "Home"), -40, 6);
    assert_eq!(mapper.net_map[0].label, "Acme Networks");
    assert_eq!(mapper.net_map[0].nodes[0].properties.vendor, "Acme Networks");
}

#[test]
fn phone_vendor_probes_fill_the_people_map() {
    let db = VendorsDB::new(vec![("112233".to_string(), "Apple, Inc.".to_string())]);
    let mut mapper = Mapper::new(db);
    let header = Dot11Header::from_bytes(&probe_request_frame(CLIENT, AP_BSSID, "Home")).unwrap();
    let created = mapper.map(radio(-50, 6), header, true);

    assert!(created.is_none());
    assert!(mapper.net_map.is_empty());
    assert_eq!(mapper.people_map.len(), 1);
    assert_eq!(mapper.people_map[0].mac, CLIENT);
    assert_eq!(mapper.people_map[0].vendor, "Apple, Inc.");
    assert_eq!(mapper.people_map[0].signal, -50);
}

#[test]
fn repeated_probes_overwrite_the_person_record() {
    let db = VendorsDB::new(vec![("112233".to_string(), "Apple, Inc.".to_string())]);
    let mut mapper = Mapper::new(db);
    let first = Dot11Header::from_bytes(&probe_request_frame(CLIENT, AP_BSSID, "Home")).unwrap();
    mapper.map(radio(-50, 6), first, true);
    let second = Dot11Header::from_bytes(&probe_request_frame(CLIENT, AP_BSSID, "Home")).unwrap();
    mapper.map(radio(-42, 6), second, true);

    assert_eq!(mapper.people_map.len(), 1);
    assert_eq!(mapper.people_map[0].signal, -42);
}

#[test]
fn unlisted_vendors_stay_out_of_the_people_map() {
    let db = VendorsDB::new(vec![("112233".to_string(), "Acme Phones".to_string())]);
    let mut mapper = Mapper::new(db);
    let header = Dot11Header::from_bytes(&probe_request_frame(CLIENT, AP_BSSID, "Home")).unwrap();
    mapper.map(radio(-50, 6), header, true);
    assert!(mapper.people_map.is_empty());
}

#[test]
fn beacons_do_nothing_in_people_mode() {
    let mut mapper = empty_mapper();
    let header = Dot11Header::from_bytes(&beacon_frame(AP_BSSID, "Home")).unwrap();
    let created = mapper.map(radio(-40, 6), header, true);
    assert!(created.is_none());
    assert!(mapper.net_map.is_empty());
    assert!(mapper.people_map.is_empty());
}

#[test]
fn collections_start_empty_and_push_in_order() {
    let mut c = Collection::new();
    assert_eq!(c.protocol, "802.11");
    assert_eq!(c.ssid, "");
    assert_eq!(c.signal, 0);
    assert_eq!(c.current_channel, 0);
    assert!(c.nodes.is_empty());
    assert!(c.links.is_empty());

    c.push_node(Node::new(CLIENT.to_string(), "Acme".to_string(), -3));
    c.push_link(Link::new(CLIENT.to_string(), AP_BSSID.to_string()));
    assert_eq!(c.nodes.len(), 1);
    assert_eq!(c.nodes[0].mac, CLIENT);
    assert_eq!(c.nodes[0].properties.vendor, "Acme");
    assert_eq!(c.nodes[0].properties.signal, -3);
    assert_eq!(c.links[0].source, CLIENT);
    assert_eq!(c.links[0].target, AP_BSSID);
}
