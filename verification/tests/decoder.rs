use nearby::dot11::{Dot11Header, FrameControl, FrameSubType, FrameType, MACField};
use nearby::errors::Dot11Error;
use nearby::info::{get_country, supported_rates, BodyInformation, Info, SSID};
use nearby::util::{channel_from_frequency, flag_is_set};

fn sample_address_block() -> Vec<u8> {
    (0u8..26).collect()
}

fn frame_control(to_ds: bool, from_ds: bool) -> FrameControl {
    FrameControl {
        protocol_version: 0,
        frame_type: FrameType::Data,
        frame_subtype: FrameSubType::Data,
        to_ds,
        from_ds,
        more_frag: false,
        retry: false,
        pwr_mgmt: false,
        more_data: false,
        wep: false,
        order: false,
    }
}

#[test]
fn beacon_octet_decodes_management_beacon() {
    assert_eq!(FrameControl::frame_type(0x80), FrameType::Management);
    assert_eq!(FrameControl::frame_subtype(0x80), FrameSubType::Beacon);
    let fc = FrameControl::from_bytes(&[0x80, 0x00]).unwrap();
    assert_eq!(fc.frame_type, FrameType::Management);
    assert_eq!(fc.frame_subtype, FrameSubType::Beacon);
    assert_eq!(fc.protocol_version, 0);
}

#[test]
fn data_octets_decode_data_subtypes() {
    assert_eq!(FrameControl::frame_type(0x88), FrameType::Data);
    assert_eq!(FrameControl::frame_subtype(0x88), FrameSubType::QoS);
    assert_eq!(FrameControl::frame_subtype(0x08), FrameSubType::Data);
    assert_eq!(FrameControl::frame_subtype(0x48), FrameSubType::NullData);
    assert_eq!(FrameControl::frame_subtype(0x40), FrameSubType::ProbeReq);
    assert_eq!(FrameControl::frame_subtype(0xd0), FrameSubType::Unknown);
}

#[test]
fn flag_octet_bits_decode_individually() {
    let fc = FrameControl::from_bytes(&[0x80, 0b0000_0011]).unwrap();
    assert!(fc.to_ds);
    assert!(fc.from_ds);
    assert!(!fc.more_frag);
    assert!(!fc.retry);
    assert!(!fc.pwr_mgmt);
    assert!(!fc.more_data);
    assert!(!fc.wep);
    assert!(!fc.order);

    let fc0 = FrameControl::from_bytes(&[0x80, 0x00]).unwrap();
    assert!(!fc0.to_ds);
    assert!(!fc0.from_ds);
    assert!(!fc0.more_frag);
    assert!(!fc0.retry);
    assert!(!fc0.pwr_mgmt);
    assert!(!fc0.more_data);
    assert!(!fc0.wep);
    assert!(!fc0.order);
}

#[test]
fn flag_is_set_reads_single_bits() {
    assert!(flag_is_set(0b0000_0001, 0));
    assert!(flag_is_set(0b1000_0000, 7));
    assert!(!flag_is_set(0b0000_0001, 1));
    assert!(!flag_is_set(0b0111_1111, 7));
}

#[test]
fn nonzero_protocol_version_is_rejected() {
    assert_eq!(
        FrameControl::from_bytes(&[0x81, 0x00]),
        Err(Dot11Error::UnsupportedProtocolVersion)
    );
    assert_eq!(FrameControl::from_bytes(&[0x82, 0x00]), Err(Dot11Error::UnsupportedProtocolVersion));
}

#[test]
fn short_frame_control_is_truncated() {
    assert_eq!(FrameControl::from_bytes(&[0x80]), Err(Dot11Error::TruncatedInput));
    assert_eq!(FrameControl::from_bytes(&[]), Err(Dot11Error::TruncatedInput));
}

#[test]
fn mac_bytes_format_as_colon_separated_hex() {
    let mac = MACField::from_slice(&[0xde, 0xad, 0xbe, 0xef, 0x00, 0x01]);
    assert_eq!(mac.addr, "de:ad:be:ef:00:01");
}

#[test]
fn mac_formatting_uses_first_six_bytes() {
    let mac = MACField::from_slice(&[0xff, 0x00, 0x10, 0x2a, 0x9b, 0xc4, 0x77]);
    assert_eq!(mac.addr, "ff:00:10:2a:9b:c4");
}

#[test]
fn addresses_resolve_for_wds_frames() {
    let block = sample_address_block();
    let (dst, src, bssid) = Dot11Header::parse_address(frame_control(true, true), &block);
    assert_eq!(dst, "0c:0d:0e:0f:10:11");
    assert_eq!(src, "14:15:16:17:18:19");
    assert_eq!(bssid, "");
}

#[test]
fn addresses_resolve_for_to_ds_frames() {
    let block = sample_address_block();
    let (dst, src, bssid) = Dot11Header::parse_address(frame_control(true, false), &block);
    assert_eq!(dst, "06:07:08:09:0a:0b");
    assert_eq!(src, "0c:0d:0e:0f:10:11");
    assert_eq!(bssid, "00:01:02:03:04:05");
}

#[test]
fn addresses_resolve_for_from_ds_frames() {
    let block = sample_address_block();
    let (dst, src, bssid) = Dot11Header::parse_address(frame_control(false, true), &block);
    assert_eq!(dst, "0c:0d:0e:0f:10:11");
    assert_eq!(src, "00:01:02:03:04:05");
    assert_eq!(bssid, "06:07:08:09:0a:0b");
}

#[test]
fn addresses_resolve_for_intra_bss_frames() {
    let block = sample_address_block();
    let (dst, src, bssid) = Dot11Header::parse_address(frame_control(false, false), &block);
    assert_eq!(dst, "00:01:02:03:04:05");
    assert_eq!(src, "06:07:08:09:0a:0b");
    assert_eq!(bssid, "0c:0d:0e:0f:10:11");
}

#[test]
fn supported_rates_drop_unrecognized_codes() {
    let rates = supported_rates(&[0x01, 3, 0x82, 0x0c, 0x01]).unwrap();
    assert_eq!(rates, vec![10, 60]);
}

#[test]
fn supported_rates_decode_the_whole_table() {
    let rates = supported_rates(&[
        0x01, 14, 0x82, 0x84, 0x8b, 0x0c, 0x12, 0x96, 0x18, 0x24, 0x2c, 0x30, 0x42, 0x48, 0x60,
        0x6c,
    ])
    .unwrap();
    assert_eq!(
        rates,
        vec![10, 20, 55, 60, 90, 110, 120, 180, 220, 240, 330, 360, 480, 540]
    );
}

#[test]
fn supported_rates_require_the_declared_count() {
    assert_eq!(supported_rates(&[0x01, 3, 0x82, 0x0c]), Err(Dot11Error::TruncatedInput));
    assert_eq!(supported_rates(&[0x01]), Err(Dot11Error::TruncatedInput));
}

#[test]
fn ssid_decodes_utf8_text() {
    let ssid = SSID::from_bytes(&[0x00, 4, b'H', b'o', b'm', b'e', 0xaa]).unwrap();
    assert_eq!(ssid.element_id, 0);
    assert_eq!(ssid.ssid_len, 4);
    assert_eq!(ssid.value, "Home");
}

#[test]
fn invalid_utf8_ssid_degrades_to_empty_text() {
    let ssid = SSID::from_bytes(&[0x00, 2, 0xff, 0xfe]).unwrap();
    assert_eq!(ssid.ssid_len, 2);
    assert_eq!(ssid.value, "");
}

#[test]
fn truncated_ssid_is_rejected() {
    assert_eq!(SSID::from_bytes(&[0x00, 5, b'H', b'i']).err(), Some(Dot11Error::TruncatedInput));
    assert_eq!(SSID::from_bytes(&[0x00]).err(), Some(Dot11Error::TruncatedInput));
}

#[test]
fn country_element_is_found_behind_skippable_elements() {
    let country = get_country(&[0x03, 1, 11, 0x32, 2, 0, 0, 0x07, 3, b'U', b'S', b' ']);
    assert_eq!(country.country_code, "US ");
}

#[test]
fn country_scan_stops_at_other_elements() {
    let country = get_country(&[0x2a, 1, 0, 0x07, 3, b'U', b'S', b' ']);
    assert_eq!(country.country_code, "");
}

#[test]
fn country_scan_stops_at_end_of_input() {
    assert_eq!(get_country(&[]).country_code, "");
    assert_eq!(get_country(&[0x03, 4, 1, 2]).country_code, "");
}

#[test]
fn beacon_frame_decodes_end_to_end() {
    let mut frame: Vec<u8> = vec![0x80, 0x00, 0x3a, 0x01];
    frame.extend([0xff; 6]); // addr1: broadcast destination
    frame.extend([0xaa, 0xbb, 0xcc, 0xdd, 0xee, 0xff]); // addr2: source
    frame.extend([0xaa, 0xbb, 0xcc, 0xdd, 0xee, 0xff]); // addr3: BSSID
    frame.extend([0x10, 0x00]); // sequence control
    frame.extend([1, 0, 0, 0, 0, 0, 0, 0]); // timestamp
    frame.extend([0x64, 0x00]); // interval
    frame.extend([0x01, 0x04]); // capability info
    frame.extend([0x00, 4, b'H', b'o', b'm', b'e']); // SSID element
    frame.extend([0x01, 2, 0x82, 0x8b]); // supported rates
    frame.extend([0x07, 3, b'D', b'E', b' ']); // country

    let header = Dot11Header::from_bytes(&frame).unwrap();
    assert_eq!(header.frame_control.frame_type, FrameType::Management);
    assert_eq!(header.frame_control.frame_subtype, FrameSubType::Beacon);
    assert_eq!(header.duration, [0x3a, 0x01]);
    assert_eq!(header.dst, "ff:ff:ff:ff:ff:ff");
    assert_eq!(header.src, "aa:bb:cc:dd:ee:ff");
    assert_eq!(header.bssid, "aa:bb:cc:dd:ee:ff");
    assert_eq!(header.seq_ctl, [0x10, 0x00]);
    match header.info {
        BodyInformation::Beacon(beacon) => {
            assert_eq!(beacon.timestamp, 1);
            assert_eq!(beacon.interval, 100);
            assert_eq!(beacon.cap_info, 0x0401);
            assert_eq!(beacon.ssid.value, "Home");
            assert_eq!(beacon.supported_rates, vec![10, 55]);
            assert_eq!(beacon.country.country_code, "DE ");
            assert_eq!(beacon.current_channel, 0);
        }
        other => panic!("expected a Beacon body, got {:?} variant", variant_name(&other)),
    }
}

fn variant_name(body: &BodyInformation) -> &'static str {
    match body {
        BodyInformation::Beacon(_) => "Beacon",
        BodyInformation::ProbeRequest(_) => "ProbeRequest",
        BodyInformation::ProbeResponse(_) => "ProbeResponse",
        BodyInformation::AssociationRequest(_) => "AssociationRequest",
        BodyInformation::AssociationResponse(_) => "AssociationResponse",
        BodyInformation::UnHandled(_) => "UnHandled",
    }
}

#[test]
fn truncated_beacon_body_drops_the_frame() {
    let mut frame: Vec<u8> = vec![0x80, 0x00, 0x00, 0x00];
    frame.extend([0u8; 20]); // addresses and sequence control
    frame.extend([0u8; 8]); // timestamp only, interval missing
    assert_eq!(Dot11Header::from_bytes(&frame).err(), Some(Dot11Error::TruncatedInput));
}

#[test]
fn short_header_drops_the_frame() {
    let frame = [0x88u8, 0x00, 0x00, 0x00, 1, 2, 3];
    assert_eq!(Dot11Header::from_bytes(&frame).err(), Some(Dot11Error::TruncatedInput));
}

#[test]
fn wds_frame_needs_the_fourth_address() {
    let mut frame: Vec<u8> = vec![0x88, 0x03, 0x00, 0x00];
    frame.extend([0u8; 20]); // only addresses 1-3 and sequence control
    assert_eq!(Dot11Header::from_bytes(&frame).err(), Some(Dot11Error::TruncatedInput));

    let mut full: Vec<u8> = vec![0x88, 0x03, 0x00, 0x00];
    full.extend((0u8..26).collect::<Vec<u8>>());
    let header = Dot11Header::from_bytes(&full).unwrap();
    assert_eq!(header.src, "14:15:16:17:18:19");
    assert_eq!(header.bssid, "");
}

#[test]
fn data_frame_body_is_unhandled() {
    let mut frame: Vec<u8> = vec![0x88, 0x00, 0x00, 0x00];
    frame.extend([0u8; 20]);
    let header = Dot11Header::from_bytes(&frame).unwrap();
    assert!(matches!(header.info, BodyInformation::UnHandled(_)));
}

#[test]
fn probe_request_body_decodes() {
    let mut frame: Vec<u8> = vec![0x40, 0x00, 0x00, 0x00];
    frame.extend([0u8; 20]);
    frame.extend([0x00, 2, b'H', b'i']); // SSID element
    frame.extend([0x01, 1, 0x0c]); // supported rates
    let header = Dot11Header::from_bytes(&frame).unwrap();
    match header.info {
        BodyInformation::ProbeRequest(req) => {
            assert_eq!(req.ssid.value, "Hi");
            assert_eq!(req.supported_rates, vec![60]);
        }
        _ => panic!("expected a ProbeRequest body"),
    }
}

#[test]
fn association_response_body_decodes() {
    let mut frame: Vec<u8> = vec![0x10, 0x00, 0x00, 0x00];
    frame.extend([0u8; 20]);
    frame.extend([0x11, 0x00]); // capability info
    frame.extend([0x00, 0x00]); // status code: success
    frame.extend([0x01, 0xc0]); // association id
    frame.extend([0x01, 2, 0x82, 0x84]); // supported rates
    let header = Dot11Header::from_bytes(&frame).unwrap();
    match header.info {
        BodyInformation::AssociationResponse(resp) => {
            assert_eq!(resp.cap_info, 0x0011);
            assert_eq!(resp.status_code, 0);
            assert_eq!(resp.association_id, 0xc001);
            assert_eq!(resp.supported_rates, vec![10, 20]);
        }
        _ => panic!("expected an AssociationResponse body"),
    }
}

#[test]
fn frame_addresses_decode_the_full_block() {
    let block: Vec<u8> = (0u8..26).collect();
    let addrs = nearby::dot11::FrameAddresses::from_bytes(&block).unwrap();
    assert_eq!(addrs.addr1.addr, "00:01:02:03:04:05");
    assert_eq!(addrs.addr2.addr, "06:07:08:09:0a:0b");
    assert_eq!(addrs.addr3.addr, "0c:0d:0e:0f:10:11");
    assert_eq!(addrs.addr4.addr, "14:15:16:17:18:19");
    assert_eq!(
        nearby::dot11::FrameAddresses::from_bytes(&block[0..20]).err(),
        Some(Dot11Error::TruncatedInput)
    );
}

#[test]
fn header_rejects_unsupported_protocol_versions() {
    let mut frame: Vec<u8> = vec![0x81, 0x00, 0x00, 0x00];
    frame.extend([0u8; 26]);
    assert_eq!(
        Dot11Header::from_bytes(&frame).err(),
        Some(Dot11Error::UnsupportedProtocolVersion)
    );
}

#[test]
fn beacon_timestamp_is_little_endian() {
    let mut frame: Vec<u8> = vec![0x80, 0x00, 0x00, 0x00];
    frame.extend([0u8; 20]);
    frame.extend([0x88, 0x77, 0x66, 0x55, 0x44, 0x33, 0x22, 0x11]); // timestamp
    frame.extend([0x34, 0x12]); // interval
    frame.extend([0x78, 0x56]); // capability info
    frame.extend([0x00, 0]); // empty SSID element
    frame.extend([0x01, 0]); // empty rates element
    let header = Dot11Header::from_bytes(&frame).unwrap();
    match header.info {
        BodyInformation::Beacon(beacon) => {
            assert_eq!(beacon.timestamp, 0x1122334455667788);
            assert_eq!(beacon.interval, 0x1234);
            assert_eq!(beacon.cap_info, 0x5678);
            assert_eq!(beacon.ssid.value, "");
            assert!(beacon.supported_rates.is_empty());
        }
        _ => panic!("expected a Beacon body"),
    }
}

#[test]
fn frequencies_map_to_channel_numbers() {
    assert_eq!(channel_from_frequency(2412), 1);
    assert_eq!(channel_from_frequency(2437), 6);
    assert_eq!(channel_from_frequency(2472), 13);
    assert_eq!(channel_from_frequency(2484), 14);
    assert_eq!(channel_from_frequency(5180), 36);
    assert_eq!(channel_from_frequency(5825), 165);
    assert_eq!(channel_from_frequency(0), 0);
    assert_eq!(channel_from_frequency(1000), 0);
}
