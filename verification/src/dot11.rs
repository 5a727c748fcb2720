//! Decoder for the fixed part of an 802.11 MAC header: the 2-octet
//! frame-control field, the four 6-octet address fields, and the duration
//! and sequence-control fields, plus the dispatch into the body decoders.
//!
//! The address-resolution table, `spec_addresses`, deliberately swaps
//! source and destination relative to the canonical IEEE mapping for the
//! single-flag cases; downstream consumers rely on exactly this mapping.

pub mod vendors;

use vstd::prelude::*;
use vstd::string::StringExecFns;

use crate::errors::Dot11Error;
use crate::info::{
    AssociationRequest, AssociationResponse, Beacon, BodyInformation, BodyModel, Info,
    ProbeRequest, ProbeResponse, spec_association_request, spec_association_response, spec_beacon,
    spec_probe_request, spec_probe_response,
};
use crate::util::{flag_is_set, spec_flag_is_set};

verus! {

/// The four frame classes carried in bits 2..4 of the first control octet.
#[derive(Copy, Clone, PartialEq, Eq, Structural, Hash, Debug)]
pub enum FrameType {
    Management,
    Control,
    Data,
    Unknown,
}

/// The frame subtype carried in bits 4..8 of the first control octet. The
/// numeric code space is reused across frame types: data frames map their
/// codes to the `Data`, `NullData` and `QoS` variants, every other type maps
/// to the management variants.
#[derive(Copy, Clone, PartialEq, Eq, Structural, Hash, Debug)]
pub enum FrameSubType {
    AssoReq,
    AssoResp,
    ReassoReq,
    ReassoResp,
    ProbeReq,
    ProbeResp,
    Beacon,
    Atim,
    Disasso,
    Auth,
    Deauth,
    Data,
    NullData,
    QoS,
    Unknown,
}

// ---------------------------------------------------------------------------
// Frame control
// ---------------------------------------------------------------------------

/// The decoded 2-octet frame-control field.
#[derive(Copy, Clone, PartialEq, Eq, Structural, Debug)]
pub struct FrameControl {
    pub protocol_version: u8,
    pub frame_type: FrameType,
    pub frame_subtype: FrameSubType,
    pub to_ds: bool,
    pub from_ds: bool,
    pub more_frag: bool,
    pub retry: bool,
    pub pwr_mgmt: bool,
    pub more_data: bool,
    pub wep: bool,
    pub order: bool,
}

/// The protocol version held in the two lowest bits of the first octet.
pub open spec fn spec_protocol_version(packet: u8) -> u8 {
    packet & 0b0000_0011
}

/// The frame type held in bits 2..4 of the first octet.
pub open spec fn spec_frame_type(packet: u8) -> FrameType {
    let code = (packet & 0b0000_1100) >> 2;
    if code == 0 {
        FrameType::Management
    } else if code == 1 {
        FrameType::Control
    } else if code == 2 {
        FrameType::Data
    } else {
        FrameType::Unknown
    }
}

/// The frame subtype held in bits 4..8 of the first octet, read against the
/// frame type held in the same octet.
pub open spec fn spec_frame_subtype(packet: u8) -> FrameSubType {
    let code = (packet & 0b1111_0000) >> 4;
    if spec_frame_type(packet) == FrameType::Data {
        if code == 0 {
            FrameSubType::Data
        } else if code == 4 {
            FrameSubType::NullData
        } else if code == 8 {
            FrameSubType::QoS
        } else {
            FrameSubType::Unknown
        }
    } else {
        if code == 0 {
            FrameSubType::AssoReq
        } else if code == 1 {
            FrameSubType::AssoResp
        } else if code == 2 {
            FrameSubType::ReassoReq
        } else if code == 3 {
            FrameSubType::ReassoResp
        } else if code == 4 {
            FrameSubType::ProbeReq
        } else if code == 5 {
            FrameSubType::ProbeResp
        } else if code == 8 {
            FrameSubType::Beacon
        } else if code == 9 {
            FrameSubType::Atim
        } else if code == 10 {
            FrameSubType::Disasso
        } else if code == 11 {
            FrameSubType::Auth
        } else if code == 12 {
            FrameSubType::Deauth
        } else {
            FrameSubType::Unknown
        }
    }
}

/// The frame-control field that the first two octets of `b` decode to: only
/// protocol version 0 is supported, and each flag is one bit of the second
/// octet.
pub open spec fn spec_frame_control(b: Seq<u8>) -> Result<FrameControl, Dot11Error> {
    if b.len() < 2 {
        Err(Dot11Error::TruncatedInput)
    } else if spec_protocol_version(b[0]) != 0 {
        Err(Dot11Error::UnsupportedProtocolVersion)
    } else {
        Ok(
            FrameControl {
                protocol_version: spec_protocol_version(b[0]),
                frame_type: spec_frame_type(b[0]),
                frame_subtype: spec_frame_subtype(b[0]),
                to_ds: spec_flag_is_set(b[1], 0),
                from_ds: spec_flag_is_set(b[1], 1),
                more_frag: spec_flag_is_set(b[1], 2),
                retry: spec_flag_is_set(b[1], 3),
                pwr_mgmt: spec_flag_is_set(b[1], 4),
                more_data: spec_flag_is_set(b[1], 5),
                wep: spec_flag_is_set(b[1], 6),
                order: spec_flag_is_set(b[1], 7),
            },
        )
    }
}

impl FrameControl {
    /// Decodes the frame-control field from the first two octets of `input`.
    pub fn from_bytes(input: &[u8]) -> (r: Result<FrameControl, Dot11Error>)
        ensures
            r == spec_frame_control(input@),
    {
        if input.len() < 2 {
            return Err(Dot11Error::TruncatedInput);
        }
        let version_type_subtype = input[0];
        let flags = input[1];

        if FrameControl::protocol_version(version_type_subtype) != 0 {
            return Err(Dot11Error::UnsupportedProtocolVersion);
        }

        Ok(
            FrameControl {
                protocol_version: FrameControl::protocol_version(version_type_subtype),
                frame_type: FrameControl::frame_type(version_type_subtype),
                frame_subtype: FrameControl::frame_subtype(version_type_subtype),
                to_ds: flag_is_set(flags, 0),
                from_ds: flag_is_set(flags, 1),
                more_frag: flag_is_set(flags, 2),
                retry: flag_is_set(flags, 3),
                pwr_mgmt: flag_is_set(flags, 4),
                more_data: flag_is_set(flags, 5),
                wep: flag_is_set(flags, 6),
                order: flag_is_set(flags, 7),
            },
        )
    }

    /// Reads the protocol version from the first control octet.
    pub fn protocol_version(packet: u8) -> (r: u8)
        ensures
            r == spec_protocol_version(packet),
    {
        packet & 0b0000_0011
    }

    /// Reads the frame type from the first control octet.
    pub fn frame_type(packet: u8) -> (r: FrameType)
        ensures
            r == spec_frame_type(packet),
    {
        match (packet & 0b0000_1100) >> 2 {
            0 => FrameType::Management,
            1 => FrameType::Control,
            2 => FrameType::Data,
            _ => FrameType::Unknown,
        }
    }

    /// Reads the frame subtype from the first control octet, against the
    /// frame type held in the same octet.
    pub fn frame_subtype(packet: u8) -> (r: FrameSubType)
        ensures
            r == spec_frame_subtype(packet),
    {
        let code = (packet & 0b1111_0000) >> 4;
        if FrameControl::frame_type(packet) == FrameType::Data {
            match code {
                0 => FrameSubType::Data,
                4 => FrameSubType::NullData,
                8 => FrameSubType::QoS,
                _ => FrameSubType::Unknown,
            }
        } else {
            match code {
                0 => FrameSubType::AssoReq,
                1 => FrameSubType::AssoResp,
                2 => FrameSubType::ReassoReq,
                3 => FrameSubType::ReassoResp,
                4 => FrameSubType::ProbeReq,
                5 => FrameSubType::ProbeResp,
                8 => FrameSubType::Beacon,
                9 => FrameSubType::Atim,
                10 => FrameSubType::Disasso,
                11 => FrameSubType::Auth,
                12 => FrameSubType::Deauth,
                _ => FrameSubType::Unknown,
            }
        }
    }
}

// ---------------------------------------------------------------------------
// MAC address fields
// ---------------------------------------------------------------------------

/// The character for one hex digit, lower case.
pub open spec fn hex_digit(d: u8) -> char
    recommends
        d < 16,
{
    if d < 10 {
        ((d + 48) as u8) as char
    } else {
        ((d + 87) as u8) as char
    }
}

/// The two lower-case hex characters of one octet.
pub open spec fn mac_byte_chars(b: u8) -> Seq<char> {
    seq![hex_digit(b / 16), hex_digit(b % 16)]
}

/// The colon-separated lower-case hex text of a 6-octet MAC address.
pub open spec fn mac_chars(b: Seq<u8>) -> Seq<char>
    recommends
        b.len() == 6,
{
    mac_byte_chars(b[0]) + seq![':'] + mac_byte_chars(b[1]) + seq![':'] + mac_byte_chars(b[2])
        + seq![':'] + mac_byte_chars(b[3]) + seq![':'] + mac_byte_chars(b[4]) + seq![':']
        + mac_byte_chars(b[5])
}

/// A one-character string for one hex digit.
fn hex_str(d: u8) -> (s: &'static str)
    requires
        d < 16,
    ensures
        s@ =~= seq![hex_digit(d)],
{
    proof {
        reveal_strlit("0");
        reveal_strlit("1");
        reveal_strlit("2");
        reveal_strlit("3");
        reveal_strlit("4");
        reveal_strlit("5");
        reveal_strlit("6");
        reveal_strlit("7");
        reveal_strlit("8");
        reveal_strlit("9");
        reveal_strlit("a");
        reveal_strlit("b");
        reveal_strlit("c");
        reveal_strlit("d");
        reveal_strlit("e");
        reveal_strlit("f");
    }
    match d {
        0 => "0",
        1 => "1",
        2 => "2",
        3 => "3",
        4 => "4",
        5 => "5",
        6 => "6",
        7 => "7",
        8 => "8",
        9 => "9",
        10 => "a",
        11 => "b",
        12 => "c",
        13 => "d",
        14 => "e",
        _ => "f",
    }
}

/// Appends the two hex characters of one octet to `s`.
fn push_byte_hex(s: &mut String, b: u8)
    ensures
        final(s)@ == old(s)@ + mac_byte_chars(b),
{
    let hi: u8 = b >> 4;
    let lo: u8 = b & 0x0f;
    proof {
        assert(b >> 4 == b / 16 && b >> 4 < 16) by (bit_vector);
        assert(b & 0x0f == b % 16 && b & 0x0f < 16) by (bit_vector);
    }
    s.append(hex_str(hi));
    s.append(hex_str(lo));
    proof {
        assert(final(s)@ =~= old(s)@ + mac_byte_chars(b));
    }
}

/// One 6-octet MAC address field, kept as its formatted text.
#[derive(Clone, Debug)]
pub struct MACField {
    pub addr: String,
}

impl MACField {
    /// Formats the first 6 octets of `s` as a colon-separated lower-case hex
    /// MAC address.
    pub fn from_slice(s: &[u8]) -> (r: MACField)
        requires
            s@.len() >= 6,
        ensures
            r.addr@ == mac_chars(s@.take(6)),
    {
        let mut addr = String::new();
        push_byte_hex(&mut addr, s[0]);
        addr.append(":");
        push_byte_hex(&mut addr, s[1]);
        addr.append(":");
        push_byte_hex(&mut addr, s[2]);
        addr.append(":");
        push_byte_hex(&mut addr, s[3]);
        addr.append(":");
        push_byte_hex(&mut addr, s[4]);
        addr.append(":");
        push_byte_hex(&mut addr, s[5]);
        proof {
            reveal_strlit(":");
            assert(s@.take(6)[0] == s@[0]);
            assert(s@.take(6)[1] == s@[1]);
            assert(s@.take(6)[2] == s@[2]);
            assert(s@.take(6)[3] == s@[3]);
            assert(s@.take(6)[4] == s@[4]);
            assert(s@.take(6)[5] == s@[5]);
            assert(addr@ =~= mac_chars(s@.take(6)));
        }
        MACField { addr }
    }
}

/// The four address fields of the 4-address block, laid out as address 1-3,
/// a 2-octet sequence-control field, then address 4.
#[derive(Clone, Debug)]
pub struct FrameAddresses {
    pub addr1: MACField,
    pub addr2: MACField,
    pub addr3: MACField,
    pub addr4: MACField,
}

impl FrameAddresses {
    /// Decodes the full 26-octet block: three addresses, the embedded
    /// sequence-control field, and the fourth address.
    pub fn from_bytes(s: &[u8]) -> (r: Result<FrameAddresses, Dot11Error>)
        ensures
            r is Ok <==> s@.len() >= 26,
            (r matches Ok(a) ==> {
                &&& a.addr1.addr@ == mac_chars(s@.subrange(0, 6))
                &&& a.addr2.addr@ == mac_chars(s@.subrange(6, 12))
                &&& a.addr3.addr@ == mac_chars(s@.subrange(12, 18))
                &&& a.addr4.addr@ == mac_chars(s@.subrange(20, 26))
            }),
            (r matches Err(e) ==> e == Dot11Error::TruncatedInput),
    {
        if s.len() < 26 {
            return Err(Dot11Error::TruncatedInput);
        }
        let addr1 = MACField::from_slice(&s[0..6]);
        let addr2 = MACField::from_slice(&s[6..12]);
        let addr3 = MACField::from_slice(&s[12..18]);
        let addr4 = MACField::from_slice(&s[20..26]);
        proof {
            assert(s@.subrange(0, 6).take(6) =~= s@.subrange(0, 6));
            assert(s@.subrange(6, 12).take(6) =~= s@.subrange(6, 12));
            assert(s@.subrange(12, 18).take(6) =~= s@.subrange(12, 18));
            assert(s@.subrange(20, 26).take(6) =~= s@.subrange(20, 26));
        }
        Ok(FrameAddresses { addr1, addr2, addr3, addr4 })
    }
}

// ---------------------------------------------------------------------------
// The complete MAC header
// ---------------------------------------------------------------------------

/// The mathematical shape of a decoded MAC header.
pub struct HeaderModel {
    pub frame_control: FrameControl,
    pub duration: Seq<u8>,
    pub dst: Seq<char>,
    pub src: Seq<char>,
    pub bssid: Seq<char>,
    pub seq_ctl: Seq<u8>,
    pub info: BodyModel,
}

/// A decoded MAC header: frame control, the raw duration and
/// sequence-control octets, the resolved destination, source and BSSID
/// addresses, and the decoded body.
pub struct Dot11Header {
    pub frame_control: FrameControl,
    pub duration: [u8; 2],
    pub dst: String,
    pub src: String,
    pub bssid: String,
    pub seq_ctl: [u8; 2],
    pub info: BodyInformation,
}

impl View for Dot11Header {
    type V = HeaderModel;

    open spec fn view(&self) -> HeaderModel {
        HeaderModel {
            frame_control: self.frame_control,
            duration: self.duration@,
            dst: self.dst@,
            src: self.src@,
            bssid: self.bssid@,
            seq_ctl: self.seq_ctl@,
            info: self.info@,
        }
    }
}

/// The destination, source and BSSID addresses that the distribution-system
/// flags select from the 4-address block `b` (the 26 octets that follow the
/// duration field, with the sequence-control field embedded at offset 18).
/// When both flags are set the frame travels between access points and the
/// BSSID is left unset.
pub open spec fn spec_addresses(fc: FrameControl, b: Seq<u8>) -> (Seq<char>, Seq<char>, Seq<char>) {
    if fc.to_ds && fc.from_ds {
        (mac_chars(b.subrange(12, 18)), mac_chars(b.subrange(20, 26)), Seq::empty())
    } else if fc.to_ds {
        (mac_chars(b.subrange(6, 12)), mac_chars(b.subrange(12, 18)), mac_chars(b.subrange(0, 6)))
    } else if fc.from_ds {
        (mac_chars(b.subrange(12, 18)), mac_chars(b.subrange(0, 6)), mac_chars(b.subrange(6, 12)))
    } else {
        (mac_chars(b.subrange(0, 6)), mac_chars(b.subrange(6, 12)), mac_chars(b.subrange(12, 18)))
    }
}

/// The body that the bytes after the fixed header decode to, selected by
/// frame type and subtype; combinations without a modelled body decode to
/// `UnHandled`.
pub open spec fn spec_parse_body(fc: FrameControl, b: Seq<u8>) -> Result<BodyModel, Dot11Error> {
    if fc.frame_type == FrameType::Management && fc.frame_subtype == FrameSubType::Beacon {
        match spec_beacon(b) {
            Some(x) => Ok(BodyModel::Beacon(x)),
            None => Err(Dot11Error::TruncatedInput),
        }
    } else if fc.frame_type == FrameType::Management && fc.frame_subtype == FrameSubType::ProbeReq {
        match spec_probe_request(b) {
            Some(x) => Ok(BodyModel::ProbeRequest(x)),
            None => Err(Dot11Error::TruncatedInput),
        }
    } else if fc.frame_type == FrameType::Management && fc.frame_subtype
        == FrameSubType::ProbeResp {
        match spec_probe_response(b) {
            Some(x) => Ok(BodyModel::ProbeResponse(x)),
            None => Err(Dot11Error::TruncatedInput),
        }
    } else if fc.frame_type == FrameType::Management && fc.frame_subtype == FrameSubType::AssoReq {
        match spec_association_request(b) {
            Some(x) => Ok(BodyModel::AssociationRequest(x)),
            None => Err(Dot11Error::TruncatedInput),
        }
    } else if fc.frame_type == FrameType::Management && fc.frame_subtype
        == FrameSubType::AssoResp {
        match spec_association_response(b) {
            Some(x) => Ok(BodyModel::AssociationResponse(x)),
            None => Err(Dot11Error::TruncatedInput),
        }
    } else {
        Ok(BodyModel::UnHandled(true))
    }
}

/// The header that a raw frame decodes to: frame control from octets 0..2,
/// duration from 2..4, the address block from 4..30 (address 4 is read only
/// when both distribution-system flags are set), sequence control from
/// 22..24, and the body from the octets after the fixed header.
pub open spec fn spec_header(b: Seq<u8>) -> Result<HeaderModel, Dot11Error> {
    match spec_frame_control(b) {
        Err(e) => Err(e),
        Ok(fc) => {
            if b.len() < 24 {
                Err(Dot11Error::TruncatedInput)
            } else if fc.to_ds && fc.from_ds && b.len() < 30 {
                Err(Dot11Error::TruncatedInput)
            } else {
                let body_start: int = if fc.to_ds && fc.from_ds {
                    30
                } else {
                    24
                };
                let addrs = spec_addresses(fc, b.skip(4));
                match spec_parse_body(fc, b.skip(body_start)) {
                    Err(e) => Err(e),
                    Ok(body) => Ok(
                        HeaderModel {
                            frame_control: fc,
                            duration: b.subrange(2, 4),
                            dst: addrs.0,
                            src: addrs.1,
                            bssid: addrs.2,
                            seq_ctl: b.subrange(22, 24),
                            info: body,
                        },
                    ),
                }
            }
        },
    }
}

impl Dot11Header {
    /// Decodes one raw 802.11 MAC frame.
    pub fn from_bytes(input: &[u8]) -> (r: Result<Dot11Header, Dot11Error>)
        ensures
            (match r {
                Ok(h) => spec_header(input@) == Ok::<HeaderModel, Dot11Error>(h@),
                Err(e) => spec_header(input@) == Err::<HeaderModel, Dot11Error>(e),
            }),
    {
        let frame_control = match FrameControl::from_bytes(input) {
            Ok(fc) => fc,
            Err(e) => {
                return Err(e);
            },
        };
        if input.len() < 24 {
            return Err(Dot11Error::TruncatedInput);
        }
        if frame_control.to_ds && frame_control.from_ds && input.len() < 30 {
            return Err(Dot11Error::TruncatedInput);
        }
        let duration: [u8; 2] = [input[2], input[3]];
        let addr_block = &input[4..input.len()];
        proof {
            assert(addr_block@ =~= input@.skip(4));
        }
        let (dst, src, bssid) = Dot11Header::parse_address(frame_control, addr_block);
        let seq_ctl: [u8; 2] = [input[22], input[23]];
        let body_start: usize = if frame_control.to_ds && frame_control.from_ds {
            30
        } else {
            24
        };
        let body_slice = &input[body_start..input.len()];
        proof {
            assert(body_slice@ =~= input@.skip(body_start as int));
        }
        let info = match Dot11Header::parse_body(frame_control, body_slice) {
            Ok(b) => b,
            Err(e) => {
                return Err(e);
            },
        };
        let header = Dot11Header { frame_control, duration, dst, src, bssid, seq_ctl, info };
        proof {
            assert(header@.duration =~= input@.subrange(2, 4));
            assert(header@.seq_ctl =~= input@.subrange(22, 24));
        }
        Ok(header)
    }

    /// Resolves the destination, source and BSSID addresses from the
    /// 4-address block that follows the duration field, as the
    /// distribution-system flags direct.
    pub fn parse_address(frame_control: FrameControl, input: &[u8]) -> (r: (String, String, String))
        requires
            input@.len() >= 20,
            frame_control.to_ds && frame_control.from_ds ==> input@.len() >= 26,
        ensures
            r.0@ == spec_addresses(frame_control, input@).0,
            r.1@ == spec_addresses(frame_control, input@).1,
            r.2@ == spec_addresses(frame_control, input@).2,
    {
        proof {
            assert(input@.subrange(0, 6).take(6) =~= input@.subrange(0, 6));
            assert(input@.subrange(6, 12).take(6) =~= input@.subrange(6, 12));
            assert(input@.subrange(12, 18).take(6) =~= input@.subrange(12, 18));
        }
        if frame_control.to_ds && frame_control.from_ds {
            proof {
                assert(input@.subrange(20, 26).take(6) =~= input@.subrange(20, 26));
            }
            let dst = MACField::from_slice(&input[12..18]);
            let src = MACField::from_slice(&input[20..26]);
            (dst.addr, src.addr, String::new())
        } else if frame_control.to_ds {
            let dst = MACField::from_slice(&input[6..12]);
            let src = MACField::from_slice(&input[12..18]);
            let bssid = MACField::from_slice(&input[0..6]);
            (dst.addr, src.addr, bssid.addr)
        } else if frame_control.from_ds {
            let dst = MACField::from_slice(&input[12..18]);
            let src = MACField::from_slice(&input[0..6]);
            let bssid = MACField::from_slice(&input[6..12]);
            (dst.addr, src.addr, bssid.addr)
        } else {
            let dst = MACField::from_slice(&input[0..6]);
            let src = MACField::from_slice(&input[6..12]);
            let bssid = MACField::from_slice(&input[12..18]);
            (dst.addr, src.addr, bssid.addr)
        }
    }

    /// Dispatches the bytes after the fixed header to the body decoder that
    /// the frame type and subtype select.
    fn parse_body(frame_control: FrameControl, input: &[u8]) -> (r: Result<
        BodyInformation,
        Dot11Error,
    >)
        ensures
            (match r {
                Ok(b) => spec_parse_body(frame_control, input@) == Ok::<BodyModel, Dot11Error>(b@),
                Err(e) => spec_parse_body(frame_control, input@) == Err::<BodyModel, Dot11Error>(
                    e,
                ),
            }),
    {
        if frame_control.frame_type == FrameType::Management && frame_control.frame_subtype
            == FrameSubType::Beacon {
            match Beacon::from_bytes(input) {
                Ok(b) => Ok(BodyInformation::Beacon(b)),
                Err(e) => Err(e),
            }
        } else if frame_control.frame_type == FrameType::Management && frame_control.frame_subtype
            == FrameSubType::ProbeReq {
            match ProbeRequest::from_bytes(input) {
                Ok(b) => Ok(BodyInformation::ProbeRequest(b)),
                Err(e) => Err(e),
            }
        } else if frame_control.frame_type == FrameType::Management && frame_control.frame_subtype
            == FrameSubType::ProbeResp {
            match ProbeResponse::from_bytes(input) {
                Ok(b) => Ok(BodyInformation::ProbeResponse(b)),
                Err(e) => Err(e),
            }
        } else if frame_control.frame_type == FrameType::Management && frame_control.frame_subtype
            == FrameSubType::AssoReq {
            match AssociationRequest::from_bytes(input) {
                Ok(b) => Ok(BodyInformation::AssociationRequest(b)),
                Err(e) => Err(e),
            }
        } else if frame_control.frame_type == FrameType::Management && frame_control.frame_subtype
            == FrameSubType::AssoResp {
            match AssociationResponse::from_bytes(input) {
                Ok(b) => Ok(BodyInformation::AssociationResponse(b)),
                Err(e) => Err(e),
            }
        } else {
            Ok(BodyInformation::UnHandled(true))
        }
    }
}


} // verus!
