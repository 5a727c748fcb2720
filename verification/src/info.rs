//! Decoders for the variable-length bodies of management frames: the fixed
//! per-subtype prefix, the SSID element, the supported-rates element and the
//! country element.
//!
//! All decoders work on untrusted byte buffers. Running out of bytes inside
//! a required field is reported as `Dot11Error::TruncatedInput`; the optional
//! country scan instead stops with an empty default, and SSID text that is
//! not valid UTF-8 degrades to an empty string rather than an error.

use vstd::prelude::*;
use vstd::utf8::{decode_utf8, valid_utf8};

use crate::errors::Dot11Error;
use crate::util::{le_u16, le_u64, read_le_u16, read_le_u64};

verus! {

/// The text a byte sequence stands for: its UTF-8 reading when it is valid
/// UTF-8, and the empty string otherwise.
pub open spec fn spec_utf8_or_empty(b: Seq<u8>) -> Seq<char> {
    if valid_utf8(b) {
        decode_utf8(b)
    } else {
        Seq::empty()
    }
}

/// Relies on `String::from_utf8`: it returns `Ok` exactly on valid UTF-8
/// input, and the returned string then holds the decoded characters.
#[verifier::external_body]
fn utf8_or_empty(bytes: Vec<u8>) -> (r: String)
    ensures
        r@ == spec_utf8_or_empty(bytes@),
{
    match String::from_utf8(bytes) {
        Ok(s) => s,
        Err(_) => String::new(),
    }
}

/// A decoder for one kind of management-frame body.
pub trait Info where Self: Sized {
    /// Decodes one body from the byte buffer that follows the MAC header.
    fn from_bytes(input: &[u8]) -> Result<Self, Dot11Error>;
}

// ---------------------------------------------------------------------------
// SSID element
// ---------------------------------------------------------------------------

/// The mathematical shape of a decoded SSID element.
pub struct SsidModel {
    pub element_id: u8,
    pub ssid_len: int,
    pub value: Seq<char>,
}

/// An SSID element: `element_id(1) + length(1) + value(length)`.
pub struct SSID {
    pub element_id: u8,
    pub ssid_len: usize,
    pub value: String,
}

impl View for SSID {
    type V = SsidModel;

    open spec fn view(&self) -> SsidModel {
        SsidModel {
            element_id: self.element_id,
            ssid_len: self.ssid_len as int,
            value: self.value@,
        }
    }
}

/// The SSID element at the front of `b`, when `b` starts with a complete one.
pub open spec fn spec_ssid(b: Seq<u8>) -> Option<SsidModel> {
    if b.len() >= 2 && b.len() >= 2 + b[1] {
        Some(
            SsidModel {
                element_id: b[0],
                ssid_len: b[1] as int,
                value: spec_utf8_or_empty(b.subrange(2, 2 + b[1])),
            },
        )
    } else {
        None
    }
}

impl Info for SSID {
    fn from_bytes(input: &[u8]) -> (r: Result<SSID, Dot11Error>)
        ensures
            (match r {
                Ok(s) => spec_ssid(input@) == Some(s@),
                Err(e) => spec_ssid(input@) is None && e == Dot11Error::TruncatedInput,
            }),
    {
        if input.len() < 2 {
            return Err(Dot11Error::TruncatedInput);
        }
        let ssid_len = input[1] as usize;
        if input.len() - 2 < ssid_len {
            return Err(Dot11Error::TruncatedInput);
        }
        let value_bytes = vstd::slice::slice_to_vec(&input[2..2 + ssid_len]);
        Ok(SSID { element_id: input[0], ssid_len, value: utf8_or_empty(value_bytes) })
    }
}

// ---------------------------------------------------------------------------
// Supported-rates element
// ---------------------------------------------------------------------------

/// The rate a rate-code byte stands for, in tenths of Mbps (so that halves
/// such as 5.5 Mbps stay exact integers), or `None` for unrecognized codes.
pub open spec fn spec_rate(code: u8) -> Option<u16> {
    if code == 0x82 {
        Some(10)
    } else if code == 0x84 {
        Some(20)
    } else if code == 0x8b {
        Some(55)
    } else if code == 0x0c {
        Some(60)
    } else if code == 0x12 {
        Some(90)
    } else if code == 0x96 {
        Some(110)
    } else if code == 0x18 {
        Some(120)
    } else if code == 0x24 {
        Some(180)
    } else if code == 0x2c {
        Some(220)
    } else if code == 0x30 {
        Some(240)
    } else if code == 0x42 {
        Some(330)
    } else if code == 0x48 {
        Some(360)
    } else if code == 0x60 {
        Some(480)
    } else if code == 0x6c {
        Some(540)
    } else {
        None
    }
}

/// The rates a sequence of rate-code bytes decodes to, in order, with
/// unrecognized codes silently omitted.
pub open spec fn spec_rates(codes: Seq<u8>) -> Seq<u16>
    decreases codes.len(),
{
    if codes.len() == 0 {
        Seq::empty()
    } else {
        match spec_rate(codes[0]) {
            Some(r) => seq![r] + spec_rates(codes.drop_first()),
            None => spec_rates(codes.drop_first()),
        }
    }
}

proof fn lemma_rates_push(codes: Seq<u8>, c: u8)
    ensures
        spec_rate(c) is None ==> spec_rates(codes.push(c)) == spec_rates(codes),
        (spec_rate(c) matches Some(r) ==> spec_rates(codes.push(c)) == spec_rates(codes).push(r)),
    decreases codes.len(),
{
    if codes.len() == 0 {
        assert(codes =~= Seq::<u8>::empty());
        assert(codes.push(c)[0] == c);
        assert(codes.push(c).drop_first() =~= codes);
        if spec_rate(c) is Some {
            assert(spec_rates(codes.push(c)) =~= spec_rates(codes).push(spec_rate(c).unwrap()));
        }
    } else {
        assert(codes.push(c)[0] == codes[0]);
        assert(codes.push(c).drop_first() =~= codes.drop_first().push(c));
        lemma_rates_push(codes.drop_first(), c);
        if spec_rate(c) is Some {
            if spec_rate(codes[0]) is Some {
                assert(spec_rates(codes.push(c)) =~= spec_rates(codes).push(spec_rate(c).unwrap()));
            } else {
                assert(spec_rates(codes.push(c)) =~= spec_rates(codes).push(spec_rate(c).unwrap()));
            }
        }
    }
}

/// The executable twin of `spec_rate`.
fn rate_of_code(code: u8) -> (r: Option<u16>)
    ensures
        r == spec_rate(code),
{
    match code {
        0x82 => Some(10),
        0x84 => Some(20),
        0x8b => Some(55),
        0x0c => Some(60),
        0x12 => Some(90),
        0x96 => Some(110),
        0x18 => Some(120),
        0x24 => Some(180),
        0x2c => Some(220),
        0x30 => Some(240),
        0x42 => Some(330),
        0x48 => Some(360),
        0x60 => Some(480),
        0x6c => Some(540),
        _ => None,
    }
}

/// Decodes a supported-rates element `element_id(1) + count(1) + count
/// rate-code bytes` from the front of `input`. Rates are in tenths of Mbps;
/// unrecognized codes are dropped, so the result may be shorter than `count`.
pub fn supported_rates(input: &[u8]) -> (r: Result<Vec<u16>, Dot11Error>)
    ensures
        (match r {
            Ok(rates) => input@.len() >= 2 && input@.len() >= 2 + input@[1] && rates@
                == spec_rates(input@.subrange(2, 2 + input@[1])),
            Err(e) => (input@.len() < 2 || input@.len() < 2 + input@[1]) && e
                == Dot11Error::TruncatedInput,
        }),
{
    if input.len() < 2 {
        return Err(Dot11Error::TruncatedInput);
    }
    let count = input[1] as usize;
    if input.len() - 2 < count {
        return Err(Dot11Error::TruncatedInput);
    }
    let mut rates: Vec<u16> = Vec::new();
    let mut i: usize = 0;
    while i < count
        invariant
            i <= count,
            count == input@[1],
            input@.len() >= 2 + count,
            rates@ == spec_rates(input@.subrange(2, 2 + i as int)),
        decreases count - i,
    {
        let code = input[2 + i];
        let ghost prefix = input@.subrange(2, 2 + i as int);
        match rate_of_code(code) {
            Some(rate) => rates.push(rate),
            None => {},
        }
        proof {
            assert(input@.subrange(2, 2 + (i + 1) as int) =~= prefix.push(code));
            lemma_rates_push(prefix, code);
        }
        i = i + 1;
    }
    Ok(rates)
}

// ---------------------------------------------------------------------------
// Country element
// ---------------------------------------------------------------------------

/// The first 3 bytes of a country element's value: the regulatory country
/// code. Shorter input yields the empty default.
pub open spec fn spec_country_code(b: Seq<u8>) -> Seq<u8> {
    if b.len() >= 3 {
        b.take(3)
    } else {
        Seq::empty()
    }
}

/// Element ids that may precede the country element and are skipped by their
/// declared length during the country scan.
pub open spec fn spec_skippable_element(id: u8) -> bool {
    2 <= id <= 6 || 0x32 <= id <= 0x42
}

/// Walks `element_id(1) + length(1) + value(length)` triples and yields the
/// country code bytes of the first country element (id 7), or the empty
/// sequence when another element id, or the end of the input, stops the scan.
pub open spec fn spec_country_scan(b: Seq<u8>) -> Seq<u8>
    decreases b.len(),
{
    if b.len() < 2 {
        Seq::empty()
    } else if b[0] == 0x07 {
        spec_country_code(b.skip(2))
    } else if spec_skippable_element(b[0]) {
        if b.len() >= 2 + b[1] {
            spec_country_scan(b.skip(2 + b[1]))
        } else {
            Seq::empty()
        }
    } else {
        Seq::empty()
    }
}

/// A country element's decoded code: 3 characters when present and readable
/// as UTF-8, empty otherwise.
pub struct Country {
    pub country_code: String,
}

impl View for Country {
    type V = Seq<char>;

    open spec fn view(&self) -> Seq<char> {
        self.country_code@
    }
}

impl Info for Country {
    /// Decodes the country code from a country element's value bytes. The
    /// remaining regulatory-extension bytes are intentionally discarded.
    fn from_bytes(input: &[u8]) -> (r: Result<Country, Dot11Error>)
        ensures
            r matches Ok(c) && c@ == spec_utf8_or_empty(spec_country_code(input@)),
    {
        if input.len() < 3 {
            let empty: Vec<u8> = Vec::new();
            proof {
                assert(empty@ =~= spec_country_code(input@));
            }
            Ok(Country { country_code: utf8_or_empty(empty) })
        } else {
            let code_bytes = vstd::slice::slice_to_vec(&input[0..3]);
            proof {
                assert(code_bytes@ =~= spec_country_code(input@));
            }
            Ok(Country { country_code: utf8_or_empty(code_bytes) })
        }
    }
}

/// Scans the elements that follow the supported rates for a country element
/// and decodes it; any other blocking element id, or the end of the input,
/// leaves the country at its empty default.
pub fn get_country(input: &[u8]) -> (r: Country)
    ensures
        r@ == spec_utf8_or_empty(spec_country_scan(input@)),
{
    let mut pos: usize = 0;
    proof {
        assert(input@.skip(0) =~= input@);
    }
    loop
        invariant
            pos <= input@.len(),
            spec_country_scan(input@) == spec_country_scan(input@.skip(pos as int)),
        decreases input@.len() - pos,
    {
        let ghost rem = input@.skip(pos as int);
        if input.len() - pos < 2 {
            let empty: Vec<u8> = Vec::new();
            proof {
                assert(empty@ =~= spec_country_scan(rem));
            }
            return Country { country_code: utf8_or_empty(empty) };
        }
        let id = input[pos];
        let len = input[pos + 1] as usize;
        proof {
            assert(rem.len() == input@.len() - pos);
            assert(rem[0] == input@[pos as int]);
            assert(rem[1] == input@[pos as int + 1]);
        }
        if id == 0x07 {
            let value = &input[pos + 2..input.len()];
            proof {
                assert(value@ =~= rem.skip(2));
            }
            match Country::from_bytes(value) {
                Ok(c) => {
                    return c;
                },
                Err(_) => {
                    let empty: Vec<u8> = Vec::new();
                    return Country { country_code: utf8_or_empty(empty) };
                },
            }
        } else if id == 0x02 || id == 0x03 || id == 0x04 || id == 0x05 || id == 0x06 || (0x32 <= id
            && id <= 0x42) {
            if input.len() - pos - 2 < len {
                let empty: Vec<u8> = Vec::new();
                proof {
                    assert(empty@ =~= spec_country_scan(rem));
                }
                return Country { country_code: utf8_or_empty(empty) };
            }
            proof {
                assert(rem.skip(2 + rem[1]) =~= input@.skip(pos + 2 + len));
            }
            pos = pos + 2 + len;
        } else {
            let empty: Vec<u8> = Vec::new();
            proof {
                assert(empty@ =~= spec_country_scan(rem));
            }
            return Country { country_code: utf8_or_empty(empty) };
        }
    }
}

// ---------------------------------------------------------------------------
// SSID + supported-rates prefix shared by several bodies
// ---------------------------------------------------------------------------

/// The SSID element followed by the supported-rates element at the front of
/// `b`: the two decoded elements and the offset of the first byte after the
/// rates element.
pub open spec fn spec_ssid_rates(b: Seq<u8>) -> Option<(SsidModel, Seq<u16>, int)> {
    match spec_ssid(b) {
        None => None,
        Some(ssid) => {
            let after = b.skip(2 + ssid.ssid_len);
            if after.len() >= 2 && after.len() >= 2 + after[1] {
                Some(
                    (
                        ssid,
                        spec_rates(after.subrange(2, 2 + after[1])),
                        2 + ssid.ssid_len + 2 + after[1],
                    ),
                )
            } else {
                None
            }
        },
    }
}

/// Decodes the SSID element and the supported-rates element that follows it,
/// returning both and the offset of the first byte after the rates element.
fn ssid_and_rates(input: &[u8]) -> (r: Result<(SSID, Vec<u16>, usize), Dot11Error>)
    ensures
        (match r {
            Ok(t) => spec_ssid_rates(input@) == Some((t.0@, t.1@, t.2 as int)) && t.2
                <= input@.len(),
            Err(e) => spec_ssid_rates(input@) is None && e == Dot11Error::TruncatedInput,
        }),
{
    let ssid = match SSID::from_bytes(input) {
        Ok(s) => s,
        Err(e) => {
            return Err(e);
        },
    };
    let after = &input[2 + ssid.ssid_len..input.len()];
    proof {
        assert(after@ =~= input@.skip(2 + ssid.ssid_len as int));
    }
    let rates = match supported_rates(after) {
        Ok(v) => v,
        Err(e) => {
            return Err(e);
        },
    };
    let declared = after[1] as usize;
    let offset = 2 + ssid.ssid_len + 2 + declared;
    Ok((ssid, rates, offset))
}

// ---------------------------------------------------------------------------
// The five decoded body kinds
// ---------------------------------------------------------------------------

/// The mathematical shape of a decoded Beacon body.
pub struct BeaconModel {
    pub timestamp: u64,
    pub interval: u16,
    pub cap_info: u16,
    pub ssid: SsidModel,
    pub supported_rates: Seq<u16>,
    pub country: Seq<char>,
    pub current_channel: u8,
}

/// A Beacon body: 8-byte timestamp, 2-byte interval and 2-byte capability
/// info (all little-endian), then SSID, supported rates and country elements.
/// `current_channel` is not part of the element stream: the capture source
/// supplies it with the radio metadata, and the decoder leaves it at 0.
pub struct Beacon {
    pub timestamp: u64,
    pub interval: u16,
    pub cap_info: u16,
    pub ssid: SSID,
    pub supported_rates: Vec<u16>,
    pub country: Country,
    pub current_channel: u8,
}

impl View for Beacon {
    type V = BeaconModel;

    open spec fn view(&self) -> BeaconModel {
        BeaconModel {
            timestamp: self.timestamp,
            interval: self.interval,
            cap_info: self.cap_info,
            ssid: self.ssid@,
            supported_rates: self.supported_rates@,
            country: self.country@,
            current_channel: self.current_channel,
        }
    }
}

/// The Beacon body that `b` decodes to, when each required field is complete.
pub open spec fn spec_beacon(b: Seq<u8>) -> Option<BeaconModel> {
    if b.len() < 12 {
        None
    } else {
        match spec_ssid_rates(b.skip(12)) {
            None => None,
            Some(t) => Some(
                BeaconModel {
                    timestamp: le_u64(b.take(8)),
                    interval: le_u16(b[8], b[9]),
                    cap_info: le_u16(b[10], b[11]),
                    ssid: t.0,
                    supported_rates: t.1,
                    country: spec_utf8_or_empty(spec_country_scan(b.skip(12).skip(t.2))),
                    current_channel: 0,
                },
            ),
        }
    }
}

impl Info for Beacon {
    fn from_bytes(input: &[u8]) -> (r: Result<Beacon, Dot11Error>)
        ensures
            (match r {
                Ok(b) => spec_beacon(input@) == Some(b@),
                Err(e) => spec_beacon(input@) is None && e == Dot11Error::TruncatedInput,
            }),
    {
        if input.len() < 12 {
            return Err(Dot11Error::TruncatedInput);
        }
        let timestamp = read_le_u64(input);
        let interval = read_le_u16(input[8], input[9]);
        let cap_info = read_le_u16(input[10], input[11]);
        let rest = &input[12..input.len()];
        proof {
            assert(rest@ =~= input@.skip(12));
        }
        let (ssid, rates, consumed) = match ssid_and_rates(rest) {
            Ok(t) => t,
            Err(e) => {
                return Err(e);
            },
        };
        let after_rates = &rest[consumed..rest.len()];
        proof {
            assert(after_rates@ =~= input@.skip(12).skip(consumed as int));
        }
        let country = get_country(after_rates);
        Ok(Beacon { timestamp, interval, cap_info, ssid, supported_rates: rates, country, current_channel: 0 })
    }
}

/// The mathematical shape of a decoded probe-request body.
pub struct ProbeRequestModel {
    pub ssid: SsidModel,
    pub supported_rates: Seq<u16>,
}

/// A probe-request body: no fixed prefix, then SSID and supported rates.
pub struct ProbeRequest {
    pub ssid: SSID,
    pub supported_rates: Vec<u16>,
}

impl View for ProbeRequest {
    type V = ProbeRequestModel;

    open spec fn view(&self) -> ProbeRequestModel {
        ProbeRequestModel { ssid: self.ssid@, supported_rates: self.supported_rates@ }
    }
}

/// The probe-request body that `b` decodes to.
pub open spec fn spec_probe_request(b: Seq<u8>) -> Option<ProbeRequestModel> {
    match spec_ssid_rates(b) {
        None => None,
        Some(t) => Some(ProbeRequestModel { ssid: t.0, supported_rates: t.1 }),
    }
}

impl Info for ProbeRequest {
    fn from_bytes(input: &[u8]) -> (r: Result<ProbeRequest, Dot11Error>)
        ensures
            (match r {
                Ok(b) => spec_probe_request(input@) == Some(b@),
                Err(e) => spec_probe_request(input@) is None && e == Dot11Error::TruncatedInput,
            }),
    {
        let (ssid, rates, _consumed) = match ssid_and_rates(input) {
            Ok(t) => t,
            Err(e) => {
                return Err(e);
            },
        };
        Ok(ProbeRequest { ssid, supported_rates: rates })
    }
}

/// The mathematical shape of a decoded probe-response body.
pub struct ProbeResponseModel {
    pub timestamp: u64,
    pub interval: u16,
    pub cap_info: u16,
    pub ssid: SsidModel,
    pub supported_rates: Seq<u16>,
    pub country: Seq<char>,
}

/// A probe-response body, laid out exactly like a Beacon body.
pub struct ProbeResponse {
    pub timestamp: u64,
    pub interval: u16,
    pub cap_info: u16,
    pub ssid: SSID,
    pub supported_rates: Vec<u16>,
    pub country: Country,
}

impl View for ProbeResponse {
    type V = ProbeResponseModel;

    open spec fn view(&self) -> ProbeResponseModel {
        ProbeResponseModel {
            timestamp: self.timestamp,
            interval: self.interval,
            cap_info: self.cap_info,
            ssid: self.ssid@,
            supported_rates: self.supported_rates@,
            country: self.country@,
        }
    }
}

/// The probe-response body that `b` decodes to.
pub open spec fn spec_probe_response(b: Seq<u8>) -> Option<ProbeResponseModel> {
    if b.len() < 12 {
        None
    } else {
        match spec_ssid_rates(b.skip(12)) {
            None => None,
            Some(t) => Some(
                ProbeResponseModel {
                    timestamp: le_u64(b.take(8)),
                    interval: le_u16(b[8], b[9]),
                    cap_info: le_u16(b[10], b[11]),
                    ssid: t.0,
                    supported_rates: t.1,
                    country: spec_utf8_or_empty(spec_country_scan(b.skip(12).skip(t.2))),
                },
            ),
        }
    }
}

impl Info for ProbeResponse {
    fn from_bytes(input: &[u8]) -> (r: Result<ProbeResponse, Dot11Error>)
        ensures
            (match r {
                Ok(b) => spec_probe_response(input@) == Some(b@),
                Err(e) => spec_probe_response(input@) is None && e == Dot11Error::TruncatedInput,
            }),
    {
        if input.len() < 12 {
            return Err(Dot11Error::TruncatedInput);
        }
        let timestamp = read_le_u64(input);
        let interval = read_le_u16(input[8], input[9]);
        let cap_info = read_le_u16(input[10], input[11]);
        let rest = &input[12..input.len()];
        proof {
            assert(rest@ =~= input@.skip(12));
        }
        let (ssid, rates, consumed) = match ssid_and_rates(rest) {
            Ok(t) => t,
            Err(e) => {
                return Err(e);
            },
        };
        let after_rates = &rest[consumed..rest.len()];
        proof {
            assert(after_rates@ =~= input@.skip(12).skip(consumed as int));
        }
        let country = get_country(after_rates);
        Ok(ProbeResponse { timestamp, interval, cap_info, ssid, supported_rates: rates, country })
    }
}

/// The mathematical shape of a decoded association-request body.
pub struct AssociationRequestModel {
    pub cap_info: u16,
    pub interval: u16,
    pub ssid: SsidModel,
    pub supported_rates: Seq<u16>,
}

/// An association-request body: 2-byte capability info and 2-byte interval
/// (little-endian), then SSID and supported rates.
pub struct AssociationRequest {
    pub cap_info: u16,
    pub interval: u16,
    pub ssid: SSID,
    pub supported_rates: Vec<u16>,
}

impl View for AssociationRequest {
    type V = AssociationRequestModel;

    open spec fn view(&self) -> AssociationRequestModel {
        AssociationRequestModel {
            cap_info: self.cap_info,
            interval: self.interval,
            ssid: self.ssid@,
            supported_rates: self.supported_rates@,
        }
    }
}

/// The association-request body that `b` decodes to.
pub open spec fn spec_association_request(b: Seq<u8>) -> Option<AssociationRequestModel> {
    if b.len() < 4 {
        None
    } else {
        match spec_ssid_rates(b.skip(4)) {
            None => None,
            Some(t) => Some(
                AssociationRequestModel {
                    cap_info: le_u16(b[0], b[1]),
                    interval: le_u16(b[2], b[3]),
                    ssid: t.0,
                    supported_rates: t.1,
                },
            ),
        }
    }
}

impl Info for AssociationRequest {
    fn from_bytes(input: &[u8]) -> (r: Result<AssociationRequest, Dot11Error>)
        ensures
            (match r {
                Ok(b) => spec_association_request(input@) == Some(b@),
                Err(e) => spec_association_request(input@) is None && e
                    == Dot11Error::TruncatedInput,
            }),
    {
        if input.len() < 4 {
            return Err(Dot11Error::TruncatedInput);
        }
        let cap_info = read_le_u16(input[0], input[1]);
        let interval = read_le_u16(input[2], input[3]);
        let rest = &input[4..input.len()];
        proof {
            assert(rest@ =~= input@.skip(4));
        }
        let (ssid, rates, _consumed) = match ssid_and_rates(rest) {
            Ok(t) => t,
            Err(e) => {
                return Err(e);
            },
        };
        Ok(AssociationRequest { cap_info, interval, ssid, supported_rates: rates })
    }
}

/// The mathematical shape of a decoded association-response body.
pub struct AssociationResponseModel {
    pub cap_info: u16,
    pub status_code: u16,
    pub association_id: u16,
    pub supported_rates: Seq<u16>,
}

/// An association-response body: 2-byte capability info, 2-byte status code
/// and 2-byte association id (little-endian), then supported rates.
pub struct AssociationResponse {
    pub cap_info: u16,
    pub status_code: u16,
    pub association_id: u16,
    pub supported_rates: Vec<u16>,
}

impl View for AssociationResponse {
    type V = AssociationResponseModel;

    open spec fn view(&self) -> AssociationResponseModel {
        AssociationResponseModel {
            cap_info: self.cap_info,
            status_code: self.status_code,
            association_id: self.association_id,
            supported_rates: self.supported_rates@,
        }
    }
}

/// The association-response body that `b` decodes to.
pub open spec fn spec_association_response(b: Seq<u8>) -> Option<AssociationResponseModel> {
    if b.len() < 6 {
        None
    } else {
        let after = b.skip(6);
        if after.len() >= 2 && after.len() >= 2 + after[1] {
            Some(
                AssociationResponseModel {
                    cap_info: le_u16(b[0], b[1]),
                    status_code: le_u16(b[2], b[3]),
                    association_id: le_u16(b[4], b[5]),
                    supported_rates: spec_rates(after.subrange(2, 2 + after[1])),
                },
            )
        } else {
            None
        }
    }
}

impl Info for AssociationResponse {
    fn from_bytes(input: &[u8]) -> (r: Result<AssociationResponse, Dot11Error>)
        ensures
            (match r {
                Ok(b) => spec_association_response(input@) == Some(b@),
                Err(e) => spec_association_response(input@) is None && e
                    == Dot11Error::TruncatedInput,
            }),
    {
        if input.len() < 6 {
            return Err(Dot11Error::TruncatedInput);
        }
        let cap_info = read_le_u16(input[0], input[1]);
        let status_code = read_le_u16(input[2], input[3]);
        let association_id = read_le_u16(input[4], input[5]);
        let rest = &input[6..input.len()];
        proof {
            assert(rest@ =~= input@.skip(6));
        }
        let rates = match supported_rates(rest) {
            Ok(v) => v,
            Err(e) => {
                return Err(e);
            },
        };
        Ok(AssociationResponse { cap_info, status_code, association_id, supported_rates: rates })
    }
}

// ---------------------------------------------------------------------------
// The body sum type
// ---------------------------------------------------------------------------

/// The mathematical shape of a decoded frame body.
pub enum BodyModel {
    Beacon(BeaconModel),
    ProbeRequest(ProbeRequestModel),
    ProbeResponse(ProbeResponseModel),
    AssociationRequest(AssociationRequestModel),
    AssociationResponse(AssociationResponseModel),
    UnHandled(bool),
}

/// One decoded management-frame body, selected by frame type and subtype;
/// every frame the decoder does not model carries `UnHandled`.
pub enum BodyInformation {
    Beacon(Beacon),
    ProbeRequest(ProbeRequest),
    ProbeResponse(ProbeResponse),
    AssociationRequest(AssociationRequest),
    AssociationResponse(AssociationResponse),
    UnHandled(bool),
}

impl View for BodyInformation {
    type V = BodyModel;

    open spec fn view(&self) -> BodyModel {
        match self {
            BodyInformation::Beacon(b) => BodyModel::Beacon(b@),
            BodyInformation::ProbeRequest(b) => BodyModel::ProbeRequest(b@),
            BodyInformation::ProbeResponse(b) => BodyModel::ProbeResponse(b@),
            BodyInformation::AssociationRequest(b) => BodyModel::AssociationRequest(b@),
            BodyInformation::AssociationResponse(b) => BodyModel::AssociationResponse(b@),
            BodyInformation::UnHandled(x) => BodyModel::UnHandled(*x),
        }
    }
}


} // verus!
