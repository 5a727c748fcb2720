//! Bit-level and byte-order helpers shared by the decoders, and the record
//! shapes used when access-point sightings are exported for location lookup.

use vstd::prelude::*;

verus! {

/// Holds one bit `bit` (0-indexed from the least-significant end) of `data`.
pub open spec fn spec_flag_is_set(data: u8, bit: u8) -> bool {
    (data >> bit) & 1 == 1
}

/// Tests a single flag bit of a flags octet.
pub fn flag_is_set(data: u8, bit: u8) -> (r: bool)
    requires
        bit < 8,
    ensures
        r == spec_flag_is_set(data, bit),
{
    if bit == 0 {
        let mask: u8 = 1;
        proof {
            assert((data & 1) > 0 <==> (data >> 0) & 1 == 1) by (bit_vector);
        }
        (data & mask) > 0
    } else {
        let mask: u8 = 1 << bit;
        proof {
            assert((data & (1u8 << bit)) > 0 <==> (data >> bit) & 1 == 1) by (bit_vector)
                requires
                    bit < 8,
            ;
        }
        (data & mask) > 0
    }
}

/// The value of two octets read in little-endian order.
pub open spec fn le_u16(b0: u8, b1: u8) -> u16 {
    (b0 + 0x100 * b1) as u16
}

/// Reads a 2-octet little-endian field.
pub fn read_le_u16(b0: u8, b1: u8) -> (r: u16)
    ensures
        r == le_u16(b0, b1),
{
    b0 as u16 + 0x100u16 * (b1 as u16)
}

/// The value of eight octets read in little-endian order.
pub open spec fn le_u64(b: Seq<u8>) -> u64
    recommends
        b.len() == 8,
{
    (b[0] + 0x100 * b[1] + 0x1_0000 * b[2] + 0x100_0000 * b[3] + 0x1_0000_0000 * b[4]
        + 0x100_0000_0000 * b[5] + 0x1_0000_0000_0000 * b[6] + 0x100_0000_0000_0000 * b[7]) as u64
}

/// Reads an 8-octet little-endian field from the front of `b`.
pub fn read_le_u64(b: &[u8]) -> (r: u64)
    requires
        b@.len() >= 8,
    ensures
        r == le_u64(b@.take(8)),
{
    let r = b[0] as u64 + 0x100u64 * (b[1] as u64) + 0x1_0000u64 * (b[2] as u64) + 0x100_0000u64
        * (b[3] as u64) + 0x1_0000_0000u64 * (b[4] as u64) + 0x100_0000_0000u64 * (b[5] as u64)
        + 0x1_0000_0000_0000u64 * (b[6] as u64) + 0x100_0000_0000_0000u64 * (b[7] as u64);
    proof {
        assert(b@.take(8)[0] == b@[0]);
        assert(b@.take(8)[1] == b@[1]);
        assert(b@.take(8)[2] == b@[2]);
        assert(b@.take(8)[3] == b@[3]);
        assert(b@.take(8)[4] == b@[4]);
        assert(b@.take(8)[5] == b@[5]);
        assert(b@.take(8)[6] == b@[6]);
        assert(b@.take(8)[7] == b@[7]);
    }
    r
}

/// The 802.11 channel number that a carrier frequency in MHz stands for:
/// channels 1-13 at 2412-2472 MHz, channel 14 at 2484 MHz, and the 5 GHz
/// numbering at 5000 + 5 * channel; any other frequency maps to 0.
pub open spec fn spec_channel_of(freq_mhz: u16) -> u8 {
    if freq_mhz == 2484 {
        14
    } else if 2412 <= freq_mhz <= 2472 {
        ((freq_mhz - 2407) / 5) as u8
    } else if 5000 < freq_mhz <= 5895 {
        ((freq_mhz - 5000) / 5) as u8
    } else {
        0
    }
}

/// Maps a carrier frequency from the radio metadata to its 802.11 channel
/// number.
pub fn channel_from_frequency(freq_mhz: u16) -> (r: u8)
    ensures
        r == spec_channel_of(freq_mhz),
{
    if freq_mhz == 2484 {
        14
    } else if 2412 <= freq_mhz && freq_mhz <= 2472 {
        ((freq_mhz - 2407) / 5) as u8
    } else if 5000 < freq_mhz && freq_mhz <= 5895 {
        ((freq_mhz - 5000) / 5) as u8
    } else {
        0
    }
}

/// The shape of an export of sighted access points for location lookup.
pub struct WifiAccessPoints {
    pub wifi_access_points: Vec<Macs>,
}

/// One sighted access point: its MAC and the signal strength it was seen at.
pub struct Macs {
    pub mac_address: String,
    pub signal_strength: i8,
}

} // verus!
