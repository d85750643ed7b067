//! Device metadata: what the capability probe reads about one HID device,
//! and the parsing of sysfs device names into bus identifiers.

use vstd::prelude::*;

use crate::color::spec_all_hex;
use crate::color::spec_hex_digit;
use crate::color::spec_hex_num;
use crate::color::spec_hex_value;
use crate::color::hex_digit;
use crate::descriptor::Descriptor;
use vstd::slice::slice_subrange;

pub mod bloody;

verus! {

/// One enumerated HID device: its kernel id, vendor and product ids, and its
/// parsed report descriptor.
pub struct DeviceInfo {
    pub hid: u16,
    pub vid: u16,
    pub pid: u16,
    pub report_descriptor: Descriptor,
}

/// What a byte sequence spells as a hex u16: a hex value that fits, or
/// nothing.
pub open spec fn spec_hex_u16(s: Seq<u8>) -> Option<u16> {
    match spec_hex_value(s) {
        Some(v) => if 0 <= v <= 0xFFFF {
            Some(v as u16)
        } else {
            None
        },
        None => None,
    }
}

/// Parse a hex number of any length as a u16, as the standard library's
/// radix parser reads it: an optional sign, then at least one hex digit;
/// a value out of range is nothing.
pub fn from_hex(data: &[u8]) -> (r: Option<u16>)
    ensures
        r == spec_hex_u16(data@),
{
    let len = data.len();
    if len == 0 {
        return None;
    }
    let first = data[0];
    let has_sign = first == 0x2b || first == 0x2d;
    let start: usize = if has_sign {
        1
    } else {
        0
    };
    let ghost digits = data@.skip(start as int);
    proof {
        if start == 0 {
            assert(digits =~= data@);
        }
    }
    if len == start {
        proof {
            assert(digits.len() == 0);
        }
        return None;
    }
    let mut acc: u16 = 0;
    let mut i: usize = start;
    proof {
        assert(digits.take(0) =~= Seq::<u8>::empty());
    }
    while i < len
        invariant
            start <= i <= len,
            start <= 1,
            len == data@.len(),
            len > start,
            first == data@[0],
            has_sign == (first == 0x2b || first == 0x2d),
            start == (if has_sign {
                1int
            } else {
                0int
            }),
            digits == data@.skip(start as int),
            digits == (if has_sign {
                data@.skip(1)
            } else {
                data@
            }),
            spec_all_hex(digits.take(i - start)),
            acc == spec_hex_num(digits.take(i - start)),
        decreases len - i,
    {
        let ghost n = i - start;
        proof {
            assert(digits[n as int] == data@[i as int]);
        }
        match hex_digit(data[i]) {
            None => {
                proof {
                    assert(spec_hex_digit(digits[n as int]) is None);
                    assert(!spec_all_hex(digits));
                }
                return None;
            },
            Some(d) => {
                let next: u32 = acc as u32 * 16 + d as u32;
                proof {
                    assert(digits.take(n + 1).drop_last() =~= digits.take(n as int));
                    assert(digits.take(n + 1).last() == digits[n as int]);
                    assert(spec_hex_num(digits.take(n + 1)) == acc * 16 + d);
                    assert forall|j: int| 0 <= j < n + 1 implies (#[trigger] spec_hex_digit(
                        digits.take(n + 1)[j],
                    )) is Some by {
                        if j < n {
                            assert(spec_hex_digit(digits.take(n as int)[j]) is Some);
                        }
                    }
                }
                if next > 0xFFFF {
                    proof {
                        crate::color::lemma_hex_num_prefix_monotonic(digits, n + 1);
                        assert(spec_hex_num(digits) >= spec_hex_num(digits.take(n + 1)));
                        assert(spec_hex_num(digits) > 0xFFFF);
                        assert(spec_hex_u16(data@) is None);
                    }
                    return None;
                }
                acc = next as u16;
            },
        }
        i = i + 1;
    }
    proof {
        assert(digits.take(len - start) =~= digits);
    }
    if has_sign && first == 0x2d {
        if acc != 0 {
            return None;
        }
        return Some(0);
    }
    Some(acc)
}

/// What a sysfs HID device-directory name yields: names have the fixed shape
/// `bbbb:vvvv:pppp.hhhh` (19 bytes), and the vendor, product and kernel ids
/// are its three trailing 4-digit hex fields. Any other shape is nothing.
pub open spec fn spec_parse_device_name(s: Seq<u8>) -> Option<(u16, u16, u16)> {
    if s.len() != 19 {
        None
    } else {
        match (spec_hex_u16(s.subrange(5, 9)), spec_hex_u16(s.subrange(10, 14)), spec_hex_u16(
            s.subrange(15, 19),
        )) {
            (Some(vid), Some(pid), Some(hid)) => Some((vid, pid, hid)),
            _ => None,
        }
    }
}

/// Split a device-directory name into its vendor, product and kernel ids.
pub fn parse_device_name(name: &[u8]) -> (r: Option<(u16, u16, u16)>)
    ensures
        r == spec_parse_device_name(name@),
{
    if name.len() != 19 {
        return None;
    }
    let vid = from_hex(slice_subrange(name, 5, 9));
    let pid = from_hex(slice_subrange(name, 10, 14));
    let hid = from_hex(slice_subrange(name, 15, 19));
    match (vid, pid, hid) {
        (Some(vid), Some(pid), Some(hid)) => Some((vid, pid, hid)),
        _ => None,
    }
}

} // verus!
