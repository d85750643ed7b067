//! Support for the Bloody B820R keyboard: the capability probe that
//! recognises it and the control packets that drive its per-key lighting.

use vstd::prelude::*;

use crate::color::Color;
use crate::devices::DeviceInfo;
use crate::report::spec_traversal;

verus! {

/// The vendor id of the supported keyboard.
pub const BLOODY_VID: u16 = 0x09da;

/// The product id of the supported keyboard.
pub const BLOODY_PID: u16 = 0xfa10;

/// Where in a control packet the color bytes start.
pub const BLOODY_B820R_RGB_OFFSET: usize = 6;

/// How many color bytes one control packet carries.
pub const BLOODY_B820R_RGB_BUFFER_SIZE: usize = 58;

/// The supported keyboard.
pub struct Bloody;

/// Whether a device is the supported keyboard: the right vendor and product
/// ids, and a report descriptor exposing usage page 0xFF52 / usage 0x0210
/// somewhere in its traversal.
pub open spec fn spec_probe(vid: u16, pid: u16, tree: crate::report::CollectionModel) -> bool {
    vid == BLOODY_VID && pid == BLOODY_PID && exists|i: int|
        0 <= i < spec_traversal(tree).len() && (#[trigger] spec_traversal(tree)[i]).usage_page
            == 0xFF52 && spec_traversal(tree)[i].usage == 0x0210
}

/// A prepared control packet: 64 bytes, the fixed header `07 03 06`, the
/// target byte, zeroes after.
pub open spec fn spec_control_packet(target: u8) -> Seq<u8> {
    Seq::new(
        64,
        |i: int|
            if i == 0 {
                0x07u8
            } else if i == 1 {
                0x03u8
            } else if i == 2 {
                0x06u8
            } else if i == 3 {
                target
            } else {
                0x00u8
            },
    )
}

/// One channel of a color: 0 is red, 1 is green, anything else is blue.
pub open spec fn spec_channel(c: Color, ch: int) -> u8 {
    if ch == 0 {
        c.r
    } else if ch == 1 {
        c.g
    } else {
        c.b
    }
}

/// The color packet for one line and one channel, with the channel bytes of
/// the first `upto` colors filled in over the prepared packet for that
/// line's and channel's target.
pub open spec fn spec_color_packet_partial(cs: Seq<Color>, line: int, ch: int, upto: int) -> Seq<
    u8,
> {
    Seq::new(
        64,
        |j: int|
            {
                let idx = line * 58 + (j - 6);
                if 6 <= j && 0 <= idx && idx < cs.len() && idx < upto {
                    spec_channel(cs[idx], ch)
                } else {
                    spec_control_packet((0x07 + ch * 2 + line) as u8)[j]
                }
            },
    )
}

/// The finished color packet for one line and one channel.
pub open spec fn spec_color_packet(cs: Seq<Color>, line: int, ch: int) -> Seq<u8> {
    spec_color_packet_partial(cs, line, ch, cs.len() as int)
}

/// Build a prepared control packet for the given target byte.
pub fn make_prepared_control_packet(target: u8) -> (r: Vec<u8>)
    ensures
        r@ == spec_control_packet(target),
{
    let mut buf: Vec<u8> = vec![0u8; 64];
    buf.set(0, 0x07);
    buf.set(1, 0x03);
    buf.set(2, 0x06);
    buf.set(3, target);
    proof {
        assert(buf@ =~= spec_control_packet(target));
    }
    buf
}

impl Bloody {
    /// Whether this device is the supported keyboard.
    pub fn probe(info: &DeviceInfo) -> (r: bool)
        ensures
            r == spec_probe(info.vid, info.pid, info.report_descriptor@),
    {
        if info.vid != BLOODY_VID || info.pid != BLOODY_PID {
            return false;
        }
        let reports = info.report_descriptor.iter();
        let ghost all = spec_traversal(info.report_descriptor@);
        let mut i: usize = 0;
        while i < reports.len()
            invariant
                0 <= i <= reports@.len(),
                reports@ == all,
                all == spec_traversal(info.report_descriptor@),
                info.vid == BLOODY_VID,
                info.pid == BLOODY_PID,
                forall|k: int|
                    0 <= k < i ==> !((#[trigger] all[k]).usage_page == 0xFF52 && all[k].usage
                        == 0x0210),
            decreases reports@.len() - i,
        {
            if reports[i].usage_page == 0xFF52 && reports[i].usage == 0x0210 {
                proof {
                    assert(spec_traversal(info.report_descriptor@)[i as int].usage_page == 0xFF52
                        && spec_traversal(info.report_descriptor@)[i as int].usage == 0x0210);
                }
                return true;
            }
            i = i + 1;
        }
        false
    }

    /// The two packets that take or release control of the keyboard's
    /// lighting: a prepared packet for target 1, then a packet for target 0
    /// whose ninth byte says whether control is taken.
    pub fn take_control_packets(value: bool) -> (r: (Vec<u8>, Vec<u8>))
        ensures
            r.0@ == spec_control_packet(0x01),
            r.1@ == spec_control_packet(0x00).update(
                8,
                if value {
                    1u8
                } else {
                    0u8
                },
            ),
    {
        let first = make_prepared_control_packet(0x01);
        let mut second = make_prepared_control_packet(0x00);
        if value {
            second.set(8, 0x01);
        }
        proof {
            assert(second@ =~= spec_control_packet(0x00).update(
                8,
                if value {
                    1u8
                } else {
                    0u8
                },
            ));
        }
        (first, second)
    }

    /// The six packets that paint all 104 keys, in the order they are sent:
    /// red for each line, green for each line, blue for each line. Key `i`
    /// sits on line `i / 58` at color byte `6 + i % 58`.
    pub fn set_colors_packets(colors: &[Color; 104]) -> (r: Vec<Vec<u8>>)
        ensures
            r@.len() == 6,
            r@[0]@ == spec_color_packet(colors@, 0, 0),
            r@[1]@ == spec_color_packet(colors@, 1, 0),
            r@[2]@ == spec_color_packet(colors@, 0, 1),
            r@[3]@ == spec_color_packet(colors@, 1, 1),
            r@[4]@ == spec_color_packet(colors@, 0, 2),
            r@[5]@ == spec_color_packet(colors@, 1, 2),
    {
        let mut r1_buf = make_prepared_control_packet(0x07);
        let mut g1_buf = make_prepared_control_packet(0x09);
        let mut b1_buf = make_prepared_control_packet(0x0B);
        let mut r2_buf = make_prepared_control_packet(0x08);
        let mut g2_buf = make_prepared_control_packet(0x0A);
        let mut b2_buf = make_prepared_control_packet(0x0C);
        proof {
            assert(r1_buf@ =~= spec_color_packet_partial(colors@, 0, 0, 0));
            assert(g1_buf@ =~= spec_color_packet_partial(colors@, 0, 1, 0));
            assert(b1_buf@ =~= spec_color_packet_partial(colors@, 0, 2, 0));
            assert(r2_buf@ =~= spec_color_packet_partial(colors@, 1, 0, 0));
            assert(g2_buf@ =~= spec_color_packet_partial(colors@, 1, 1, 0));
            assert(b2_buf@ =~= spec_color_packet_partial(colors@, 1, 2, 0));
        }
        let mut i: usize = 0;
        while i < 104
            invariant
                0 <= i <= 104,
                r1_buf@ == spec_color_packet_partial(colors@, 0, 0, i as int),
                g1_buf@ == spec_color_packet_partial(colors@, 0, 1, i as int),
                b1_buf@ == spec_color_packet_partial(colors@, 0, 2, i as int),
                r2_buf@ == spec_color_packet_partial(colors@, 1, 0, i as int),
                g2_buf@ == spec_color_packet_partial(colors@, 1, 1, i as int),
                b2_buf@ == spec_color_packet_partial(colors@, 1, 2, i as int),
            decreases 104 - i,
        {
            let color = colors[i];
            let buffer_idx = BLOODY_B820R_RGB_OFFSET + i % BLOODY_B820R_RGB_BUFFER_SIZE;
            if i < 58 {
                r1_buf.set(buffer_idx, color.r);
                g1_buf.set(buffer_idx, color.g);
                b1_buf.set(buffer_idx, color.b);
            } else {
                r2_buf.set(buffer_idx, color.r);
                g2_buf.set(buffer_idx, color.g);
                b2_buf.set(buffer_idx, color.b);
            }
            proof {
                assert(r1_buf@ =~= spec_color_packet_partial(colors@, 0, 0, i + 1));
                assert(g1_buf@ =~= spec_color_packet_partial(colors@, 0, 1, i + 1));
                assert(b1_buf@ =~= spec_color_packet_partial(colors@, 0, 2, i + 1));
                assert(r2_buf@ =~= spec_color_packet_partial(colors@, 1, 0, i + 1));
                assert(g2_buf@ =~= spec_color_packet_partial(colors@, 1, 1, i + 1));
                assert(b2_buf@ =~= spec_color_packet_partial(colors@, 1, 2, i + 1));
            }
            i = i + 1;
        }
        let mut out: Vec<Vec<u8>> = Vec::new();
        out.push(r1_buf);
        out.push(r2_buf);
        out.push(g1_buf);
        out.push(g2_buf);
        out.push(b1_buf);
        out.push(b2_buf);
        out
    }
}

} // verus!
