//! 128-bit GUID fields, read as mixed-endian components and rendered in the
//! standard `XXXXXXXX-XXXX-XXXX-XXXX-XXXXXXXXXXXX` textual form.

use vstd::prelude::*;
use vstd::string::StringExecFns;

use crate::bytes::{le16_at, le32_at, ByteReader};
use crate::hex::{hex2_upper, hex4_upper, hex8_upper, push_hex2_upper, push_hex4_upper,
    push_hex8_upper};

verus! {

/// A GUID, as it sits on disk: one 32-bit and two 16-bit little-endian
/// components followed by eight raw bytes.
#[derive(Debug, Clone, Copy, PartialEq, Eq, Structural)]
pub struct Guid {
    pub data1: u32,
    pub data2: u16,
    pub data3: u16,
    pub data4_0: u8,
    pub data4_1: u8,
    pub data4_2: u8,
    pub data4_3: u8,
    pub data4_4: u8,
    pub data4_5: u8,
    pub data4_6: u8,
    pub data4_7: u8,
}

/// The GUID whose sixteen bytes start at `pos`.
pub open spec fn spec_guid_at(s: Seq<u8>, pos: int) -> Guid {
    Guid {
        data1: le32_at(s, pos) as u32,
        data2: le16_at(s, pos + 4) as u16,
        data3: le16_at(s, pos + 6) as u16,
        data4_0: s[pos + 8],
        data4_1: s[pos + 9],
        data4_2: s[pos + 10],
        data4_3: s[pos + 11],
        data4_4: s[pos + 12],
        data4_5: s[pos + 13],
        data4_6: s[pos + 14],
        data4_7: s[pos + 15],
    }
}

/// The textual form of a GUID: upper-case hexadecimal, grouped
/// 8-4-4-4-12 with dashes.
pub open spec fn guid_display(g: Guid) -> Seq<char> {
    hex8_upper(g.data1) + seq!['-'] + hex4_upper(g.data2) + seq!['-'] + hex4_upper(g.data3)
        + seq!['-'] + hex2_upper(g.data4_0) + hex2_upper(g.data4_1) + seq!['-'] + hex2_upper(
    g.data4_2) + hex2_upper(g.data4_3) + hex2_upper(g.data4_4) + hex2_upper(g.data4_5)
        + hex2_upper(g.data4_6) + hex2_upper(g.data4_7)
}

/// The class identifier that tags every embedded shell-link record inside a
/// CustomDestinations category: `00021401-0000-0000-C000-000000000046`.
pub open spec fn spec_shell_link_class_id() -> Guid {
    Guid {
        data1: 0x00021401,
        data2: 0,
        data3: 0,
        data4_0: 0xC0,
        data4_1: 0,
        data4_2: 0,
        data4_3: 0,
        data4_4: 0,
        data4_5: 0,
        data4_6: 0,
        data4_7: 0x46,
    }
}

impl Guid {
    /// Reads sixteen bytes as a GUID; fails, leaving the buffer intact, if
    /// fewer remain.
    pub fn from_reader(r: &mut ByteReader) -> (g: Option<Guid>)
        requires
            old(r).wf(),
        ensures
            final(r).wf(),
            final(r).bytes() == old(r).bytes(),
            old(r).position() + 16 <= old(r).bytes().len() ==> {
                &&& g == Some(spec_guid_at(old(r).bytes(), old(r).position()))
                &&& final(r).position() == old(r).position() + 16
            },
            old(r).position() + 16 > old(r).bytes().len() ==> g is None,
    {
        let data1 = match r.read_u32_le() {
            Some(v) => v,
            None => { return None },
        };
        let data2 = match r.read_u16_le() {
            Some(v) => v,
            None => { return None },
        };
        let data3 = match r.read_u16_le() {
            Some(v) => v,
            None => { return None },
        };
        let data4_0 = match r.read_u8() {
            Some(v) => v,
            None => { return None },
        };
        let data4_1 = match r.read_u8() {
            Some(v) => v,
            None => { return None },
        };
        let data4_2 = match r.read_u8() {
            Some(v) => v,
            None => { return None },
        };
        let data4_3 = match r.read_u8() {
            Some(v) => v,
            None => { return None },
        };
        let data4_4 = match r.read_u8() {
            Some(v) => v,
            None => { return None },
        };
        let data4_5 = match r.read_u8() {
            Some(v) => v,
            None => { return None },
        };
        let data4_6 = match r.read_u8() {
            Some(v) => v,
            None => { return None },
        };
        let data4_7 = match r.read_u8() {
            Some(v) => v,
            None => { return None },
        };
        Some(
            Guid {
                data1,
                data2,
                data3,
                data4_0,
                data4_1,
                data4_2,
                data4_3,
                data4_4,
                data4_5,
                data4_6,
                data4_7,
            },
        )
    }

    /// Whether this is the shell-link class identifier.
    pub fn is_shell_link_class_id(&self) -> (r: bool)
        ensures
            r == (*self == spec_shell_link_class_id()),
    {
        self.data1 == 0x00021401 && self.data2 == 0 && self.data3 == 0 && self.data4_0 == 0xC0
            && self.data4_1 == 0 && self.data4_2 == 0 && self.data4_3 == 0 && self.data4_4 == 0
            && self.data4_5 == 0 && self.data4_6 == 0 && self.data4_7 == 0x46
    }

    /// Renders the GUID in its standard textual form.
    pub fn to_display_string(&self) -> (r: String)
        ensures
            r@ == guid_display(*self),
    {
        let mut s = String::new();
        push_hex8_upper(&mut s, self.data1);
        s.append(dash());
        push_hex4_upper(&mut s, self.data2);
        s.append(dash());
        push_hex4_upper(&mut s, self.data3);
        s.append(dash());
        push_hex2_upper(&mut s, self.data4_0);
        push_hex2_upper(&mut s, self.data4_1);
        s.append(dash());
        push_hex2_upper(&mut s, self.data4_2);
        push_hex2_upper(&mut s, self.data4_3);
        push_hex2_upper(&mut s, self.data4_4);
        push_hex2_upper(&mut s, self.data4_5);
        push_hex2_upper(&mut s, self.data4_6);
        push_hex2_upper(&mut s, self.data4_7);
        proof {
            assert(s@ =~= guid_display(*self));
        }
        s
    }
}

fn dash() -> (r: &'static str)
    ensures
        r@ == seq!['-'],
{
    proof {
        reveal_strlit("-");
        assert("-"@ =~= seq!['-']);
    }
    "-"
}

} // verus!
