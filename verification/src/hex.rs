//! Textual rendering of numbers: hexadecimal for the textual form of GUIDs
//! and for the names of embedded shell-link streams, decimal for error
//! messages that quote a field's value.

use vstd::prelude::*;
use vstd::string::StringExecFns;

verus! {

/// The sixteen upper-case digits, in order of value.
pub open spec fn hex_digits_upper() -> Seq<char> {
    seq!['0', '1', '2', '3', '4', '5', '6', '7', '8', '9', 'A', 'B', 'C', 'D', 'E', 'F']
}

/// The sixteen lower-case digits, in order of value.
pub open spec fn hex_digits_lower() -> Seq<char> {
    seq!['0', '1', '2', '3', '4', '5', '6', '7', '8', '9', 'a', 'b', 'c', 'd', 'e', 'f']
}

pub open spec fn hex_upper(n: int) -> char {
    hex_digits_upper()[n]
}

pub open spec fn hex_lower(n: int) -> char {
    hex_digits_lower()[n]
}

/// The two upper-case digits of one byte.
pub open spec fn hex2_upper(b: u8) -> Seq<char> {
    seq![hex_upper(b as int / 16), hex_upper(b as int % 16)]
}

/// The four upper-case digits of a 16-bit value.
pub open spec fn hex4_upper(v: u16) -> Seq<char> {
    hex2_upper((v as int / 0x100) as u8) + hex2_upper((v as int % 0x100) as u8)
}

/// The eight upper-case digits of a 32-bit value.
pub open spec fn hex8_upper(v: u32) -> Seq<char> {
    hex4_upper((v as int / 0x10000) as u16) + hex4_upper((v as int % 0x10000) as u16)
}

/// Lower-case hexadecimal without leading zeroes; zero renders as a single
/// digit.  Embedded shell-link streams are named this way after the ordinal
/// of the DestList entry they belong to.
pub open spec fn lower_hex_no_pad(v: nat) -> Seq<char>
    decreases v,
{
    if v < 16 {
        seq![hex_lower(v as int)]
    } else {
        lower_hex_no_pad(v / 16) + seq![hex_lower(v as int % 16)]
    }
}

fn hex_upper_str(n: u8) -> (r: &'static str)
    requires
        n < 16,
    ensures
        r@ == seq![hex_upper(n as int)],
{
    match n {
        0 => {
            proof {
                reveal_strlit("0");
                assert("0"@ =~= seq![hex_upper(0)]);
            }
            "0"
        },
        1 => {
            proof {
                reveal_strlit("1");
                assert("1"@ =~= seq![hex_upper(1)]);
            }
            "1"
        },
        2 => {
            proof {
                reveal_strlit("2");
                assert("2"@ =~= seq![hex_upper(2)]);
            }
            "2"
        },
        3 => {
            proof {
                reveal_strlit("3");
                assert("3"@ =~= seq![hex_upper(3)]);
            }
            "3"
        },
        4 => {
            proof {
                reveal_strlit("4");
                assert("4"@ =~= seq![hex_upper(4)]);
            }
            "4"
        },
        5 => {
            proof {
                reveal_strlit("5");
                assert("5"@ =~= seq![hex_upper(5)]);
            }
            "5"
        },
        6 => {
            proof {
                reveal_strlit("6");
                assert("6"@ =~= seq![hex_upper(6)]);
            }
            "6"
        },
        7 => {
            proof {
                reveal_strlit("7");
                assert("7"@ =~= seq![hex_upper(7)]);
            }
            "7"
        },
        8 => {
            proof {
                reveal_strlit("8");
                assert("8"@ =~= seq![hex_upper(8)]);
            }
            "8"
        },
        9 => {
            proof {
                reveal_strlit("9");
                assert("9"@ =~= seq![hex_upper(9)]);
            }
            "9"
        },
        10 => {
            proof {
                reveal_strlit("A");
                assert("A"@ =~= seq![hex_upper(10)]);
            }
            "A"
        },
        11 => {
            proof {
                reveal_strlit("B");
                assert("B"@ =~= seq![hex_upper(11)]);
            }
            "B"
        },
        12 => {
            proof {
                reveal_strlit("C");
                assert("C"@ =~= seq![hex_upper(12)]);
            }
            "C"
        },
        13 => {
            proof {
                reveal_strlit("D");
                assert("D"@ =~= seq![hex_upper(13)]);
            }
            "D"
        },
        14 => {
            proof {
                reveal_strlit("E");
                assert("E"@ =~= seq![hex_upper(14)]);
            }
            "E"
        },
        _ => {
            proof {
                reveal_strlit("F");
                assert("F"@ =~= seq![hex_upper(15)]);
            }
            "F"
        },
    }
}

fn hex_lower_str(n: u8) -> (r: &'static str)
    requires
        n < 16,
    ensures
        r@ == seq![hex_lower(n as int)],
{
    match n {
        0 => {
            proof {
                reveal_strlit("0");
                assert("0"@ =~= seq![hex_lower(0)]);
            }
            "0"
        },
        1 => {
            proof {
                reveal_strlit("1");
                assert("1"@ =~= seq![hex_lower(1)]);
            }
            "1"
        },
        2 => {
            proof {
                reveal_strlit("2");
                assert("2"@ =~= seq![hex_lower(2)]);
            }
            "2"
        },
        3 => {
            proof {
                reveal_strlit("3");
                assert("3"@ =~= seq![hex_lower(3)]);
            }
            "3"
        },
        4 => {
            proof {
                reveal_strlit("4");
                assert("4"@ =~= seq![hex_lower(4)]);
            }
            "4"
        },
        5 => {
            proof {
                reveal_strlit("5");
                assert("5"@ =~= seq![hex_lower(5)]);
            }
            "5"
        },
        6 => {
            proof {
                reveal_strlit("6");
                assert("6"@ =~= seq![hex_lower(6)]);
            }
            "6"
        },
        7 => {
            proof {
                reveal_strlit("7");
                assert("7"@ =~= seq![hex_lower(7)]);
            }
            "7"
        },
        8 => {
            proof {
                reveal_strlit("8");
                assert("8"@ =~= seq![hex_lower(8)]);
            }
            "8"
        },
        9 => {
            proof {
                reveal_strlit("9");
                assert("9"@ =~= seq![hex_lower(9)]);
            }
            "9"
        },
        10 => {
            proof {
                reveal_strlit("a");
                assert("a"@ =~= seq![hex_lower(10)]);
            }
            "a"
        },
        11 => {
            proof {
                reveal_strlit("b");
                assert("b"@ =~= seq![hex_lower(11)]);
            }
            "b"
        },
        12 => {
            proof {
                reveal_strlit("c");
                assert("c"@ =~= seq![hex_lower(12)]);
            }
            "c"
        },
        13 => {
            proof {
                reveal_strlit("d");
                assert("d"@ =~= seq![hex_lower(13)]);
            }
            "d"
        },
        14 => {
            proof {
                reveal_strlit("e");
                assert("e"@ =~= seq![hex_lower(14)]);
            }
            "e"
        },
        _ => {
            proof {
                reveal_strlit("f");
                assert("f"@ =~= seq![hex_lower(15)]);
            }
            "f"
        },
    }
}

/// Appends the two upper-case digits of `b`.
pub fn push_hex2_upper(s: &mut String, b: u8)
    ensures
        final(s)@ == old(s)@ + hex2_upper(b),
{
    s.append(hex_upper_str(b / 16));
    s.append(hex_upper_str(b % 16));
    proof {
        assert(s@ =~= old(s)@ + hex2_upper(b));
    }
}

/// Appends the four upper-case digits of `v`.
pub fn push_hex4_upper(s: &mut String, v: u16)
    ensures
        final(s)@ == old(s)@ + hex4_upper(v),
{
    push_hex2_upper(s, (v / 0x100) as u8);
    push_hex2_upper(s, (v % 0x100) as u8);
    proof {
        assert(s@ =~= old(s)@ + hex4_upper(v));
    }
}

/// Appends the eight upper-case digits of `v`.
pub fn push_hex8_upper(s: &mut String, v: u32)
    ensures
        final(s)@ == old(s)@ + hex8_upper(v),
{
    push_hex4_upper(s, (v / 0x10000) as u16);
    push_hex4_upper(s, (v % 0x10000) as u16);
    proof {
        assert(s@ =~= old(s)@ + hex8_upper(v));
    }
}

fn push_lower_hex(s: &mut String, v: u32)
    ensures
        final(s)@ == old(s)@ + lower_hex_no_pad(v as nat),
    decreases v,
{
    if v < 16 {
        s.append(hex_lower_str(v as u8));
    } else {
        push_lower_hex(s, v / 16);
        s.append(hex_lower_str((v % 16) as u8));
        proof {
            assert(s@ =~= old(s)@ + lower_hex_no_pad(v as nat));
        }
    }
}

/// The lower-case, unpadded hexadecimal form of `v`.
pub fn lower_hex_string(v: u32) -> (r: String)
    ensures
        r@ == lower_hex_no_pad(v as nat),
{
    let mut s = String::new();
    push_lower_hex(&mut s, v);
    proof {
        assert(s@ =~= lower_hex_no_pad(v as nat));
    }
    s
}

/// Decimal without leading zeroes; zero renders as a single digit.
pub open spec fn decimal_no_pad(v: nat) -> Seq<char>
    decreases v,
{
    if v < 10 {
        seq![hex_lower(v as int)]
    } else {
        decimal_no_pad(v / 10) + seq![hex_lower(v as int % 10)]
    }
}

/// Appends the decimal form of `v`.
pub fn push_decimal(s: &mut String, v: u32)
    ensures
        final(s)@ == old(s)@ + decimal_no_pad(v as nat),
    decreases v,
{
    if v < 10 {
        s.append(hex_lower_str(v as u8));
    } else {
        push_decimal(s, v / 10);
        s.append(hex_lower_str((v % 10) as u8));
        proof {
            assert(s@ =~= old(s)@ + decimal_no_pad(v as nat));
        }
    }
}

} // verus!
