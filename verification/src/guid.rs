//! The registry text of a class identifier (GUID) of the Explorer hook:
//! `{XXXXXXXX-XXXX-XXXX-XXXX-XXXXXXXXXXXX}` in uppercase hexadecimal.

use crate::hash::char_str;
use vstd::prelude::*;

verus! {

/// The uppercase hexadecimal digit for `d < 16`.
pub open spec fn upper_digit(d: nat) -> char {
    if d < 10 { ((d + 48) as u8) as char } else { ((d - 10 + 65) as u8) as char }
}

/// The last `width` hexadecimal digits of `v`, most significant first,
/// in uppercase and padded with zeros.
pub open spec fn upper_hex(v: nat, width: nat) -> Seq<char>
    decreases width,
{
    if width == 0 {
        Seq::empty()
    } else {
        upper_hex(v / 16, (width - 1) as nat).push(upper_digit(v % 16))
    }
}

fn hex_digit(d: u64) -> (c: char)
    requires
        d < 16,
    ensures
        c == upper_digit(d as nat),
{
    if d < 10 {
        ((d + 48) as u8) as char
    } else {
        ((d - 10 + 65) as u8) as char
    }
}

fn hex_text(v: u64, width: usize) -> (s: String)
    ensures
        s@ == upper_hex(v as nat, width as nat),
    decreases width,
{
    if width == 0 {
        String::new()
    } else {
        let mut s = hex_text(v / 16, width - 1);
        let d = char_str(hex_digit(v % 16));
        s.append(d.as_str());
        s
    }
}

/// The text of a GUID made of its four fields.
pub open spec fn spec_guid_text(data1: u32, data2: u16, data3: u16, data4: Seq<u8>) -> Seq<char> {
    "{"@ + upper_hex(data1 as nat, 8) + "-"@ + upper_hex(data2 as nat, 4) + "-"@ + upper_hex(data3 as nat, 4)
        + "-"@ + upper_hex(data4[0] as nat, 2) + upper_hex(data4[1] as nat, 2) + "-"@
        + upper_hex(data4[2] as nat, 2) + upper_hex(data4[3] as nat, 2) + upper_hex(data4[4] as nat, 2)
        + upper_hex(data4[5] as nat, 2) + upper_hex(data4[6] as nat, 2) + upper_hex(data4[7] as nat, 2)
        + "}"@
}

/// Writes a GUID as the registry expects it.
pub fn guid_text(data1: u32, data2: u16, data3: u16, data4: [u8; 8]) -> (r: String)
    ensures
        r@ == spec_guid_text(data1, data2, data3, data4@),
{
    let mut r = "{".to_string();
    r.append(hex_text(data1 as u64, 8).as_str());
    r.append("-");
    r.append(hex_text(data2 as u64, 4).as_str());
    r.append("-");
    r.append(hex_text(data3 as u64, 4).as_str());
    r.append("-");
    r.append(hex_text(data4[0] as u64, 2).as_str());
    r.append(hex_text(data4[1] as u64, 2).as_str());
    r.append("-");
    r.append(hex_text(data4[2] as u64, 2).as_str());
    r.append(hex_text(data4[3] as u64, 2).as_str());
    r.append(hex_text(data4[4] as u64, 2).as_str());
    r.append(hex_text(data4[5] as u64, 2).as_str());
    r.append(hex_text(data4[6] as u64, 2).as_str());
    r.append(hex_text(data4[7] as u64, 2).as_str());
    r.append("}");
    r
}

} // verus!
