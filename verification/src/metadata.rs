//! Release metadata: the three string fields read off the source page, and
//! the `YYYY-MM-DD` shape of the release code with its date parser.

use vstd::prelude::*;

verus! {

/// Metadata of one release, read verbatim off the source page: the URL of
/// the binary asset, the date-coded identifier (`YYYY-MM-DD`), and the
/// human-readable date. Produced once per run; never persisted.
pub struct ReleaseMetadata {
    pub asset_url: String,
    pub release_code: String,
    pub display_date: String,
}

/// The mathematical value of a `ReleaseMetadata`: its three fields as
/// character sequences.
#[verifier::ext_equal]
pub ghost struct MetaV {
    pub asset_url: Seq<char>,
    pub release_code: Seq<char>,
    pub display_date: Seq<char>,
}

impl View for ReleaseMetadata {
    type V = MetaV;

    open spec fn view(&self) -> MetaV {
        MetaV {
            asset_url: self.asset_url@,
            release_code: self.release_code@,
            display_date: self.display_date@,
        }
    }
}

/// A decimal digit character.
pub open spec fn is_digit(c: char) -> bool {
    48 <= c as int && c as int <= 57
}

/// The numeric value of a decimal digit character.
pub open spec fn digit_val(c: char) -> int {
    c as int - 48
}

/// The release code shape `YYYY-MM-DD`: ten characters, digits in the
/// year, month and day positions, `-` between them.
pub open spec fn is_release_code(s: Seq<char>) -> bool {
    &&& s.len() == 10
    &&& is_digit(s[0])
    &&& is_digit(s[1])
    &&& is_digit(s[2])
    &&& is_digit(s[3])
    &&& s[4] == '-'
    &&& is_digit(s[5])
    &&& is_digit(s[6])
    &&& s[7] == '-'
    &&& is_digit(s[8])
    &&& is_digit(s[9])
}

/// The year encoded in a release code.
pub open spec fn code_year(s: Seq<char>) -> int {
    1000 * digit_val(s[0]) + 100 * digit_val(s[1]) + 10 * digit_val(s[2]) + digit_val(s[3])
}

/// The month encoded in a release code.
pub open spec fn code_month(s: Seq<char>) -> int {
    10 * digit_val(s[5]) + digit_val(s[6])
}

/// The day encoded in a release code.
pub open spec fn code_day(s: Seq<char>) -> int {
    10 * digit_val(s[8]) + digit_val(s[9])
}

/// Reads the year, month and day numbers out of a release code, returning
/// `None` exactly when the code does not have the `YYYY-MM-DD` shape.
pub fn parse_release_code(code: &str) -> (r: Option<(u16, u16, u16)>)
    ensures
        r is Some <==> is_release_code(code@),
        r is Some ==> {
            let (y, m, d) = r->0;
            y == code_year(code@) && m == code_month(code@) && d == code_day(code@)
        },
{
    if code.unicode_len() != 10 {
        return None;
    }
    let c4 = code.get_char(4);
    let c7 = code.get_char(7);
    if !(c4 == '-' && c7 == '-') {
        return None;
    }
    let d0 = digit_of(code.get_char(0));
    let d1 = digit_of(code.get_char(1));
    let d2 = digit_of(code.get_char(2));
    let d3 = digit_of(code.get_char(3));
    let d5 = digit_of(code.get_char(5));
    let d6 = digit_of(code.get_char(6));
    let d8 = digit_of(code.get_char(8));
    let d9 = digit_of(code.get_char(9));
    match (d0, d1, d2, d3, d5, d6, d8, d9) {
        (
            Some(d0),
            Some(d1),
            Some(d2),
            Some(d3),
            Some(d5),
            Some(d6),
            Some(d8),
            Some(d9),
        ) => {
            let y: u16 = 1000 * (d0 as u16) + 100 * (d1 as u16) + 10 * (d2 as u16) + (d3 as u16);
            let m: u16 = 10 * (d5 as u16) + (d6 as u16);
            let d: u16 = 10 * (d8 as u16) + (d9 as u16);
            Some((y, m, d))
        },
        _ => None,
    }
}

/// The numeric value of a decimal digit character; `None` off `0`-`9`.
fn digit_of(c: char) -> (r: Option<u8>)
    ensures
        r is Some <==> is_digit(c),
        r is Some ==> r->0 == digit_val(c),
{
    let u = c as u32;
    if 48 <= u && u <= 57 {
        Some((u - 48) as u8)
    } else {
        None
    }
}

} // verus!
