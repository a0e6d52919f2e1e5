//! The fixed 16-entry color palette: case-insensitive names mapped to
//! foreground attribute values.

use vstd::prelude::*;

verus! {

/// An ASCII upper-case letter lowered; every other character is unchanged.
pub open spec fn lower_char(c: char) -> char {
    if 'A' <= c && c <= 'Z' {
        (((c as u32) + 32) as char)
    } else {
        c
    }
}

/// A name lowered character by character.
pub open spec fn lowered(name: Seq<char>) -> Seq<char> {
    name.map_values(|c: char| lower_char(c))
}

/// The palette: the attribute value of a color name, or `None` when the name,
/// lowered, is none of the sixteen known ones.
pub open spec fn color_of_name(name: Seq<char>) -> Option<u8> {
    let n = lowered(name);
    if n == "black"@ {
        Some(0x00u8)
    } else if n == "blue"@ {
        Some(0x01u8)
    } else if n == "green"@ {
        Some(0x02u8)
    } else if n == "cyan"@ {
        Some(0x03u8)
    } else if n == "red"@ {
        Some(0x04u8)
    } else if n == "magenta"@ {
        Some(0x05u8)
    } else if n == "brown"@ {
        Some(0x06u8)
    } else if n == "light_gray"@ {
        Some(0x07u8)
    } else if n == "dark_gray"@ {
        Some(0x08u8)
    } else if n == "light_blue"@ {
        Some(0x09u8)
    } else if n == "light_green"@ {
        Some(0x0Au8)
    } else if n == "light_cyan"@ {
        Some(0x0Bu8)
    } else if n == "light_red"@ {
        Some(0x0Cu8)
    } else if n == "pink"@ {
        Some(0x0Du8)
    } else if n == "yellow"@ {
        Some(0x0Eu8)
    } else if n == "white"@ {
        Some(0x0Fu8)
    } else {
        None
    }
}

/// Lowers one character as `lower_char` does.
pub fn to_lower(c: char) -> (r: char)
    ensures
        r == lower_char(c),
{
    if 'A' <= c && c <= 'Z' {
        let b: u8 = c as u8;
        (b + 32) as char
    } else {
        c
    }
}

/// Whether `name`, lowered, is exactly the characters of `lit`.
fn name_matches(name: &Vec<char>, lit: &str) -> (r: bool)
    ensures
        r == (lowered(name@) == lit@),
{
    let n = lit.unicode_len();
    if name.len() != n {
        proof {
            assert(lowered(name@).len() == name@.len());
        }
        return false;
    }
    let mut i: usize = 0;
    while i < n
        invariant
            i <= n,
            n == lit@.len(),
            name@.len() == n,
            forall|j: int| 0 <= j < i ==> lower_char(name@[j]) == lit@[j],
        decreases n - i,
    {
        let c = to_lower(name[i]);
        if c != lit.get_char(i) {
            proof {
                assert(lowered(name@)[i as int] != lit@[i as int]);
            }
            return false;
        }
        i += 1;
    }
    proof {
        assert(lowered(name@) =~= lit@);
    }
    true
}

/// The palette lookup on an accumulated name buffer.
pub fn lookup_color(name: &Vec<char>) -> (r: Option<u8>)
    ensures
        r == color_of_name(name@),
{
    if name_matches(name, "black") {
        Some(0x00)
    } else if name_matches(name, "blue") {
        Some(0x01)
    } else if name_matches(name, "green") {
        Some(0x02)
    } else if name_matches(name, "cyan") {
        Some(0x03)
    } else if name_matches(name, "red") {
        Some(0x04)
    } else if name_matches(name, "magenta") {
        Some(0x05)
    } else if name_matches(name, "brown") {
        Some(0x06)
    } else if name_matches(name, "light_gray") {
        Some(0x07)
    } else if name_matches(name, "dark_gray") {
        Some(0x08)
    } else if name_matches(name, "light_blue") {
        Some(0x09)
    } else if name_matches(name, "light_green") {
        Some(0x0A)
    } else if name_matches(name, "light_cyan") {
        Some(0x0B)
    } else if name_matches(name, "light_red") {
        Some(0x0C)
    } else if name_matches(name, "pink") {
        Some(0x0D)
    } else if name_matches(name, "yellow") {
        Some(0x0E)
    } else if name_matches(name, "white") {
        Some(0x0F)
    } else {
        None
    }
}

} // verus!
