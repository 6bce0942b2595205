//! Contracts assumed about functions of std and of outside crates that vstd
//! does not specify. Everything proved in this crate rests on these contracts;
//! each doc comment names the function relied on and what is assumed of it.

use vstd::prelude::*;

use crate::numtext::dec_nat;

verus! {

/// Relies on `alloc::string::String::push`: appends one character to the end
/// of the string.
pub assume_specification[ String::push ](s: &mut String, ch: char)
    ensures
        final(s)@ == old(s)@.push(ch),
;

/// Relies on `isize::try_from` for unsigned machine words: succeeds exactly
/// when the value fits in the signed machine word, and then keeps it.
pub assume_specification[ <isize as core::convert::TryFrom<usize>>::try_from ](v: usize) -> (r:
    Result<isize, <isize as core::convert::TryFrom<usize>>::Error>)
    ensures
        r is Ok <==> v <= isize::MAX,
        r is Ok ==> r->Ok_0 == v as isize,
;

/// What `core::char::from_u32` returns for a valid code point: the
/// character with that code, a function of the code alone.
pub uninterp spec fn char_from_code(i: u32) -> char;

/// Relies on `core::char::from_u32`: yields the character with the given
/// code point exactly when the code is a Unicode scalar value, that is,
/// below the surrogate range or between its end and the largest code point.
pub assume_specification[ char::from_u32 ](i: u32) -> (r: Option<char>)
    ensures
        r is Some <==> (i < 0xD800 || (0xE000 <= i && i <= 0x10FFFF)),
        r is Some ==> r->0 == char_from_code(i) && r->0 as u32 == i,
;

/// What `html_escape::decode_html_entities` returns for a given string. The
/// full decoding (named character references as well as numeric ones) takes
/// pages to state, but it is a function of the characters alone.
pub uninterp spec fn decoded_entities(s: Seq<char>) -> Seq<char>;

/// Whether a numeric character reference with this value is decoded: a
/// Unicode scalar value that is not a C0 control, except the four ASCII
/// whitespace controls, which are decoded too.
pub open spec fn decoded_reference_code(n: nat) -> bool {
    &&& (n == 9 || n == 10 || n == 12 || n == 13 || n >= 32)
    &&& (n < 0xD800 || (0xE000 <= n && n <= 0x10FFFF))
}

/// Relies on `html_escape::decode_html_entities`: decodes the HTML character
/// references in a string. The result depends on the characters alone; a
/// string holding no ampersand is returned unchanged; and a string that is
/// exactly one decimal reference to a decodable code becomes that one
/// character.
#[verifier::external_body]
pub(crate) fn decode_entities(s: &str) -> (r: String)
    ensures
        r@ == decoded_entities(s@),
        !s@.contains('&') ==> r@ == s@,
        forall|n: nat|
            decoded_reference_code(n) && s@ == "&#"@ + #[trigger] dec_nat(n) + ";"@ ==> r@ == seq![
                char_from_code(n as u32),
            ],
{
    html_escape::decode_html_entities(s).to_string()
}

} // verus!
