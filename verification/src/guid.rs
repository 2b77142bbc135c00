//! The 128-bit vendor identifier and its canonical textual form: 32 lowercase
//! hexadecimal digits in `8-4-4-4-12` groups separated by `-`. Formatting and
//! permissive parsing are done by the `uuid` crate behind trusted wrappers;
//! the canonical form itself is specified here, character by character.

use vstd::prelude::*;

use crate::error::Error;

verus! {

/// The lowercase hexadecimal digit for a nibble value below 16.
pub open spec fn hex_digit(n: int) -> char {
    if n == 0 {
        '0'
    } else if n == 1 {
        '1'
    } else if n == 2 {
        '2'
    } else if n == 3 {
        '3'
    } else if n == 4 {
        '4'
    } else if n == 5 {
        '5'
    } else if n == 6 {
        '6'
    } else if n == 7 {
        '7'
    } else if n == 8 {
        '8'
    } else if n == 9 {
        '9'
    } else if n == 10 {
        'a'
    } else if n == 11 {
        'b'
    } else if n == 12 {
        'c'
    } else if n == 13 {
        'd'
    } else if n == 14 {
        'e'
    } else {
        'f'
    }
}

/// Nibble `k` of `g`, counting from the most significant: `k == 0` is the top
/// four bits and `k == 31` the bottom four.
pub open spec fn nibble(g: u128, k: int) -> int {
    ((g >> ((124 - 4 * k) as u128)) & 0xf) as int
}

/// Positions of the separators within the canonical 36-character form.
pub open spec fn is_dash_position(i: int) -> bool {
    i == 8 || i == 13 || i == 18 || i == 23
}

/// How many separators stand before position `i` of the canonical form.
pub open spec fn dashes_before(i: int) -> int {
    if i < 9 {
        0
    } else if i < 14 {
        1
    } else if i < 19 {
        2
    } else if i < 24 {
        3
    } else {
        4
    }
}

/// The character at position `i` of the canonical form of `g`.
pub open spec fn guid_char(g: u128, i: int) -> char {
    if is_dash_position(i) {
        '-'
    } else {
        hex_digit(nibble(g, i - dashes_before(i)))
    }
}

/// The canonical hyphenated form of a 128-bit identifier: 36 characters,
/// lowercase hexadecimal digits with `-` at positions 8, 13, 18 and 23.
pub open spec fn guid_string(g: u128) -> Seq<char> {
    Seq::new(36, |i: int| guid_char(g, i))
}

/// What `uuid::Uuid::try_parse` accepts, as a 128-bit value: `Some` exactly on
/// the textual identifier forms that the `uuid` crate recognizes.
pub uninterp spec fn guid_parse(s: Seq<char>) -> Option<u128>;

/// Relies on `uuid::Uuid::from_u128` and `uuid::fmt::Hyphenated`: the `uuid`
/// crate formats an identifier as 32 lowercase hexadecimal digits in
/// `8-4-4-4-12` groups, most significant nibble first.
#[verifier::external_body]
pub fn guid_to_string(g: u128) -> (r: String)
    ensures
        r@ == guid_string(g),
{
    uuid::Uuid::from_u128(g).hyphenated().to_string()
}

/// Relies on `uuid::Uuid::try_parse` and `uuid::Uuid::as_u128`: parsing
/// succeeds exactly on the textual forms the crate recognizes, and parsing
/// the canonical hyphenated form of an identifier yields that identifier.
#[verifier::external_body]
pub fn guid_from_str(s: &str) -> (r: Option<u128>)
    ensures
        r is Some <==> guid_parse(s@) is Some,
        r is Some ==> guid_parse(s@) == Some(r->0),
        forall|g: u128| s@ == guid_string(g) ==> r == Some(g),
{
    uuid::Uuid::try_parse(s).ok().map(|u| u.as_u128())
}

/// Parse a textual identifier, mapping a failure to the library's own error.
pub fn parse_guid(s: &str) -> (r: Result<u128, Error>)
    ensures
        r is Ok <==> guid_parse(s@) is Some,
        r is Ok ==> guid_parse(s@) == Some(r->Ok_0),
        r is Err ==> r->Err_0 is UuidError,
        forall|g: u128| s@ == guid_string(g) ==> r is Ok && r->Ok_0 == g,
{
    match guid_from_str(s) {
        Some(g) => Ok(g),
        None => Err(Error::UuidError),
    }
}

/// Two identifiers with the same canonical form are the same identifier.
pub proof fn lemma_guid_string_injective(a: u128, b: u128)
    requires
        guid_string(a) == guid_string(b),
    ensures
        a == b,
{
    assert forall|k: int| 0 <= k < 32 implies nibble(a, k) == nibble(b, k) by {
        let i = k + dashes_before_hex(k);
        assert(0 <= i < 36);
        assert(!is_dash_position(i));
        assert(dashes_before(i) == dashes_before_hex(k));
        assert(guid_string(a)[i] == guid_string(b)[i]);
        assert(guid_string(a)[i] == guid_char(a, i));
        assert(guid_string(b)[i] == guid_char(b, i));
        lemma_nibble_range(a, k);
        lemma_nibble_range(b, k);
        lemma_hex_digit_injective(nibble(a, k), nibble(b, k));
    }
    lemma_nibbles_determine(a, b);
}

/// The index within the canonical form of the hex digit for nibble `k`.
pub open spec fn dashes_before_hex(k: int) -> int {
    if k < 8 {
        0
    } else if k < 12 {
        1
    } else if k < 16 {
        2
    } else if k < 20 {
        3
    } else {
        4
    }
}

proof fn lemma_nibble_range(g: u128, k: int)
    requires
        0 <= k < 32,
    ensures
        0 <= nibble(g, k) < 16,
{
    let s = (124 - 4 * k) as u128;
    assert((g >> s) & 0xf < 16) by (bit_vector);
}

proof fn lemma_hex_digit_injective(m: int, n: int)
    requires
        0 <= m < 16,
        0 <= n < 16,
        hex_digit(m) == hex_digit(n),
    ensures
        m == n,
{
}

proof fn lemma_nibbles_determine(a: u128, b: u128)
    requires
        forall|k: int| 0 <= k < 32 ==> nibble(a, k) == nibble(b, k),
    ensures
        a == b,
{
    assert((a >> 124u128) & 0xf == (b >> 124u128) & 0xf) by { assert(nibble(a, 0) == nibble(b, 0)); };
    assert((a >> 120u128) & 0xf == (b >> 120u128) & 0xf) by { assert(nibble(a, 1) == nibble(b, 1)); };
    assert((a >> 116u128) & 0xf == (b >> 116u128) & 0xf) by { assert(nibble(a, 2) == nibble(b, 2)); };
    assert((a >> 112u128) & 0xf == (b >> 112u128) & 0xf) by { assert(nibble(a, 3) == nibble(b, 3)); };
    assert((a >> 108u128) & 0xf == (b >> 108u128) & 0xf) by { assert(nibble(a, 4) == nibble(b, 4)); };
    assert((a >> 104u128) & 0xf == (b >> 104u128) & 0xf) by { assert(nibble(a, 5) == nibble(b, 5)); };
    assert((a >> 100u128) & 0xf == (b >> 100u128) & 0xf) by { assert(nibble(a, 6) == nibble(b, 6)); };
    assert((a >> 96u128) & 0xf == (b >> 96u128) & 0xf) by { assert(nibble(a, 7) == nibble(b, 7)); };
    assert((a >> 92u128) & 0xf == (b >> 92u128) & 0xf) by { assert(nibble(a, 8) == nibble(b, 8)); };
    assert((a >> 88u128) & 0xf == (b >> 88u128) & 0xf) by { assert(nibble(a, 9) == nibble(b, 9)); };
    assert((a >> 84u128) & 0xf == (b >> 84u128) & 0xf) by { assert(nibble(a, 10) == nibble(b, 10)); };
    assert((a >> 80u128) & 0xf == (b >> 80u128) & 0xf) by { assert(nibble(a, 11) == nibble(b, 11)); };
    assert((a >> 76u128) & 0xf == (b >> 76u128) & 0xf) by { assert(nibble(a, 12) == nibble(b, 12)); };
    assert((a >> 72u128) & 0xf == (b >> 72u128) & 0xf) by { assert(nibble(a, 13) == nibble(b, 13)); };
    assert((a >> 68u128) & 0xf == (b >> 68u128) & 0xf) by { assert(nibble(a, 14) == nibble(b, 14)); };
    assert((a >> 64u128) & 0xf == (b >> 64u128) & 0xf) by { assert(nibble(a, 15) == nibble(b, 15)); };
    assert((a >> 60u128) & 0xf == (b >> 60u128) & 0xf) by { assert(nibble(a, 16) == nibble(b, 16)); };
    assert((a >> 56u128) & 0xf == (b >> 56u128) & 0xf) by { assert(nibble(a, 17) == nibble(b, 17)); };
    assert((a >> 52u128) & 0xf == (b >> 52u128) & 0xf) by { assert(nibble(a, 18) == nibble(b, 18)); };
    assert((a >> 48u128) & 0xf == (b >> 48u128) & 0xf) by { assert(nibble(a, 19) == nibble(b, 19)); };
    assert((a >> 44u128) & 0xf == (b >> 44u128) & 0xf) by { assert(nibble(a, 20) == nibble(b, 20)); };
    assert((a >> 40u128) & 0xf == (b >> 40u128) & 0xf) by { assert(nibble(a, 21) == nibble(b, 21)); };
    assert((a >> 36u128) & 0xf == (b >> 36u128) & 0xf) by { assert(nibble(a, 22) == nibble(b, 22)); };
    assert((a >> 32u128) & 0xf == (b >> 32u128) & 0xf) by { assert(nibble(a, 23) == nibble(b, 23)); };
    assert((a >> 28u128) & 0xf == (b >> 28u128) & 0xf) by { assert(nibble(a, 24) == nibble(b, 24)); };
    assert((a >> 24u128) & 0xf == (b >> 24u128) & 0xf) by { assert(nibble(a, 25) == nibble(b, 25)); };
    assert((a >> 20u128) & 0xf == (b >> 20u128) & 0xf) by { assert(nibble(a, 26) == nibble(b, 26)); };
    assert((a >> 16u128) & 0xf == (b >> 16u128) & 0xf) by { assert(nibble(a, 27) == nibble(b, 27)); };
    assert((a >> 12u128) & 0xf == (b >> 12u128) & 0xf) by { assert(nibble(a, 28) == nibble(b, 28)); };
    assert((a >> 8u128) & 0xf == (b >> 8u128) & 0xf) by { assert(nibble(a, 29) == nibble(b, 29)); };
    assert((a >> 4u128) & 0xf == (b >> 4u128) & 0xf) by { assert(nibble(a, 30) == nibble(b, 30)); };
    assert((a >> 0u128) & 0xf == (b >> 0u128) & 0xf) by { assert(nibble(a, 31) == nibble(b, 31)); };
    assert(a == b) by (bit_vector)
        requires
            (a >> 124u128) & 0xf == (b >> 124u128) & 0xf,
            (a >> 120u128) & 0xf == (b >> 120u128) & 0xf,
            (a >> 116u128) & 0xf == (b >> 116u128) & 0xf,
            (a >> 112u128) & 0xf == (b >> 112u128) & 0xf,
            (a >> 108u128) & 0xf == (b >> 108u128) & 0xf,
            (a >> 104u128) & 0xf == (b >> 104u128) & 0xf,
            (a >> 100u128) & 0xf == (b >> 100u128) & 0xf,
            (a >> 96u128) & 0xf == (b >> 96u128) & 0xf,
            (a >> 92u128) & 0xf == (b >> 92u128) & 0xf,
            (a >> 88u128) & 0xf == (b >> 88u128) & 0xf,
            (a >> 84u128) & 0xf == (b >> 84u128) & 0xf,
            (a >> 80u128) & 0xf == (b >> 80u128) & 0xf,
            (a >> 76u128) & 0xf == (b >> 76u128) & 0xf,
            (a >> 72u128) & 0xf == (b >> 72u128) & 0xf,
            (a >> 68u128) & 0xf == (b >> 68u128) & 0xf,
            (a >> 64u128) & 0xf == (b >> 64u128) & 0xf,
            (a >> 60u128) & 0xf == (b >> 60u128) & 0xf,
            (a >> 56u128) & 0xf == (b >> 56u128) & 0xf,
            (a >> 52u128) & 0xf == (b >> 52u128) & 0xf,
            (a >> 48u128) & 0xf == (b >> 48u128) & 0xf,
            (a >> 44u128) & 0xf == (b >> 44u128) & 0xf,
            (a >> 40u128) & 0xf == (b >> 40u128) & 0xf,
            (a >> 36u128) & 0xf == (b >> 36u128) & 0xf,
            (a >> 32u128) & 0xf == (b >> 32u128) & 0xf,
            (a >> 28u128) & 0xf == (b >> 28u128) & 0xf,
            (a >> 24u128) & 0xf == (b >> 24u128) & 0xf,
            (a >> 20u128) & 0xf == (b >> 20u128) & 0xf,
            (a >> 16u128) & 0xf == (b >> 16u128) & 0xf,
            (a >> 12u128) & 0xf == (b >> 12u128) & 0xf,
            (a >> 8u128) & 0xf == (b >> 8u128) & 0xf,
            (a >> 4u128) & 0xf == (b >> 4u128) & 0xf,
            (a >> 0u128) & 0xf == (b >> 0u128) & 0xf,
    ;
}

} // verus!
