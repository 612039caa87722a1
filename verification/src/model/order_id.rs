//! Order identifiers: random version-4 UUIDs, held as their 128-bit value.

use vstd::arithmetic::div_mod::{lemma_basic_div, lemma_div_denominator, lemma_fundamental_div_mod, lemma_mod_pos_bound};
use vstd::arithmetic::power::{lemma_pow_positive, pow};
use vstd::prelude::*;

verus! {

/// Whether `id` carries the marks of a random (version 4, RFC 4122 variant) UUID:
/// version nibble 4 and the two variant bits `10`.
pub open spec fn is_random_v4(id: u128) -> bool {
    &&& (id >> 76u128) & 0xfu128 == 4
    &&& (id >> 62u128) & 0x3u128 == 2
}

/// Lower-case hexadecimal digit for a value in `0..16`.
pub open spec fn hex_char(d: int) -> char {
    if d < 10 {
        (d + 48) as char
    } else {
        (d + 87) as char
    }
}

/// The `j`-th hexadecimal digit of `id`, counted from the most significant one.
pub open spec fn nibble(id: u128, j: int) -> int {
    (id as int / pow(16, (31 - j) as nat)) % 16
}

/// Positions of the hyphens in the 36-character hyphenated form.
pub open spec fn is_hyphen_position(i: int) -> bool {
    i == 8 || i == 13 || i == 18 || i == 23
}

/// How many hexadecimal digits precede position `i` of the hyphenated form.
pub open spec fn digits_before(i: int) -> int {
    if i < 8 {
        i
    } else if i < 13 {
        i - 1
    } else if i < 18 {
        i - 2
    } else if i < 23 {
        i - 3
    } else {
        i - 4
    }
}

/// The hyphenated lower-case form of a UUID, `xxxxxxxx-xxxx-xxxx-xxxx-xxxxxxxxxxxx`,
/// digits taken from the most significant end of the 128-bit value.
pub open spec fn hyphenated(id: u128) -> Seq<char> {
    Seq::new(
        36,
        |i: int|
            if is_hyphen_position(i) {
                '-'
            } else {
                hex_char(nibble(id, digits_before(i)))
            },
    )
}

/// Draws a fresh identifier with `uuid::Uuid::new_v4` and hands out its
/// 128-bit value (`as_u128`). The crate's source masks random bits so that the
/// version nibble is 4 and the variant bits are `10`; nothing else is known of
/// the value, which comes from the operating system's random source.
#[verifier::external_body]
pub(crate) fn random_order_id() -> (id: u128)
    ensures
        is_random_v4(id),
{
    ::uuid::Uuid::new_v4().as_u128()
}

/// Renders an identifier with `uuid::Uuid::from_u128` and its `Display`
/// (`to_string`), which the crate's source writes as the hyphenated lower-case
/// hexadecimal form of the big-endian bytes.
#[verifier::external_body]
pub(crate) fn order_id_text(id: u128) -> (s: String)
    ensures
        s@ == hyphenated(id),
{
    ::uuid::Uuid::from_u128(id).to_string()
}

/// The value of a lower-case hexadecimal digit.
pub open spec fn hex_digit_value(c: char) -> int {
    if '0' <= c <= '9' {
        c as int - 48
    } else {
        c as int - 87
    }
}

/// Whether `c` is a lower-case hexadecimal digit.
pub open spec fn is_lower_hex_digit(c: char) -> bool {
    ('0' <= c <= '9') || ('a' <= c <= 'f')
}

/// The number that a text of hexadecimal digits denotes, most significant
/// digit first, hyphens skipped.
pub open spec fn hex_text_value(t: Seq<char>) -> int
    decreases t.len(),
{
    if t.len() == 0 {
        0
    } else if t.last() == '-' {
        hex_text_value(t.drop_last())
    } else {
        hex_text_value(t.drop_last()) * 16 + hex_digit_value(t.last())
    }
}

/// How many of the first `i` characters of the hyphenated form are digits.
pub open spec fn digits_among(i: int) -> int {
    i - (if i > 8 { 1int } else { 0 }) - (if i > 13 { 1int } else { 0 }) - (if i > 18 {
        1int
    } else {
        0
    }) - (if i > 23 { 1int } else { 0 })
}

proof fn lemma_hex_char_value(d: int)
    requires
        0 <= d < 16,
    ensures
        is_lower_hex_digit(hex_char(d)),
        hex_digit_value(hex_char(d)) == d,
        hex_char(d) != '-',
{
    if d < 10 {
        assert(hex_char(d) as int == d + 48);
    } else {
        assert(hex_char(d) as int == d + 87);
    }
}

proof fn lemma_hyphenated_prefix(id: u128, i: int)
    requires
        0 <= i <= 36,
    ensures
        hex_text_value(hyphenated(id).take(i)) == id as int / pow(16, (32 - digits_among(i)) as nat),
    decreases i,
{
    let h = hyphenated(id);
    if i == 0 {
        assert(h.take(0) =~= Seq::<char>::empty());
        reveal_with_fuel(pow, 33);
        assert(pow(16, 32) == 0x1_0000_0000_0000_0000_0000_0000_0000_0000);
        lemma_basic_div(id as int, pow(16, 32));
    } else {
        let k = i - 1;
        lemma_hyphenated_prefix(id, k);
        let t = h.take(i);
        assert(t.drop_last() =~= h.take(k));
        assert(t.last() == h[k]);
        if is_hyphen_position(k) {
            assert(digits_among(i) == digits_among(k));
        } else {
            let j = digits_before(k);
            assert(j == digits_among(k));
            assert(digits_among(i) == j + 1);
            let c = pow(16, (31 - j) as nat);
            lemma_pow_positive(16, (31 - j) as nat);
            reveal(pow);
            assert(pow(16, (32 - j) as nat) == 16 * c);
            let x = id as int / c;
            lemma_mod_pos_bound(x, 16);
            lemma_hex_char_value(x % 16);
            assert(h[k] == hex_char(nibble(id, j)));
            assert(nibble(id, j) == x % 16);
            lemma_div_denominator(id as int, c, 16);
            assert(c * 16 == 16 * c);
            lemma_fundamental_div_mod(x, 16);
            assert(hex_text_value(t) == (x / 16) * 16 + x % 16);
        }
    }
}

/// The hyphenated form of an identifier has 36 characters: hyphens at
/// positions 8, 13, 18 and 23 and lower-case hexadecimal digits everywhere
/// else, and the digits, read in order, denote the identifier.
pub proof fn law_hyphenated_denotes_the_id(id: u128)
    ensures
        hyphenated(id).len() == 36,
        forall|i: int|
            0 <= i < 36 ==> ((#[trigger] hyphenated(id)[i] == '-') <==> (i == 8 || i == 13 || i
                == 18 || i == 23)),
        forall|i: int|
            0 <= i < 36 && !(i == 8 || i == 13 || i == 18 || i == 23) ==> is_lower_hex_digit(
                #[trigger] hyphenated(id)[i],
            ),
        hex_text_value(hyphenated(id)) == id,
{
    let h = hyphenated(id);
    lemma_hyphenated_prefix(id, 36);
    assert(h.take(36) =~= h);
    reveal(pow);
    assert(pow(16, 0) == 1);
    assert forall|i: int| 0 <= i < 36 && !is_hyphen_position(i) implies is_lower_hex_digit(
        #[trigger] h[i],
    ) && h[i] != '-' by {
        let j = digits_before(i);
        let c = pow(16, (31 - j) as nat);
        lemma_pow_positive(16, (31 - j) as nat);
        lemma_mod_pos_bound(id as int / c, 16);
        lemma_hex_char_value(nibble(id, j));
    }
}

} // verus!
