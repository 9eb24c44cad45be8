//! Identifiers: 128-bit UUID values, their canonical text form, and the calls
//! into the `uuid` crate that parse, print and generate them.
use vstd::prelude::*;

verus! {

/// Lower-case hexadecimal digit for a value in `0..16`.
pub open spec fn hex_digit(n: int) -> char {
    seq!['0', '1', '2', '3', '4', '5', '6', '7', '8', '9', 'a', 'b', 'c', 'd', 'e', 'f'][n]
}

proof fn lemma_hex_digit_injective(a: int, b: int)
    requires
        0 <= a < 16,
        0 <= b < 16,
        hex_digit(a) == hex_digit(b),
    ensures
        a == b,
{
    let hex = seq!['0', '1', '2', '3', '4', '5', '6', '7', '8', '9', 'a', 'b', 'c', 'd', 'e', 'f'];
    assert(hex_digit(a) == hex[a]);
    assert(hex_digit(b) == hex[b]);
    assert(forall|x: int, y: int| 0 <= x < 16 && 0 <= y < 16 && x != y ==> #[trigger] hex[x] != #[trigger] hex[y]) by {
        assert(hex[0] == '0' && hex[1] == '1' && hex[2] == '2' && hex[3] == '3');
        assert(hex[4] == '4' && hex[5] == '5' && hex[6] == '6' && hex[7] == '7');
        assert(hex[8] == '8' && hex[9] == '9' && hex[10] == 'a' && hex[11] == 'b');
        assert(hex[12] == 'c' && hex[13] == 'd' && hex[14] == 'e' && hex[15] == 'f');
    }
}

/// 16 to the power `e`.
pub open spec fn pow16(e: nat) -> nat
    decreases e,
{
    if e == 0 { 1 } else { 16 * pow16((e - 1) as nat) }
}

/// The `k`-th hexadecimal digit of `v`, counting from the most significant of 32.
pub open spec fn nibble(v: u128, k: int) -> int {
    (v as int / pow16((31 - k) as nat) as int) % 16
}

/// Position among the 32 hex digits of the character at index `i` of the
/// hyphenated form (hyphens sit at indices 8, 13, 18 and 23).
pub open spec fn digit_index(i: int) -> int {
    if i < 8 { i } else if i < 13 { i - 1 } else if i < 18 { i - 2 } else if i < 23 { i - 3 } else { i - 4 }
}

/// The canonical text of an identifier: 32 lower-case hex digits, most
/// significant first, grouped 8-4-4-4-12 by hyphens.
pub open spec fn uuid_text(v: u128) -> Seq<char> {
    Seq::new(36, |i: int|
        if i == 8 || i == 13 || i == 18 || i == 23 { '-' } else { hex_digit(nibble(v, digit_index(i))) })
}

/// The value of the first `k` hex digits of `v` (`0 <= k <= 32`).
pub open spec fn digits_prefix(v: u128, k: nat) -> int {
    v as int / pow16((32 - k) as nat) as int
}

proof fn lemma_pow16_positive(e: nat)
    ensures
        pow16(e) > 0,
    decreases e,
{
    if e > 0 {
        lemma_pow16_positive((e - 1) as nat);
    }
}

proof fn lemma_pow16_32()
    ensures
        pow16(32) == 0x1_0000_0000_0000_0000_0000_0000_0000_0000,
{
    reveal_with_fuel(pow16, 33);
}

proof fn lemma_digits_prefix_step(v: u128, k: nat)
    requires
        k < 32,
    ensures
        digits_prefix(v, k + 1) == 16 * digits_prefix(v, k) + nibble(v, k as int),
{
    let d = pow16((31 - k) as nat) as int;
    lemma_pow16_positive((31 - k) as nat);
    assert(pow16((32 - k) as nat) == 16 * pow16((31 - k) as nat));
    vstd::arithmetic::div_mod::lemma_div_denominator(v as int, d, 16);
    assert(d * 16 == 16 * d) by (nonlinear_arith);
    vstd::arithmetic::div_mod::lemma_fundamental_div_mod(v as int / d, 16);
}

proof fn lemma_digits_prefix_equal(v: u128, w: u128, k: nat)
    requires
        k <= 32,
        forall|j: int| 0 <= j < k ==> #[trigger] nibble(v, j) == nibble(w, j),
    ensures
        digits_prefix(v, k) == digits_prefix(w, k),
    decreases k,
{
    if k == 0 {
        lemma_pow16_32();
        vstd::arithmetic::div_mod::lemma_basic_div(v as int, pow16(32) as int);
        vstd::arithmetic::div_mod::lemma_basic_div(w as int, pow16(32) as int);
    } else {
        lemma_digits_prefix_equal(v, w, (k - 1) as nat);
        lemma_digits_prefix_step(v, (k - 1) as nat);
        lemma_digits_prefix_step(w, (k - 1) as nat);
        assert(nibble(v, k - 1) == nibble(w, k - 1));
    }
}

/// Two identifiers with the same canonical text are the same identifier.
pub proof fn lemma_uuid_text_injective(v: u128, w: u128)
    requires
        uuid_text(v) == uuid_text(w),
    ensures
        v == w,
{
    assert forall|j: int| 0 <= j < 32 implies #[trigger] nibble(v, j) == nibble(w, j) by {
        let i = if j < 8 { j } else if j < 12 { j + 1 } else if j < 16 { j + 2 } else if j < 20 { j + 3 } else { j + 4 };
        assert(0 <= i < 36 && i != 8 && i != 13 && i != 18 && i != 23);
        assert(digit_index(i) == j);
        assert(uuid_text(v)[i] == hex_digit(nibble(v, j)));
        assert(uuid_text(w)[i] == hex_digit(nibble(w, j)));
        lemma_pow16_positive((31 - j) as nat);
        vstd::arithmetic::div_mod::lemma_mod_pos_bound(v as int / pow16((31 - j) as nat) as int, 16);
        vstd::arithmetic::div_mod::lemma_mod_pos_bound(w as int / pow16((31 - j) as nat) as int, 16);
        vstd::arithmetic::div_mod::lemma_div_pos_is_pos(v as int, pow16((31 - j) as nat) as int);
        vstd::arithmetic::div_mod::lemma_div_pos_is_pos(w as int, pow16((31 - j) as nat) as int);
        lemma_hex_digit_injective(nibble(v, j), nibble(w, j));
    }
    lemma_digits_prefix_equal(v, w, 32);
    assert(pow16(0) == 1);
    assert(digits_prefix(v, 32) == v as int / pow16(0) as int);
    assert(digits_prefix(v, 32) == v as int);
    assert(digits_prefix(w, 32) == w as int / pow16(0) as int);
    assert(digits_prefix(w, 32) == w as int);
}

/// What `uuid::Uuid::parse_str` gives for a text, as a 128-bit value
/// (it accepts the simple, hyphenated, braced and URN forms).
pub uninterp spec fn uuid_parse(s: Seq<char>) -> Option<u128>;

/// Calls `uuid::Uuid::parse_str`. The result is named by `uuid_parse`.
#[verifier::external_body]
pub(crate) fn parse_id(s: &str) -> (res: Option<u128>)
    ensures
        res == uuid_parse(s@),
{
    match uuid::Uuid::parse_str(s) {
        Ok(u) => Some(u.as_u128()),
        Err(_) => None,
    }
}

/// Calls `<uuid::Uuid as Display>::fmt` through `to_string`: the hyphenated
/// lower-case form, which `parse_str` reads back to the same value.
#[verifier::external_body]
pub(crate) fn id_to_string(id: u128) -> (res: String)
    ensures
        res@ == uuid_text(id),
        uuid_parse(res@) == Some(id),
{
    uuid::Uuid::from_u128(id).to_string()
}

/// A random (version 4) identifier: version nibble 4 and variant bits `10`.
pub open spec fn is_v4_id(id: u128) -> bool {
    &&& (id >> 76u128) & 0xfu128 == 4u128
    &&& (id >> 62u128) & 0x3u128 == 2u128
}

/// Calls `uuid::Uuid::new_v4`: a random identifier whose version nibble is 4
/// and whose variant bits are `10` (RFC 9562); nothing else is known of it.
#[verifier::external_body]
pub(crate) fn new_random_id() -> (res: u128)
    ensures
        (res >> 76u128) & 0xfu128 == 4u128,
        (res >> 62u128) & 0x3u128 == 2u128,
{
    uuid::Uuid::new_v4().as_u128()
}

} // verus!
