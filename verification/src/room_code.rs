//! Room codes for the external signalling server: eight base-36 characters,
//! the first five from the time in 10 ms steps, the last three random.

use vstd::prelude::*;
use vstd::string::*;
use vstd::arithmetic::div_mod::lemma_fundamental_div_mod_converse;
use rand::Rng;
use crate::text::{digit_char, digit_str};

verus! {

/// Characters of a room code.
pub const CODE_LENGTH: usize = 8;

/// Characters taken by the time part.
pub const TIMESTAMP_CHARS: usize = 5;

/// Characters taken by the random part.
pub const RANDOM_CHARS: usize = 3;

/// 36 to the power of `TIMESTAMP_CHARS`.
pub const TIMESTAMP_MODULO: u64 = 36 * 36 * 36 * 36 * 36;

/// 36 to the power of `RANDOM_CHARS`.
pub const RANDOM_MODULO: u64 = 36 * 36 * 36;

/// 36 to the power of `n`.
pub open spec fn pow36(n: nat) -> nat
    decreases n,
{
    if n == 0 {
        1
    } else {
        36 * pow36((n - 1) as nat)
    }
}

/// `v` in base 36 (digits `0`-`9`, `A`-`Z`), most significant first, padded
/// with `0` on the left to at least `width` characters. Zero with width zero
/// is the empty text.
pub open spec fn base36_padded(v: nat, width: nat) -> Seq<char>
    decreases v, width,
{
    if v == 0 && width == 0 {
        Seq::empty()
    } else {
        proof {
            if v > 0 {
                assert(v / 36 < v);
            }
        }
        base36_padded(v / 36, if width > 0 { (width - 1) as nat } else { 0 }).push(digit_char(v % 36))
    }
}

/// A character of the base-36 alphabet.
pub open spec fn is_base36_char(c: char) -> bool {
    ('0' <= c && c <= '9') || ('A' <= c && c <= 'Z')
}

/// The value of a base-36 digit character.
pub open spec fn char_digit(c: char) -> nat {
    if c <= '9' {
        (c as int - 48) as nat
    } else {
        (c as int - 55) as nat
    }
}

/// The number that base-36 text `s` denotes.
pub open spec fn base36_value(s: Seq<char>) -> nat
    decreases s.len(),
{
    if s.len() == 0 {
        0
    } else {
        base36_value(s.drop_last()) * 36 + char_digit(s.last())
    }
}

proof fn lemma_digit_char(d: nat)
    requires
        d < 36,
    ensures
        is_base36_char(digit_char(d)),
        char_digit(digit_char(d)) == d,
{
    let c = digit_char(d);
    if d < 10 {
        assert(((d + 48) as u8) as char as int == d + 48);
    } else {
        assert(((d + 55) as u8) as char as int == d + 55);
    }
    assert(c as int == if d < 10 { d + 48 } else { d + 55 });
}

proof fn lemma_div_36(v: nat)
    ensures
        v == (v / 36) * 36 + v % 36,
        v % 36 < 36,
        v > 0 ==> v / 36 < v,
{
}

/// Base-36 text of `v` padded to `width` has exactly `width` characters
/// when `v` fits in that many digits.
pub proof fn law_base36_width(v: nat, width: nat)
    requires
        v < pow36(width),
    ensures
        base36_padded(v, width).len() == width,
    decreases v, width,
{
    if v == 0 && width == 0 {
    } else {
        lemma_div_36(v);
        assert(width > 0);
        let w1 = (width - 1) as nat;
        assert(pow36(width) == 36 * pow36(w1));
        assert(v / 36 < pow36(w1)) by (nonlinear_arith)
            requires
                v < 36 * pow36(w1),
        ;
        if v > 0 {
            law_base36_width(v / 36, w1);
        } else {
            law_base36_width(0, w1);
        }
    }
}

/// How many base-36 digits `v` has (none for zero).
pub open spec fn base36_digits(v: nat) -> nat
    decreases v,
{
    if v == 0 {
        0
    } else {
        proof {
            assert(v / 36 < v);
        }
        1 + base36_digits(v / 36)
    }
}

/// Base-36 text of `v` padded to `width` is as long as the longer of
/// `width` and the number of digits of `v`: padding never cuts a digit.
pub proof fn law_base36_length(v: nat, width: nat)
    ensures
        base36_padded(v, width).len() == if width >= base36_digits(v) {
            width
        } else {
            base36_digits(v)
        },
    decreases v, width,
{
    if v == 0 && width == 0 {
    } else {
        lemma_div_36(v);
        let w1: nat = if width > 0 { (width - 1) as nat } else { 0 };
        if v > 0 {
            law_base36_length(v / 36, w1);
            assert(base36_digits(v) == 1 + base36_digits(v / 36));
        } else {
            law_base36_length(0, w1);
            assert(base36_digits(0) == 0);
        }
    }
}

/// `s` comes before `t` in character (here byte) order: equal up to some
/// position, where `s` has the smaller character.
pub open spec fn text_less(s: Seq<char>, t: Seq<char>) -> bool {
    exists|i: int|
        0 <= i < s.len() && i < t.len() && s.subrange(0, i) == t.subrange(0, i) && (#[trigger] s[i]
            as int) < (t[i] as int)
}

proof fn lemma_digit_char_order(a: nat, b: nat)
    requires
        a < b < 36,
    ensures
        (digit_char(a) as int) < (digit_char(b) as int),
{
    if a < 10 {
        assert(((a + 48) as u8) as char as int == a + 48);
    } else {
        assert(((a + 55) as u8) as char as int == a + 55);
    }
    if b < 10 {
        assert(((b + 48) as u8) as char as int == b + 48);
    } else {
        assert(((b + 55) as u8) as char as int == b + 55);
    }
}

/// Zero-padded base-36 text keeps numeric order: of two numbers that fit
/// in `width` digits, the smaller one's text comes first, and both texts
/// have `width` characters.
pub proof fn law_base36_order(a: nat, b: nat, width: nat)
    requires
        width >= 1,
        a < b < pow36(width),
    ensures
        base36_padded(a, width).len() == width,
        base36_padded(b, width).len() == width,
        text_less(base36_padded(a, width), base36_padded(b, width)),
    decreases width,
{
    law_base36_width(a, width);
    law_base36_width(b, width);
    lemma_div_36(a);
    lemma_div_36(b);
    let w1 = (width - 1) as nat;
    assert(pow36(width) == 36 * pow36(w1));
    let sa = base36_padded(a, width);
    let sb = base36_padded(b, width);
    let pa = base36_padded(a / 36, w1);
    let pb = base36_padded(b / 36, w1);
    assert(sa == pa.push(digit_char(a % 36)));
    assert(sb == pb.push(digit_char(b % 36)));
    assert(a / 36 < pow36(w1)) by (nonlinear_arith)
        requires
            a < 36 * pow36(w1),
    ;
    assert(b / 36 < pow36(w1)) by (nonlinear_arith)
        requires
            b < 36 * pow36(w1),
    ;
    law_base36_width(a / 36, w1);
    law_base36_width(b / 36, w1);
    assert(a / 36 <= b / 36) by (nonlinear_arith)
        requires
            a < b,
            a == (a / 36) * 36 + a % 36,
            b == (b / 36) * 36 + b % 36,
            a % 36 < 36,
            b % 36 < 36,
            0 <= a % 36,
            0 <= b % 36,
    ;
    if a / 36 == b / 36 {
        assert(a % 36 < b % 36);
        lemma_digit_char_order(a % 36, b % 36);
        let i = w1 as int;
        assert(sa.subrange(0, i) =~= pa);
        assert(sb.subrange(0, i) =~= pb);
        assert(sa[i] == digit_char(a % 36));
        assert(text_less(sa, sb));
    } else {
        assert(w1 >= 1) by {
            if w1 == 0 {
                assert(pow36(0) == 1);
            }
        }
        law_base36_order(a / 36, b / 36, w1);
        let i = choose|i: int|
            0 <= i < pa.len() && i < pb.len() && pa.subrange(0, i) == pb.subrange(0, i) && (#[trigger] pa[i]
                as int) < (pb[i] as int);
        assert(sa.subrange(0, i) =~= pa.subrange(0, i));
        assert(sb.subrange(0, i) =~= pb.subrange(0, i));
        assert(sa[i] == pa[i] && sb[i] == pb[i]);
        assert(text_less(sa, sb));
    }
}

/// Every character of base-36 text is in the alphabet `0`-`9`, `A`-`Z`,
/// so a room code is safe in a URL.
pub proof fn law_base36_alphabet(v: nat, width: nat)
    ensures
        forall|i: int|
            0 <= i < base36_padded(v, width).len() ==> is_base36_char(
                #[trigger] base36_padded(v, width)[i],
            ),
    decreases v, width,
{
    if v == 0 && width == 0 {
    } else {
        lemma_div_36(v);
        let w1: nat = if width > 0 { (width - 1) as nat } else { 0 };
        if v > 0 {
            law_base36_alphabet(v / 36, w1);
        } else {
            law_base36_alphabet(0, w1);
        }
        lemma_digit_char(v % 36);
        let prev = base36_padded(v / 36, w1);
        assert(base36_padded(v, width) == prev.push(digit_char(v % 36)));
        assert forall|i: int| 0 <= i < base36_padded(v, width).len() implies is_base36_char(
            #[trigger] base36_padded(v, width)[i],
        ) by {
            if i < prev.len() {
                assert(base36_padded(v, width)[i] == prev[i]);
            }
        }
    }
}

/// Reading base-36 text back gives the number it was written from.
pub proof fn law_base36_round_trip(v: nat, width: nat)
    ensures
        base36_value(base36_padded(v, width)) == v,
    decreases v, width,
{
    if v == 0 && width == 0 {
    } else {
        lemma_div_36(v);
        let w1: nat = if width > 0 { (width - 1) as nat } else { 0 };
        if v > 0 {
            law_base36_round_trip(v / 36, w1);
        } else {
            law_base36_round_trip(0, w1);
        }
        lemma_digit_char(v % 36);
        let s = base36_padded(v, width);
        assert(s.drop_last() =~= base36_padded(v / 36, w1));
    }
}

/// Text of `t * 36^k + r` (with `r < 36^k`) padded to `width + k` is the
/// text of `t` padded to `width` followed by the text of `r` padded to `k`:
/// the two parts of a room code can be read off separately.
pub proof fn law_base36_split(t: nat, r: nat, width: nat, k: nat)
    requires
        r < pow36(k),
    ensures
        base36_padded(t * pow36(k) + r, width + k) == base36_padded(t, width) + base36_padded(r, k),
    decreases k,
{
    if k == 0 {
        assert(r == 0);
        assert(base36_padded(0, 0) =~= Seq::<char>::empty());
        assert(base36_padded(t, width) + base36_padded(0, 0) =~= base36_padded(t, width));
    } else {
        let k1 = (k - 1) as nat;
        let p1 = pow36(k1);
        assert(pow36(k) == 36 * p1);
        lemma_div_36(r);
        let q = r / 36;
        let m = r % 36;
        assert(q < p1) by (nonlinear_arith)
            requires
                r < 36 * p1,
                r == q * 36 + m,
                0 <= m,
        ;
        let v = t * pow36(k) + r;
        assert(v == (t * p1 + q) * 36 + m) by (nonlinear_arith)
            requires
                v == t * (36 * p1) + r,
                r == q * 36 + m,
        ;
        lemma_fundamental_div_mod_converse(v as int, 36, (t * p1 + q) as int, m as int);
        law_base36_split(t, q, width, k1);
        assert(t * p1 + q == t * pow36(k1) + q);
        assert((width + k1) as nat == (width + k - 1) as nat);
        let left = base36_padded(t, width);
        let mid = base36_padded(q, k1);
        assert(base36_padded(r, k) == mid.push(digit_char(m)));
        assert(base36_padded(v, width + k) == (left + mid).push(digit_char(m)));
        assert((left + mid).push(digit_char(m)) =~= left + mid.push(digit_char(m)));
    }
}

/// Writes `value` in base 36, padded with `0` on the left to `length`
/// characters; a value with more digits is not cut.
pub fn to_base36_string(value: u64, length: usize) -> (r: String)
    ensures
        r@ == base36_padded(value as nat, length as nat),
    decreases value, length,
{
    if value == 0 && length == 0 {
        return String::new();
    }
    let rest_width: usize = if length > 0 { length - 1 } else { 0 };
    let mut s = to_base36_string(value / 36, rest_width);
    s.append(digit_str(value % 36));
    s
}

/// The number a room code encodes: the time in 10 ms steps, reduced to five
/// base-36 digits, followed by the three random digits.
pub open spec fn room_code_value(millis: u64, random_part: u64) -> nat {
    (((millis / 10) % TIMESTAMP_MODULO) * RANDOM_MODULO + random_part) as nat
}

/// The room code for a clock reading in milliseconds and a random part.
pub open spec fn room_code_text(millis: u64, random_part: u64) -> Seq<char> {
    base36_padded(room_code_value(millis, random_part), CODE_LENGTH as nat)
}

/// Builds the room code from a clock reading in milliseconds since the Unix
/// epoch and a random part below `RANDOM_MODULO`.
pub fn compose_room_code(millis: u64, random_part: u64) -> (r: String)
    requires
        random_part < RANDOM_MODULO,
    ensures
        r@ == room_code_text(millis, random_part),
        r@ == base36_padded(((millis / 10) % TIMESTAMP_MODULO) as nat, TIMESTAMP_CHARS as nat)
            + base36_padded(random_part as nat, RANDOM_CHARS as nat),
        r@.len() == CODE_LENGTH,
{
    let time_interval = millis / 10;
    let time_part = time_interval % TIMESTAMP_MODULO;
    assert(time_part * 46656 <= 60466175 * 46656) by (nonlinear_arith)
        requires
            time_part < 60466176,
    ;
    let combined_value: u64 = time_part * RANDOM_MODULO + random_part;
    proof {
        reveal_with_fuel(pow36, 9);
        assert(pow36(3) == RANDOM_MODULO);
        assert(pow36(5) == TIMESTAMP_MODULO);
        assert(pow36(8) == TIMESTAMP_MODULO * RANDOM_MODULO);
        law_base36_split(time_part as nat, random_part as nat, 5, 3);
        law_base36_width(time_part as nat, 5);
        law_base36_width(random_part as nat, 3);
    }
    to_base36_string(combined_value, CODE_LENGTH)
}

#[verifier::external_type_specification]
#[verifier::external_body]
pub struct ExSystemTime(std::time::SystemTime);

#[verifier::external_type_specification]
#[verifier::external_body]
pub struct ExThreadRng(rand::rngs::ThreadRng);

/// Calls `std::time::SystemTime::now`. Nothing is stated of the reading: it
/// is the machine's clock.
#[verifier::external_body]
fn wall_clock_now() -> (r: std::time::SystemTime) {
    std::time::SystemTime::now()
}

/// Calls `SystemTime::duration_since` with the Unix epoch: the time elapsed
/// since 1970, or `None` when the clock reads earlier. Nothing more is
/// stated, as the reading is opaque here.
#[verifier::external_body]
fn since_unix_epoch(t: &std::time::SystemTime) -> (r: Option<core::time::Duration>) {
    match t.duration_since(std::time::UNIX_EPOCH) {
        Ok(d) => Some(d),
        Err(_) => None,
    }
}

/// Calls `Duration::as_millis`: the whole milliseconds of `d`. Nothing is
/// stated, as a `Duration` is opaque here.
#[verifier::external_body]
fn whole_millis(d: &core::time::Duration) -> (r: u128) {
    d.as_millis()
}

/// Calls `rand::thread_rng`: the thread's generator, seeded by the system.
#[verifier::external_body]
fn thread_rng() -> (r: rand::rngs::ThreadRng) {
    rand::thread_rng()
}

/// Calls `Rng::gen_range` on `0..bound`: a random value below `bound`. The
/// crate panics on an empty range, so `bound` must be positive.
#[verifier::external_body]
fn gen_below(rng: &mut rand::rngs::ThreadRng, bound: u64) -> (r: u64)
    requires
        bound > 0,
    ensures
        r < bound,
{
    rng.gen_range(0..bound)
}

/// The error of a clock that reads before 1970.
pub open spec fn clock_before_epoch_text() -> Seq<char> {
    "Time went backwards, system clock is unreliable."@
}

/// Generates a fresh eight-character room code from the clock and a random
/// draw. A clock that reads before 1970 is reported as an error.
pub fn generate_room_code_base36() -> (r: Result<String, String>)
    ensures
        r matches Ok(code) ==> exists|millis: u64, random_part: u64|
            random_part < RANDOM_MODULO && code@ == room_code_text(millis, random_part),
        r matches Ok(code) ==> code@.len() == CODE_LENGTH,
        r matches Err(e) ==> e@ == clock_before_epoch_text(),
{
    let now = wall_clock_now();
    let millis: u64 = match since_unix_epoch(&now) {
        Some(d) => whole_millis(&d) as u64,
        None => return Err(String::from_str("Time went backwards, system clock is unreliable.")),
    };
    let mut rng = thread_rng();
    let random_part = gen_below(&mut rng, RANDOM_MODULO);
    Ok(compose_room_code(millis, random_part))
}

} // verus!
