//! The JSON text of signal messages, actor commands and actor publications,
//! written and read by the library itself. A signal message is
//! `{"id":"<id>","timestamp":<integer>,"signal":<decimal>}`: in the id, `"`
//! and `\` are escaped with a backslash and control characters as `\u00XX`;
//! the signal is written with exactly three decimals, as it is held in
//! thousandths. The reader takes exactly this form, and refuses any other
//! layout or escape rather than misread it.
use vstd::prelude::*;
use vstd::arithmetic::div_mod::*;
use vstd::string::*;
use crate::actor::{ActorPubMsg, ActorSubMsg, SignalMsg};
use crate::pub_sub::ClientId;

verus! {

pub open spec fn is_digit(c: char) -> bool {
    '0' <= c && c <= '9'
}

pub open spec fn digit_char(d: int) -> char {
    ((d + 48) as u8) as char
}

pub open spec fn digit_value(c: char) -> int {
    (c as int) - 48
}

/// Decimal digits of a natural number, without leading zeros.
pub open spec fn digits(n: nat) -> Seq<char>
    decreases n,
{
    if n < 10 {
        seq![digit_char(n as int)]
    } else {
        digits(n / 10).push(digit_char((n % 10) as int))
    }
}

/// The number a run of decimal digits denotes.
pub open spec fn digits_value(s: Seq<char>) -> int
    decreases s.len(),
{
    if s.len() == 0 {
        0
    } else {
        10 * digits_value(s.drop_last()) + digit_value(s.last())
    }
}

/// End of the run of digits that starts at `i`.
pub open spec fn digit_run(t: Seq<char>, i: int) -> int
    decreases t.len() - i,
{
    if i < 0 || i >= t.len() || !is_digit(t[i]) {
        i
    } else {
        digit_run(t, i + 1)
    }
}

proof fn lemma_digit_char(d: int)
    requires
        0 <= d < 10,
    ensures
        digit_value(digit_char(d)) == d,
        is_digit(digit_char(d)),
{
}

proof fn lemma_digits(n: nat)
    ensures
        digits_value(digits(n)) == n,
        digits(n).len() >= 1,
        forall|k: int| 0 <= k < digits(n).len() ==> is_digit(#[trigger] digits(n)[k]),
    decreases n,
{
    lemma_digit_char((n % 10) as int);
    if n >= 10 {
        lemma_digits(n / 10);
        lemma_fundamental_div_mod(n as int, 10);
        let s = digits(n);
        assert(s.drop_last() =~= digits(n / 10));
        assert(s.last() == digit_char((n % 10) as int));
        assert(digits_value(s) == 10 * digits_value(s.drop_last()) + digit_value(s.last()));
    } else {
        let s = digits(n);
        assert(s.drop_last() =~= Seq::<char>::empty());
        assert(digits_value(s) == 10 * digits_value(s.drop_last()) + digit_value(s.last()));
    }
}

proof fn lemma_digit_run(t: Seq<char>, i: int, s: Seq<char>)
    requires
        0 <= i,
        i + s.len() <= t.len(),
        t.subrange(i, i + s.len()) == s,
        forall|k: int| 0 <= k < s.len() ==> is_digit(#[trigger] s[k]),
        i + s.len() == t.len() || !is_digit(t[i + s.len()]),
    ensures
        digit_run(t, i) == i + s.len(),
    decreases s.len(),
{
    if s.len() > 0 {
        assert(t[i] == s[0]);
        let s2 = s.drop_first();
        assert(t.subrange(i + 1, i + 1 + s2.len()) =~= s2);
        lemma_digit_run(t, i + 1, s2);
    }
}

fn push_digits(n: u64, out: &mut Vec<char>)
    ensures
        final(out)@ == old(out)@ + digits(n as nat),
    decreases n,
{
    if n >= 10 {
        push_digits(n / 10, out);
    }
    let d = (n % 10) as u8;
    out.push((d + 48) as char);
    proof {
        if n >= 10 {
            assert(digits(n as nat) == digits((n / 10) as nat).push(digit_char((n % 10) as int)));
        }
    }
}


/// `10` to the power `k`.
pub open spec fn tens(k: nat) -> int
    decreases k,
{
    if k == 0 {
        1
    } else {
        10 * tens((k - 1) as nat)
    }
}

proof fn lemma_tens_positive(k: nat)
    ensures
        tens(k) >= 1,
    decreases k,
{
    if k > 0 {
        lemma_tens_positive((k - 1) as nat);
    }
}

proof fn lemma_digits_len(n: nat, k: nat)
    requires
        k >= 1,
        n < tens(k),
    ensures
        digits(n).len() <= k,
    decreases n,
{
    if n >= 10 {
        let t = tens((k - 1) as nat);
        lemma_tens_positive((k - 1) as nat);
        assert(n / 10 < t) by (nonlinear_arith)
            requires n < 10 * t, n >= 10, t >= 1;
        if k == 1 {
            assert(t == 1);
        } else {
            lemma_digits_len(n / 10, (k - 1) as nat);
        }
    }
}

proof fn lemma_digits_value_bound(s: Seq<char>)
    requires
        forall|k: int| 0 <= k < s.len() ==> is_digit(#[trigger] s[k]),
    ensures
        0 <= digits_value(s) < tens(s.len()),
    decreases s.len(),
{
    if s.len() > 0 {
        lemma_digits_value_bound(s.drop_last());
        assert(is_digit(s[s.len() - 1]));
    }
}

proof fn lemma_digit_run_at_least(t: Seq<char>, i: int)
    requires
        0 <= i <= t.len(),
    ensures
        i <= digit_run(t, i) <= t.len(),
        forall|k: int| i <= k < digit_run(t, i) ==> is_digit(#[trigger] t[k]),
    decreases t.len() - i,
{
    if i < t.len() && is_digit(t[i]) {
        lemma_digit_run_at_least(t, i + 1);
    }
}

/// The characters of a decimal integer.
pub open spec fn int_text(n: int) -> Seq<char> {
    if n < 0 {
        seq!['-'] + digits((-n) as nat)
    } else {
        digits(n as nat)
    }
}

/// Three decimals of a number below 1000, zero padded.
pub open spec fn three_digits(m: int) -> Seq<char> {
    seq![digit_char(m / 100), digit_char((m / 10) % 10), digit_char(m % 10)]
}

/// The characters of a number held in thousandths, with three decimals.
pub open spec fn milli_text(n: int) -> Seq<char> {
    let a = if n < 0 { -n } else { n };
    let body = digits((a / 1000) as nat) + seq!['.'] + three_digits(a % 1000);
    if n < 0 {
        seq!['-'] + body
    } else {
        body
    }
}

pub open spec fn fits_i64(v: int) -> bool {
    i64::MIN <= v <= i64::MAX
}

/// Where the digits of a number at `i` start, after an optional minus sign.
pub open spec fn after_sign(t: Seq<char>, i: int) -> int {
    if 0 <= i < t.len() && t[i] == '-' {
        i + 1
    } else {
        i
    }
}

/// An integer at `i`: its value and where it ends. At most 19 digits.
pub open spec fn read_int(t: Seq<char>, i: int) -> Option<(int, int)> {
    let s = after_sign(t, i);
    let e = digit_run(t, s);
    if e == s || e - s > 19 {
        None
    } else {
        let m = digits_value(t.subrange(s, e));
        let v = if s > i { -m } else { m };
        if fits_i64(v) {
            Some((v, e))
        } else {
            None
        }
    }
}

/// A number in thousandths at `i`, written with exactly three decimals: its
/// value and where it ends.
pub open spec fn read_milli(t: Seq<char>, i: int) -> Option<(int, int)> {
    let s = after_sign(t, i);
    let e = digit_run(t, s);
    if e == s || e - s > 19 || e + 4 > t.len() || t[e] != '.' || !is_digit(t[e + 1]) || !is_digit(t[e + 2])
        || !is_digit(t[e + 3]) {
        None
    } else {
        let m = digits_value(t.subrange(s, e)) * 1000 + digits_value(t.subrange(e + 1, e + 4));
        let v = if s > i { -m } else { m };
        if fits_i64(v) {
            Some((v, e + 4))
        } else {
            None
        }
    }
}

proof fn lemma_step(t: Seq<char>, i: int, piece: Seq<char>, rest: Seq<char>)
    requires
        0 <= i <= t.len(),
        t.subrange(i, t.len() as int) == piece + rest,
    ensures
        has_at(t, i, piece),
        i + piece.len() + rest.len() == t.len(),
        t.subrange(i + piece.len(), t.len() as int) == rest,
        forall|k: int| 0 <= k < piece.len() ==> t[i + k] == #[trigger] piece[k],
{
    let u = t.subrange(i, t.len() as int);
    assert(u.len() == t.len() - i);
    assert((piece + rest).len() == piece.len() + rest.len());
    assert forall|k: int| 0 <= k < piece.len() implies t[i + k] == #[trigger] piece[k] by {
        assert(u[k] == t[i + k]);
        assert((piece + rest)[k] == piece[k]);
    }
    assert(t.subrange(i, i + piece.len()) =~= piece);
    assert forall|k: int| 0 <= k < rest.len() implies #[trigger] t.subrange(i + piece.len(), t.len() as int)[k] == rest[k] by {
        assert(u[piece.len() + k] == t[i + piece.len() + k]);
        assert((piece + rest)[piece.len() + k] == rest[k]);
    }
    assert(t.subrange(i + piece.len(), t.len() as int) =~= rest);
}

proof fn lemma_read_int(t: Seq<char>, i: int, n: int, rest: Seq<char>)
    requires
        0 <= i <= t.len(),
        fits_i64(n),
        t.subrange(i, t.len() as int) == int_text(n) + rest,
        rest.len() == 0 || !is_digit(rest[0]),
    ensures
        read_int(t, i) == Some((n, i + int_text(n).len())),
{
    let a: nat = if n < 0 { (-n) as nat } else { n as nat };
    let d = digits(a);
    lemma_digits(a);
    reveal_with_fuel(tens, 20);
    lemma_digits_len(a, 19);
    let s = if n < 0 { i + 1 } else { i };
    if n < 0 {
        assert(int_text(n) + rest =~= seq!['-'] + (d + rest));
        lemma_step(t, i, seq!['-'], d + rest);
        assert(t[i + 0] == seq!['-'][0]);
    } else {
        lemma_step(t, i, d, rest);
        assert(t[i] == d[0]);
        assert(is_digit(d[0]));
    }
    assert(after_sign(t, i) == s);
    lemma_step(t, s, d, rest);
    lemma_digit_run(t, s, d);
}

proof fn lemma_three_digits(m: int)
    requires
        0 <= m < 1000,
    ensures
        digits_value(three_digits(m)) == m,
        forall|k: int| 0 <= k < 3 ==> is_digit(#[trigger] three_digits(m)[k]),
{
    let s = three_digits(m);
    lemma_digit_char(m / 100);
    lemma_digit_char((m / 10) % 10);
    lemma_digit_char(m % 10);
    let s1 = seq![digit_char(m / 100)];
    let s2 = seq![digit_char(m / 100), digit_char((m / 10) % 10)];
    assert(s1.drop_last() =~= Seq::<char>::empty());
    assert(digits_value(Seq::<char>::empty()) == 0);
    assert(digits_value(s1) == 10 * digits_value(s1.drop_last()) + digit_value(s1.last()));
    assert(digits_value(s1) == m / 100);
    assert(s2.drop_last() =~= s1);
    assert(digits_value(s2) == 10 * digits_value(s2.drop_last()) + digit_value(s2.last()));
    assert(digits_value(s2) == 10 * (m / 100) + (m / 10) % 10);
    assert(s.drop_last() =~= s2);
    assert(digits_value(s) == 10 * digits_value(s.drop_last()) + digit_value(s.last()));
    assert(100 * (m / 100) + 10 * ((m / 10) % 10) + m % 10 == m) by (nonlinear_arith)
        requires 0 <= m < 1000;
}

proof fn lemma_read_milli(t: Seq<char>, i: int, n: int, rest: Seq<char>)
    requires
        0 <= i <= t.len(),
        fits_i64(n),
        t.subrange(i, t.len() as int) == milli_text(n) + rest,
    ensures
        read_milli(t, i) == Some((n, i + milli_text(n).len())),
{
    let a: int = if n < 0 { -n } else { n };
    let ip: nat = (a / 1000) as nat;
    let d = digits(ip);
    let f = three_digits(a % 1000);
    lemma_digits(ip);
    lemma_three_digits(a % 1000);
    reveal_with_fuel(tens, 20);
    assert(ip < tens(19)) by (nonlinear_arith)
        requires ip == a / 1000, 0 <= a <= 9223372036854775808, tens(19) == 10000000000000000000int;
    lemma_digits_len(ip, 19);
    let s = if n < 0 { i + 1 } else { i };
    let tail = seq!['.'] + f + rest;
    if n < 0 {
        assert(milli_text(n) + rest =~= seq!['-'] + (d + tail));
        lemma_step(t, i, seq!['-'], d + tail);
        assert(t[i + 0] == seq!['-'][0]);
    } else {
        assert(milli_text(n) + rest =~= d + tail);
        lemma_step(t, i, d, tail);
        assert(t[i] == d[0]);
        assert(is_digit(d[0]));
    }
    assert(after_sign(t, i) == s);
    lemma_step(t, s, d, tail);
    let e = s + d.len();
    assert(tail =~= seq!['.'] + (f + rest));
    lemma_step(t, e, seq!['.'], f + rest);
    lemma_step(t, e + 1, f, rest);
    assert(t[e + 0] == seq!['.'][0]);
    lemma_digit_run(t, s, d);
    assert(t[e + 1] == f[0]);
    assert(t[e + 2] == f[1]);
    assert(t[e + 3] == f[2]);
    assert(ip * 1000 + a % 1000 == a) by (nonlinear_arith)
        requires ip == a / 1000, a >= 0;
}

proof fn lemma_char_cast(c: char)
    requires
        (c as u32) < 32,
    ensures
        (((c as u32) as u8) as char) == c,
{
}

/// A lower-case hexadecimal digit.
pub open spec fn hex_char(d: int) -> char {
    if d < 10 {
        digit_char(d)
    } else {
        ((d + 87) as u8) as char
    }
}

/// The value of a hexadecimal digit of either case.
pub open spec fn hex_value(c: char) -> Option<int> {
    if '0' <= c && c <= '9' {
        Some(c as int - 48)
    } else if 'a' <= c && c <= 'f' {
        Some(c as int - 87)
    } else if 'A' <= c && c <= 'F' {
        Some(c as int - 55)
    } else {
        None
    }
}

/// A character as it stands in a JSON string literal: `"` and `\` after a
/// backslash, control characters as `\u00XX`, anything else as itself.
pub open spec fn esc_char(c: char) -> Seq<char> {
    if c == '"' || c == '\\' {
        seq!['\\', c]
    } else if (c as u32) < 32 {
        seq!['\\', 'u', '0', '0', hex_char(((c as u32) / 16) as int), hex_char(((c as u32) % 16) as int)]
    } else {
        seq![c]
    }
}

/// The body of the JSON string literal of a text.
pub open spec fn escape(s: Seq<char>) -> Seq<char>
    decreases s.len(),
{
    if s.len() == 0 {
        seq![]
    } else {
        escape(s.drop_last()) + esc_char(s.last())
    }
}

/// The character a `\u00XX` escape at `i` stands for, where there is one
/// below U+0020.
pub open spec fn unicode_escape(t: Seq<char>, i: int) -> Option<char> {
    if 0 <= i && i + 6 <= t.len() && t[i] == '\\' && t[i + 1] == 'u' && t[i + 2] == '0' && t[i + 3] == '0'
        && (t[i + 4] == '0' || t[i + 4] == '1') && hex_value(t[i + 5]) is Some {
        Some((((16 * hex_value(t[i + 4])->0 + hex_value(t[i + 5])->0) as u32) as u8) as char)
    } else {
        None
    }
}

/// The text of a string literal body that starts at `i`, and where its closing
/// quote stands. The escapes read are `\"`, `\\` and `\u00XX` below U+0020.
pub open spec fn unescape_from(t: Seq<char>, i: int) -> Option<(Seq<char>, int)>
    decreases t.len() - i,
{
    if i < 0 || i >= t.len() {
        None
    } else if t[i] == '"' {
        Some((seq![], i))
    } else if t[i] == '\\' {
        if i + 1 < t.len() && (t[i + 1] == '"' || t[i + 1] == '\\') {
            match unescape_from(t, i + 2) {
                Some((s, e)) => Some((seq![t[i + 1]] + s, e)),
                None => None,
            }
        } else {
            match unicode_escape(t, i) {
                Some(c) => match unescape_from(t, i + 6) {
                    Some((s, e)) => Some((seq![c] + s, e)),
                    None => None,
                },
                None => None,
            }
        }
    } else {
        match unescape_from(t, i + 1) {
            Some((s, e)) => Some((seq![t[i]] + s, e)),
            None => None,
        }
    }
}

proof fn lemma_hex(d: int)
    requires
        0 <= d < 16,
    ensures
        hex_value(hex_char(d)) == Some(d),
{
    if d < 10 {
        lemma_digit_char(d);
    }
}

proof fn lemma_escape_first(s: Seq<char>)
    requires
        s.len() > 0,
    ensures
        escape(s) == esc_char(s[0]) + escape(s.drop_first()),
    decreases s.len(),
{
    if s.len() == 1 {
        assert(s.drop_last() =~= Seq::<char>::empty());
        assert(s.drop_first() =~= Seq::<char>::empty());
        assert(escape(s) =~= esc_char(s[0]) + escape(s.drop_first()));
    } else {
        lemma_escape_first(s.drop_last());
        assert(s.drop_last().drop_first() =~= s.drop_first().drop_last());
        assert(s.drop_first().last() == s.last());
        assert(escape(s) =~= esc_char(s[0]) + escape(s.drop_first()));
    }
}

proof fn lemma_unescape(t: Seq<char>, i: int, s: Seq<char>, rest: Seq<char>)
    requires
        0 <= i <= t.len(),
        t.subrange(i, t.len() as int) == escape(s) + rest,
        rest.len() > 0,
        rest[0] == '"',
    ensures
        unescape_from(t, i) == Some((s, i + escape(s).len())),
    decreases s.len(),
{
    if s.len() == 0 {
        assert(escape(s) + rest =~= rest);
        lemma_step(t, i, rest, Seq::<char>::empty());
        assert(t[i] == rest[0]);
    } else {
        lemma_escape_first(s);
        let c = s[0];
        let r = s.drop_first();
        let k = esc_char(c).len() as int;
        assert(escape(s) + rest =~= esc_char(c) + (escape(r) + rest));
        lemma_step(t, i, esc_char(c), escape(r) + rest);
        lemma_unescape(t, i + k, r, rest);
        assert(t[i] == esc_char(c)[0]);
        if c == '"' || c == '\\' {
            assert(t[i + 1] == esc_char(c)[1]);
        } else if (c as u32) < 32 {
            let v = c as u32;
            lemma_hex((v / 16) as int);
            lemma_hex((v % 16) as int);
            lemma_char_cast(c);
            assert(t[i + 1] == esc_char(c)[1]);
            assert(t[i + 2] == esc_char(c)[2]);
            assert(t[i + 3] == esc_char(c)[3]);
            assert(t[i + 4] == esc_char(c)[4]);
            assert(t[i + 5] == esc_char(c)[5]);
            assert(v / 16 == 0 || v / 16 == 1);
            assert(hex_char((v / 16) as int) == '0' || hex_char((v / 16) as int) == '1') by {
                lemma_digit_char((v / 16) as int);
            }
            assert(16 * (v / 16) + v % 16 == v);
            assert(unicode_escape(t, i) == Some(c));
        }
        assert(seq![c] + r =~= s);
    }
}

/// The JSON text of a signal message.
pub open spec fn signal_text(id: Seq<char>, timestamp: int, signal: int) -> Seq<char> {
    "{\"id\":\""@ + (escape(id) + ("\",\"timestamp\":"@ + (int_text(timestamp) + (",\"signal\":"@ + (
    milli_text(signal) + "}"@)))))
}

/// Whether `lit` stands in `t` at `i`.
pub open spec fn has_at(t: Seq<char>, i: int, lit: Seq<char>) -> bool {
    0 <= i && i + lit.len() <= t.len() && t.subrange(i, i + lit.len()) == lit
}

/// The id, timestamp and signal of a signal message text, if it is one.
pub open spec fn read_signal(t: Seq<char>) -> Option<(Seq<char>, int, int)> {
    let l1 = "{\"id\":\""@;
    let l2 = "\",\"timestamp\":"@;
    let l3 = ",\"signal\":"@;
    if !has_at(t, 0, l1) {
        None
    } else {
        match unescape_from(t, l1.len() as int) {
            None => None,
            Some((id, j)) => if !has_at(t, j, l2) {
                None
            } else {
                match read_int(t, j + l2.len()) {
                    None => None,
                    Some((ts, k)) => if !has_at(t, k, l3) {
                        None
                    } else {
                        match read_milli(t, k + l3.len()) {
                            None => None,
                            Some((sig, e)) => if e + 1 == t.len() && t[e] == '}' {
                                Some((id, ts, sig))
                            } else {
                                None
                            },
                        }
                    },
                }
            },
        }
    }
}

/// Reading the text of a signal message gives back its id, timestamp and
/// signal exactly.
pub proof fn lemma_signal_round_trip(id: Seq<char>, timestamp: i64, signal: i64)
    ensures
        read_signal(signal_text(id, timestamp as int, signal as int)) == Some((id, timestamp as int, signal as int)),
{
    let l1 = "{\"id\":\""@;
    let l2 = "\",\"timestamp\":"@;
    let l3 = ",\"signal\":"@;
    let l4 = "}"@;
    reveal_strlit("{\"id\":\"");
    reveal_strlit("\",\"timestamp\":");
    reveal_strlit(",\"signal\":");
    reveal_strlit("}");
    let ts = timestamp as int;
    let sg = signal as int;
    let e = escape(id);
    let it = int_text(ts);
    let mt = milli_text(sg);
    let t = signal_text(id, ts, sg);
    let r4 = mt + l4;
    let r3 = l3 + r4;
    let r2 = it + r3;
    let r1 = l2 + r2;
    let r0 = e + r1;
    assert(t == l1 + r0);
    assert(t.subrange(0, t.len() as int) =~= t);
    lemma_step(t, 0, l1, r0);
    let i1 = l1.len() as int;
    lemma_unescape(t, i1, id, r1);
    lemma_step(t, i1, e, r1);
    let j = i1 + e.len();
    lemma_step(t, j, l2, r2);
    let k0 = j + l2.len();
    assert(r3[0] == ',');
    lemma_read_int(t, k0, ts, r3);
    lemma_step(t, k0, it, r3);
    let k = k0 + it.len();
    lemma_step(t, k, l3, r4);
    let m0 = k + l3.len();
    lemma_read_milli(t, m0, sg, l4);
    lemma_step(t, m0, mt, l4);
    let e4 = m0 + mt.len();
    lemma_step(t, e4, l4, Seq::<char>::empty());
    assert(t[e4] == l4[0]);
}


/// Relies on String::push: appends one character.
#[verifier::external_body]
fn push_char(s: &mut String, c: char)
    ensures
        final(s)@ == old(s)@.push(c),
{
    s.push(c);
}

/// The characters of a string.
pub fn chars_of(s: &str) -> (r: Vec<char>)
    ensures
        r@ == s@,
{
    let n = s.unicode_len();
    let mut v: Vec<char> = Vec::new();
    let mut i: usize = 0;
    while i < n
        invariant
            n == s@.len(),
            i <= n,
            v@ == s@.subrange(0, i as int),
        decreases n - i,
    {
        v.push(s.get_char(i));
        i += 1;
        assert(v@ =~= s@.subrange(0, i as int));
    }
    assert(v@ =~= s@);
    v
}

/// The string of a sequence of characters.
pub fn string_of(v: &Vec<char>) -> (r: String)
    ensures
        r@ == v@,
{
    let mut s = String::new();
    let mut i: usize = 0;
    while i < v.len()
        invariant
            i <= v@.len(),
            s@ == v@.subrange(0, i as int),
        decreases v@.len() - i,
    {
        push_char(&mut s, v[i]);
        i += 1;
        assert(s@ =~= v@.subrange(0, i as int));
    }
    assert(s@ =~= v@);
    s
}

/// The decimal digits of a number.
pub fn decimal(n: u64) -> (r: String)
    ensures
        r@ == digits(n as nat),
{
    let mut out: Vec<char> = Vec::new();
    push_digits(n, &mut out);
    assert(out@ =~= digits(n as nat));
    string_of(&out)
}

fn push_str(out: &mut Vec<char>, s: &str)
    ensures
        final(out)@ == old(out)@ + s@,
{
    let n = s.unicode_len();
    let mut i: usize = 0;
    while i < n
        invariant
            n == s@.len(),
            i <= n,
            out@ == old(out)@ + s@.subrange(0, i as int),
        decreases n - i,
    {
        out.push(s.get_char(i));
        i += 1;
        assert(out@ =~= old(out)@ + s@.subrange(0, i as int));
    }
    assert(s@.subrange(0, n as int) =~= s@);
}

fn hex_digit(d: u32) -> (r: char)
    requires
        d < 16,
    ensures
        r == hex_char(d as int),
{
    if d < 10 {
        ((d as u8) + 48) as char
    } else {
        ((d as u8) + 87) as char
    }
}

fn hex_value_of(c: char) -> (r: Option<u32>)
    ensures
        match hex_value(c) {
            Some(v) => r == Some(v as u32),
            None => r is None,
        },
{
    if '0' <= c && c <= '9' {
        Some(c as u32 - 48)
    } else if 'a' <= c && c <= 'f' {
        Some(c as u32 - 87)
    } else if 'A' <= c && c <= 'F' {
        Some(c as u32 - 55)
    } else {
        None
    }
}

fn push_escaped(out: &mut Vec<char>, s: &str)
    ensures
        final(out)@ == old(out)@ + escape(s@),
{
    let n = s.unicode_len();
    let mut i: usize = 0;
    while i < n
        invariant
            n == s@.len(),
            i <= n,
            out@ == old(out)@ + escape(s@.subrange(0, i as int)),
        decreases n - i,
    {
        let c = s.get_char(i);
        if c == '"' || c == '\\' {
            out.push('\\');
            out.push(c);
        } else if (c as u32) < 32 {
            let v = c as u32;
            out.push('\\');
            out.push('u');
            out.push('0');
            out.push('0');
            out.push(hex_digit(v / 16));
            out.push(hex_digit(v % 16));
        } else {
            out.push(c);
        }
        proof {
            let p = s@.subrange(0, i + 1);
            assert(p.drop_last() =~= s@.subrange(0, i as int));
            assert(p.last() == c);
            assert(escape(p) == escape(p.drop_last()) + esc_char(c));
        }
        i += 1;
        assert(out@ =~= old(out)@ + escape(s@.subrange(0, i as int)));
    }
    assert(s@.subrange(0, n as int) =~= s@);
}

fn push_int(out: &mut Vec<char>, n: i64)
    ensures
        final(out)@ == old(out)@ + int_text(n as int),
{
    if n < 0 {
        out.push('-');
        let a = (0 - (n as i128)) as u64;
        push_digits(a, out);
        assert(out@ =~= old(out)@ + int_text(n as int));
    } else {
        push_digits(n as u64, out);
    }
}

fn push_milli(out: &mut Vec<char>, n: i64)
    ensures
        final(out)@ == old(out)@ + milli_text(n as int),
{
    if n < 0 {
        out.push('-');
    }
    let a: u64 = if n < 0 { (0 - (n as i128)) as u64 } else { n as u64 };
    push_digits(a / 1000, out);
    out.push('.');
    let m = a % 1000;
    out.push(((m / 100) as u8 + 48) as char);
    out.push((((m / 10) % 10) as u8 + 48) as char);
    out.push(((m % 10) as u8 + 48) as char);
    assert(out@ =~= old(out)@ + milli_text(n as int));
}

/// The JSON text of a signal message.
pub fn encode_signal(msg: &SignalMsg) -> (r: String)
    ensures
        r@ == signal_text(msg.id.0@, msg.timestamp as int, msg.signal as int),
{
    let mut out: Vec<char> = Vec::new();
    push_str(&mut out, "{\"id\":\"");
    push_escaped(&mut out, msg.id.0.as_str());
    push_str(&mut out, "\",\"timestamp\":");
    push_int(&mut out, msg.timestamp);
    push_str(&mut out, ",\"signal\":");
    push_milli(&mut out, msg.signal);
    push_str(&mut out, "}");
    assert(out@ =~= signal_text(msg.id.0@, msg.timestamp as int, msg.signal as int));
    string_of(&out)
}


pub open spec fn prepend(p: Seq<char>, o: Option<(Seq<char>, int)>) -> Option<(Seq<char>, int)> {
    match o {
        Some((s, e)) => Some((p + s, e)),
        None => None,
    }
}

proof fn lemma_prepend(p: Seq<char>, c: char, o: Option<(Seq<char>, int)>)
    ensures
        prepend(p, prepend(seq![c], o)) == prepend(p.push(c), o),
{
    match o {
        Some((s, e)) => {
            assert(p + (seq![c] + s) =~= p.push(c) + s);
        },
        None => {},
    }
}

fn lit_at(t: &Vec<char>, i: usize, lit: &str) -> (r: bool)
    ensures
        r == has_at(t@, i as int, lit@),
{
    let n = lit.unicode_len();
    let tl = t.len();
    if i > tl || n > tl - i {
        return false;
    }
    let mut k: usize = 0;
    while k < n
        invariant
            n == lit@.len(),
            tl == t@.len(),
            i <= t@.len(),
            i + n <= t@.len(),
            k <= n,
            forall|j: int| 0 <= j < k ==> t@[i + j] == lit@[j],
        decreases n - k,
    {
        let idx: usize = i + k;
        if t[idx] != lit.get_char(k) {
            assert(t@.subrange(i as int, i + n)[k as int] != lit@[k as int]);
            return false;
        }
        k += 1;
    }
    assert(t@.subrange(i as int, i + n) =~= lit@);
    true
}

fn read_escaped(t: &Vec<char>, i: usize) -> (r: Option<(Vec<char>, usize)>)
    requires
        i <= t@.len(),
    ensures
        match r {
            Some((v, e)) => unescape_from(t@, i as int) == Some((v@, e as int)),
            None => unescape_from(t@, i as int) is None,
        },
{
    let mut out: Vec<char> = Vec::new();
    let mut j: usize = i;
    while j < t.len()
        invariant
            j <= t@.len() + 1,
            unescape_from(t@, i as int) == prepend(out@, unescape_from(t@, j as int)),
        decreases t@.len() - j,
    {
        let c = t[j];
        if c == '"' {
            assert(out@ + Seq::<char>::empty() =~= out@);
            return Some((out, j));
        } else if c == '\\' {
            if j + 1 < t.len() && (t[j + 1] == '"' || t[j + 1] == '\\') {
                let d = t[j + 1];
                proof {
                    lemma_prepend(out@, d, unescape_from(t@, j + 2));
                }
                out.push(d);
                j += 2;
            } else if t.len() >= 6 && j <= t.len() - 6 && t[j + 1] == 'u' && t[j + 2] == '0' && t[j + 3] == '0'
                && (t[j + 4] == '0' || t[j + 4] == '1') {
                match hex_value_of(t[j + 5]) {
                    Some(lo) => {
                        let hi: u32 = if t[j + 4] == '1' { 1 } else { 0 };
                        let d = ((16 * hi + lo) as u8) as char;
                        proof {
                            assert(unicode_escape(t@, j as int) == Some(d));
                            lemma_prepend(out@, d, unescape_from(t@, j + 6));
                        }
                        out.push(d);
                        j += 6;
                    },
                    None => return None,
                }
            } else {
                return None;
            }
        } else {
            proof {
                lemma_prepend(out@, c, unescape_from(t@, j + 1));
            }
            out.push(c);
            j += 1;
        }
    }
    None
}

/// The run of digits at `s`: its end and its value; nothing where it is
/// empty or longer than 19 digits.
fn read_digits(t: &Vec<char>, s: usize) -> (r: Option<(u64, usize)>)
    requires
        s <= t@.len(),
    ensures
        ({
            let e = digit_run(t@, s as int);
            match r {
                Some((v, end)) => end == e && e > s && e - s <= 19 && v == digits_value(t@.subrange(s as int, e)),
                None => e == s || e - s > 19,
            }
        }),
{
    let mut v: u64 = 0;
    let mut j: usize = s;
    proof {
        reveal_with_fuel(tens, 20);
        assert(t@.subrange(s as int, s as int) =~= Seq::<char>::empty());
    }
    while j < t.len() && '0' <= t[j] && t[j] <= '9'
        invariant
            s <= j <= t@.len(),
            j - s <= 19,
            digit_run(t@, s as int) == digit_run(t@, j as int),
            forall|k: int| s <= k < j ==> is_digit(#[trigger] t@[k]),
            v == digits_value(t@.subrange(s as int, j as int)),
            v < tens((j - s) as nat),
            tens(19) == 10000000000000000000int,
        decreases t@.len() - j,
    {
        if j - s == 19 {
            proof {
                lemma_digit_run_at_least(t@, j + 1);
            }
            return None;
        }
        let d = (t[j] as u32 - 48) as u64;
        proof {
            let p = t@.subrange(s as int, j + 1);
            assert(p.drop_last() =~= t@.subrange(s as int, j as int));
            assert(p.last() == t@[j as int]);
            assert(tens((j + 1 - s) as nat) == 10 * tens((j - s) as nat));
            assert(tens((j - s) as nat) <= 1000000000000000000) by {
                lemma_tens_mono((j - s) as nat, 18);
                reveal_with_fuel(tens, 20);
            }
            assert(10 * v + d < 10 * tens((j - s) as nat)) by (nonlinear_arith)
                requires v < tens((j - s) as nat), d < 10;
        }
        v = 10 * v + d;
        j += 1;
    }
    proof {
        lemma_digit_run_at_least(t@, j as int);
    }
    if j == s {
        None
    } else {
        Some((v, j))
    }
}

proof fn lemma_tens_mono(a: nat, b: nat)
    requires
        a <= b,
    ensures
        tens(a) <= tens(b),
    decreases b,
{
    if a < b {
        lemma_tens_mono(a, (b - 1) as nat);
        lemma_tens_positive((b - 1) as nat);
    }
}

fn read_int_at(t: &Vec<char>, i: usize) -> (r: Option<(i64, usize)>)
    requires
        i <= t@.len(),
    ensures
        match r {
            Some((v, e)) => read_int(t@, i as int) == Some((v as int, e as int)),
            None => read_int(t@, i as int) is None,
        },
{
    let neg = i < t.len() && t[i] == '-';
    let s = if neg { i + 1 } else { i };
    match read_digits(t, s) {
        None => None,
        Some((m, e)) => {
            let v: i128 = if neg { 0 - (m as i128) } else { m as i128 };
            if v < i64::MIN as i128 || v > i64::MAX as i128 {
                None
            } else {
                Some((v as i64, e))
            }
        },
    }
}

fn read_milli_at(t: &Vec<char>, i: usize) -> (r: Option<(i64, usize)>)
    requires
        i <= t@.len(),
    ensures
        match r {
            Some((v, e)) => read_milli(t@, i as int) == Some((v as int, e as int)),
            None => read_milli(t@, i as int) is None,
        },
{
    let neg = i < t.len() && t[i] == '-';
    let s = if neg { i + 1 } else { i };
    match read_digits(t, s) {
        None => None,
        Some((ip, e)) => {
            if t.len() < 4 || e > t.len() - 4 || t[e] != '.' {
                return None;
            }
            let (a, b, c) = (t[e + 1], t[e + 2], t[e + 3]);
            if !('0' <= a && a <= '9') || !('0' <= b && b <= '9') || !('0' <= c && c <= '9') {
                return None;
            }
            let f = (a as u32 - 48) * 100 + (b as u32 - 48) * 10 + (c as u32 - 48);
            proof {
                let q = t@.subrange(e + 1, e + 4);
                let q2 = q.drop_last();
                let q1 = q2.drop_last();
                assert(q1.drop_last() =~= Seq::<char>::empty());
                assert(q1 =~= seq![a]);
                assert(q2 =~= seq![a, b]);
                assert(digits_value(Seq::<char>::empty()) == 0);
                assert(digits_value(q1) == 10 * digits_value(q1.drop_last()) + digit_value(q1.last()));
                assert(digits_value(q2) == 10 * digits_value(q2.drop_last()) + digit_value(q2.last()));
                assert(digits_value(q) == 10 * digits_value(q.drop_last()) + digit_value(q.last()));
            }
            let m: i128 = (ip as i128) * 1000 + f as i128;
            let v: i128 = if neg { 0 - m } else { m };
            if v < i64::MIN as i128 || v > i64::MAX as i128 {
                None
            } else {
                Some((v as i64, e + 4))
            }
        },
    }
}

/// The signal message a JSON text holds, if it is one in the form that
/// `encode_signal` writes.
pub fn decode_signal(text: &str) -> (r: Option<SignalMsg>)
    ensures
        match read_signal(text@) {
            Some((id, ts, sig)) => r matches Some(m) && m.id.0@ == id && m.timestamp == ts && m.signal == sig,
            None => r is None,
        },
{
    let t = chars_of(text);
    decode_signal_chars(&t)
}

fn decode_signal_chars(t: &Vec<char>) -> (r: Option<SignalMsg>)
    ensures
        match read_signal(t@) {
            Some((id, ts, sig)) => r matches Some(m) && m.id.0@ == id && m.timestamp == ts && m.signal == sig,
            None => r is None,
        },
{
    let l1 = "{\"id\":\"";
    let l2 = "\",\"timestamp\":";
    let l3 = ",\"signal\":";
    let tl = t.len();
    if !lit_at(t, 0, l1) {
        return None;
    }
    let (id, j) = match read_escaped(t, l1.unicode_len()) {
        Some(p) => p,
        None => return None,
    };
    if !lit_at(t, j, l2) {
        return None;
    }
    let (ts, k) = match read_int_at(t, j + l2.unicode_len()) {
        Some(p) => p,
        None => return None,
    };
    if !lit_at(t, k, l3) {
        return None;
    }
    let (sig, e) = match read_milli_at(t, k + l3.unicode_len()) {
        Some(p) => p,
        None => return None,
    };
    if e < t.len() && e + 1 == t.len() && t[e] == '}' {
        Some(SignalMsg { id: ClientId(string_of(&id)), timestamp: ts, signal: sig })
    } else {
        None
    }
}


/// The JSON text of an actor command: `"stop"`, or the signal message under
/// `set_signal`.
pub open spec fn command_text(m: ActorSubMsg) -> Seq<char> {
    match m {
        ActorSubMsg::Stop => "\"stop\""@,
        ActorSubMsg::SetSignal(s) => "{\"set_signal\":"@ + (signal_text(s.id.0@, s.timestamp as int, s.signal as int)
            + "}"@),
    }
}

/// The actor command a text holds: `Some(None)` for `stop`, `Some(Some(..))`
/// for a signal message with its id, timestamp and signal.
pub open spec fn read_command(t: Seq<char>) -> Option<Option<(Seq<char>, int, int)>> {
    let l = "{\"set_signal\":"@;
    if t == "\"stop\""@ {
        Some(None)
    } else if has_at(t, 0, l) && t.len() >= l.len() + 1 && t[t.len() - 1] == '}' {
        match read_signal(t.subrange(l.len() as int, t.len() - 1)) {
            Some(x) => Some(Some(x)),
            None => None,
        }
    } else {
        None
    }
}

/// Reading the text of an actor command gives back the command exactly.
pub proof fn lemma_command_round_trip(m: ActorSubMsg)
    ensures
        read_command(command_text(m)) == match m {
            ActorSubMsg::Stop => Some(None),
            ActorSubMsg::SetSignal(s) => Some(Some((s.id.0@, s.timestamp as int, s.signal as int))),
        },
{
    let l = "{\"set_signal\":"@;
    reveal_strlit("{\"set_signal\":");
    reveal_strlit("\"stop\"");
    reveal_strlit("}");
    match m {
        ActorSubMsg::Stop => {},
        ActorSubMsg::SetSignal(s) => {
            let st = signal_text(s.id.0@, s.timestamp as int, s.signal as int);
            let t = command_text(m);
            assert(t.subrange(0, t.len() as int) =~= t);
            lemma_step(t, 0, l, st + "}"@);
            assert(t[0] == l[0]);
            assert(t != "\"stop\""@);
            assert(t[t.len() - 1] == '}');
            assert(t.subrange(l.len() as int, t.len() - 1) =~= st);
            lemma_signal_round_trip(s.id.0@, s.timestamp, s.signal);
        },
    }
}

/// The JSON text of an actor command.
pub fn encode_command(m: &ActorSubMsg) -> (r: String)
    ensures
        r@ == command_text(*m),
{
    match m {
        ActorSubMsg::Stop => String::from_str("\"stop\""),
        ActorSubMsg::SetSignal(s) => {
            let inner = encode_signal(s);
            String::from_str("{\"set_signal\":").concat(inner.as_str()).concat("}")
        },
    }
}

fn sub_chars(t: &Vec<char>, a: usize, b: usize) -> (r: Vec<char>)
    requires
        a <= b <= t@.len(),
    ensures
        r@ == t@.subrange(a as int, b as int),
{
    let mut v: Vec<char> = Vec::new();
    let mut i: usize = a;
    while i < b
        invariant
            a <= i <= b,
            b <= t@.len(),
            v@ == t@.subrange(a as int, i as int),
        decreases b - i,
    {
        v.push(t[i]);
        i += 1;
        assert(v@ =~= t@.subrange(a as int, i as int));
    }
    v
}

/// The actor command a JSON text holds, if it is one in the form that
/// `encode_command` writes.
pub fn decode_command(text: &str) -> (r: Option<ActorSubMsg>)
    ensures
        match read_command(text@) {
            Some(None) => r matches Some(ActorSubMsg::Stop),
            Some(Some((id, ts, sig))) => r matches Some(ActorSubMsg::SetSignal(m)) && m.id.0@ == id
                && m.timestamp == ts && m.signal == sig,
            None => r is None,
        },
{
    let t = chars_of(text);
    let stop = "\"stop\"";
    let l = "{\"set_signal\":";
    if lit_at(&t, 0, stop) && t.len() == stop.unicode_len() {
        proof {
            assert(t@ =~= t@.subrange(0, t@.len() as int));
        }
        return Some(ActorSubMsg::Stop);
    }
    proof {
        if t@ == stop@ {
            assert(t@.subrange(0, stop@.len() as int) =~= t@);
        }
    }
    let n = l.unicode_len();
    if lit_at(&t, 0, l) && t.len() > n && t[t.len() - 1] == '}' {
        let inner = sub_chars(&t, n, t.len() - 1);
        match decode_signal_chars(&inner) {
            Some(m) => Some(ActorSubMsg::SetSignal(m)),
            None => None,
        }
    } else {
        None
    }
}


/// The JSON text of an actor publication: the signal message under `signal`.
pub open spec fn publication_text(m: ActorPubMsg) -> Seq<char> {
    match m {
        ActorPubMsg::CurrentSignal(s) => "{\"signal\":"@ + (signal_text(s.id.0@, s.timestamp as int, s.signal as int)
            + "}"@),
    }
}

/// The id, timestamp and signal of an actor publication text, if it is one.
pub open spec fn read_publication(t: Seq<char>) -> Option<(Seq<char>, int, int)> {
    let l = "{\"signal\":"@;
    if has_at(t, 0, l) && t.len() >= l.len() + 1 && t[t.len() - 1] == '}' {
        read_signal(t.subrange(l.len() as int, t.len() - 1))
    } else {
        None
    }
}

/// Reading the text of an actor publication gives back its signal message
/// exactly.
#[verifier::rlimit(40)]
pub proof fn lemma_publication_round_trip(m: ActorPubMsg)
    ensures
        read_publication(publication_text(m)) == match m {
            ActorPubMsg::CurrentSignal(s) => Some((s.id.0@, s.timestamp as int, s.signal as int)),
        },
{
    let l = "{\"signal\":"@;
    reveal_strlit("{\"signal\":");
    reveal_strlit("}");
    match m {
        ActorPubMsg::CurrentSignal(s) => {
            let st = signal_text(s.id.0@, s.timestamp as int, s.signal as int);
            let t = publication_text(m);
            assert(t.subrange(0, t.len() as int) =~= t);
            lemma_step(t, 0, l, st + "}"@);
            assert(t[t.len() - 1] == '}');
            assert(t.subrange(l.len() as int, t.len() - 1) =~= st);
            lemma_signal_round_trip(s.id.0@, s.timestamp, s.signal);
        },
    }
}

/// The JSON text of an actor publication.
pub fn encode_publication(m: &ActorPubMsg) -> (r: String)
    ensures
        r@ == publication_text(*m),
{
    match m {
        ActorPubMsg::CurrentSignal(s) => {
            let inner = encode_signal(s);
            String::from_str("{\"signal\":").concat(inner.as_str()).concat("}")
        },
    }
}

/// The actor publication a JSON text holds, if it is one in the form that
/// `encode_publication` writes.
pub fn decode_publication(text: &str) -> (r: Option<ActorPubMsg>)
    ensures
        match read_publication(text@) {
            Some((id, ts, sig)) => r matches Some(ActorPubMsg::CurrentSignal(m)) && m.id.0@ == id
                && m.timestamp == ts && m.signal == sig,
            None => r is None,
        },
{
    let t = chars_of(text);
    let l = "{\"signal\":";
    let n = l.unicode_len();
    if lit_at(&t, 0, l) && t.len() > n && t[t.len() - 1] == '}' {
        let inner = sub_chars(&t, n, t.len() - 1);
        match decode_signal_chars(&inner) {
            Some(m) => Some(ActorPubMsg::CurrentSignal(m)),
            None => None,
        }
    } else {
        None
    }
}

} // verus!
