//! Decimal integer text: the digits that `to_string` writes for integers,
//! and reading integers back the way `str::parse` does.
use vstd::prelude::*;
use crate::text::chars_of;

verus! {

/// The ASCII digit for `d` in `0..10`.
pub open spec fn digit_char(d: int) -> char {
    (d + 48) as char
}

/// The decimal digits of `n`, most significant first, without leading zeros.
pub open spec fn decimal_digits(n: nat) -> Seq<char>
    decreases n,
{
    if n < 10 {
        seq![digit_char(n as int)]
    } else {
        decimal_digits(n / 10).push(digit_char((n % 10) as int))
    }
}

/// `v` in decimal, with a leading `-` when it is negative.
pub open spec fn signed_decimal(v: int) -> Seq<char> {
    if v < 0 {
        seq!['-'] + decimal_digits((-v) as nat)
    } else {
        decimal_digits(v as nat)
    }
}

/// The digits of `n` padded on the left with zeros to at least `width` characters.
pub open spec fn zero_padded(n: nat, width: nat) -> Seq<char> {
    let d = decimal_digits(n);
    if d.len() >= width {
        d
    } else {
        Seq::new((width - d.len()) as nat, |i: int| '0') + d
    }
}

/// Whether `c` is one of `'0'..='9'`.
pub open spec fn is_ascii_digit(c: char) -> bool {
    '0' <= c && c <= '9'
}

pub open spec fn all_digits(s: Seq<char>) -> bool {
    forall|i: int| 0 <= i < s.len() ==> is_ascii_digit(#[trigger] s[i])
}

/// The number that a string of decimal digits denotes (leading zeros allowed).
pub open spec fn digits_value(s: Seq<char>) -> nat
    decreases s.len(),
{
    if s.len() == 0 {
        0
    } else {
        digits_value(s.drop_last()) * 10 + ((s.last() as int) - 48) as nat
    }
}

/// The digits after an optional leading `+`.
pub open spec fn unsigned_body(s: Seq<char>) -> Seq<char> {
    if s.len() > 0 && s[0] == '+' {
        s.drop_first()
    } else {
        s
    }
}

/// What `s.parse::<u32>()` gives: an optional `+`, then one or more ASCII
/// digits whose value fits in a `u32`; anything else is an error.
pub open spec fn parsed_u32(s: Seq<char>) -> Option<u32> {
    let b = unsigned_body(s);
    if b.len() > 0 && all_digits(b) && digits_value(b) <= u32::MAX {
        Some(digits_value(b) as u32)
    } else {
        None
    }
}

/// What `s.parse::<i32>()` gives: an optional sign, then one or more ASCII
/// digits whose signed value fits in an `i32`; anything else is an error.
pub open spec fn parsed_i32(s: Seq<char>) -> Option<i32> {
    if s.len() > 0 && s[0] == '-' {
        let b = s.drop_first();
        if b.len() > 0 && all_digits(b) && digits_value(b) <= 0x8000_0000 {
            Some((0 - digits_value(b)) as i32)
        } else {
            None
        }
    } else {
        let b = unsigned_body(s);
        if b.len() > 0 && all_digits(b) && digits_value(b) <= i32::MAX {
            Some(digits_value(b) as i32)
        } else {
            None
        }
    }
}

fn digit(d: u64) -> (c: char)
    requires
        d < 10,
    ensures
        c == digit_char(d as int),
{
    if d == 0 {
        '0'
    } else if d == 1 {
        '1'
    } else if d == 2 {
        '2'
    } else if d == 3 {
        '3'
    } else if d == 4 {
        '4'
    } else if d == 5 {
        '5'
    } else if d == 6 {
        '6'
    } else if d == 7 {
        '7'
    } else if d == 8 {
        '8'
    } else {
        '9'
    }
}

/// Appends the decimal digits of `n` to `out`.
pub fn push_decimal(out: &mut String, n: u64)
    ensures
        final(out)@ == old(out)@ + decimal_digits(n as nat),
    decreases n,
{
    if n >= 10 {
        push_decimal(out, n / 10);
    }
    out.push(digit(n % 10));
    proof {
        assert(old(out)@ + decimal_digits(n as nat) =~= (if n >= 10 {
            old(out)@ + decimal_digits((n / 10) as nat)
        } else {
            old(out)@
        }).push(digit_char((n % 10) as int)));
    }
}

/// `n.to_string()` for an unsigned 64-bit integer.
pub fn u64_text(n: u64) -> (r: String)
    ensures
        r@ == decimal_digits(n as nat),
{
    let mut out = String::new();
    push_decimal(&mut out, n);
    assert(out@ =~= decimal_digits(n as nat));
    out
}

/// `v.to_string()` for a signed 64-bit integer.
pub fn i64_text(v: i64) -> (r: String)
    ensures
        r@ == signed_decimal(v as int),
{
    let mut out = String::new();
    if v < 0 {
        out.push('-');
        let m: u64 = (0i128 - (v as i128)) as u64;
        push_decimal(&mut out, m);
    } else {
        push_decimal(&mut out, v as u64);
    }
    assert(out@ =~= signed_decimal(v as int));
    out
}

proof fn lemma_digits_value_prefix(s: Seq<char>, j: int)
    requires
        all_digits(s),
        0 <= j <= s.len(),
    ensures
        digits_value(s.take(j)) <= digits_value(s),
    decreases s.len() - j,
{
    if j < s.len() {
        lemma_digits_value_prefix(s, j + 1);
        assert(s.take(j + 1).drop_last() =~= s.take(j));
        assert(is_ascii_digit(s[j]));
    } else {
        assert(s.take(j) =~= s);
    }
}

/// The value of the digits `cs[start..]`, if there is at least one, all are
/// ASCII digits and the value is at most `bound`.
fn digits_at_most(cs: &Vec<char>, start: usize, bound: u64) -> (r: Option<u64>)
    requires
        start <= cs.len(),
        bound <= 0x1_0000_0000,
    ensures
        ({
            let b = cs@.skip(start as int);
            r == (if b.len() > 0 && all_digits(b) && digits_value(b) <= bound {
                Some(digits_value(b) as u64)
            } else {
                None
            })
        }),
{
    let ghost b = cs@.skip(start as int);
    if start == cs.len() {
        return None;
    }
    let mut acc: u64 = 0;
    let mut i = start;
    while i < cs.len()
        invariant
            start <= i <= cs.len(),
            b == cs@.skip(start as int),
            all_digits(b.take(i - start)),
            acc == digits_value(b.take(i - start)),
            acc <= bound,
            bound <= 0x1_0000_0000,
        decreases cs.len() - i,
    {
        let c = cs[i];
        if !('0' <= c && c <= '9') {
            assert(b[i - start] == c);
            return None;
        }
        let d = (c as u64) - 48;
        let next = acc * 10 + d;
        proof {
            assert(b.take(i - start + 1).drop_last() =~= b.take(i - start));
            assert(b.take(i - start + 1).last() == c);
            assert forall|k: int| 0 <= k < b.take(i - start + 1).len() implies is_ascii_digit(
                #[trigger] b.take(i - start + 1)[k],
            ) by {
                if k < i - start {
                    assert(b.take(i - start + 1)[k] == b.take(i - start)[k]);
                }
            }
        }
        if next > bound {
            proof {
                if all_digits(b) {
                    lemma_digits_value_prefix(b, i - start + 1);
                }
            }
            return None;
        }
        acc = next;
        i += 1;
    }
    assert(b.take(i - start) =~= b);
    Some(acc)
}

/// `s.parse::<u32>().ok()`.
pub fn parse_u32(s: &str) -> (r: Option<u32>)
    ensures
        r == parsed_u32(s@),
{
    let cs = chars_of(s);
    let start: usize = if cs.len() > 0 && cs[0] == '+' { 1 } else { 0 };
    assert(cs@.skip(start as int) =~= unsigned_body(s@));
    match digits_at_most(&cs, start, 0xffff_ffff) {
        Some(v) => Some(v as u32),
        None => None,
    }
}

/// `s.parse::<i32>().ok()`.
pub fn parse_i32(s: &str) -> (r: Option<i32>)
    ensures
        r == parsed_i32(s@),
{
    let cs = chars_of(s);
    if cs.len() > 0 && cs[0] == '-' {
        assert(cs@.skip(1) =~= s@.drop_first());
        match digits_at_most(&cs, 1, 0x8000_0000) {
            Some(v) => Some((0i64 - (v as i64)) as i32),
            None => None,
        }
    } else {
        let start: usize = if cs.len() > 0 && cs[0] == '+' { 1 } else { 0 };
        assert(cs@.skip(start as int) =~= unsigned_body(s@));
        match digits_at_most(&cs, start, 0x7fff_ffff) {
            Some(v) => Some(v as i32),
            None => None,
        }
    }
}

/// Law: the decimal digits of `n` are a nonempty run of ASCII digits that
/// denotes `n`.
pub proof fn lemma_decimal_digits_read_back(n: nat)
    ensures
        decimal_digits(n).len() > 0,
        all_digits(decimal_digits(n)),
        digits_value(decimal_digits(n)) == n,
        is_ascii_digit(decimal_digits(n)[0]),
    decreases n,
{
    assert(((n % 10) as int + 48) as char as int == (n % 10) as int + 48);
    if n >= 10 {
        lemma_decimal_digits_read_back(n / 10);
        let d = decimal_digits(n);
        assert(d.drop_last() =~= decimal_digits(n / 10));
        assert(d[0] == decimal_digits(n / 10)[0]);
        assert forall|i: int| 0 <= i < d.len() implies is_ascii_digit(#[trigger] d[i]) by {
            if i < d.len() - 1 {
                assert(d[i] == decimal_digits(n / 10)[i]);
            }
        }
        assert(d.last() == digit_char((n % 10) as int));
        assert(digits_value(d) == digits_value(d.drop_last()) * 10 + (n % 10));
        assert((n / 10) * 10 + n % 10 == n);
    } else {
        assert((n as int + 48) as char as int == n as int + 48);
        let d = decimal_digits(n);
        assert(d == seq![digit_char(n as int)]);
        assert(d.len() == 1);
        assert(d.last() == digit_char(n as int));
        assert(d.drop_last() =~= Seq::<char>::empty());
        assert(digits_value(d.drop_last()) == 0);
        assert(digits_value(d) == n);
    }
}

/// Law: every `u32` written in decimal reads back as itself.
pub proof fn lemma_u32_text_round_trip(n: u32)
    ensures
        parsed_u32(decimal_digits(n as nat)) == Some(n),
{
    lemma_decimal_digits_read_back(n as nat);
    assert(unsigned_body(decimal_digits(n as nat)) == decimal_digits(n as nat));
}

/// Law: every `i32` written in decimal (with `-` when negative) reads back as itself.
pub proof fn lemma_i32_text_round_trip(v: i32)
    ensures
        parsed_i32(signed_decimal(v as int)) == Some(v),
{
    if v < 0 {
        lemma_decimal_digits_read_back((-v) as nat);
        assert((seq!['-'] + decimal_digits((-v) as nat)).drop_first() =~= decimal_digits(
            (-v) as nat,
        ));
    } else {
        lemma_decimal_digits_read_back(v as nat);
        assert(unsigned_body(decimal_digits(v as nat)) == decimal_digits(v as nat));
    }
}

/// Law: decimal digits have no leading zero; zero is written `0`.
pub proof fn lemma_decimal_digits_no_leading_zero(n: nat)
    ensures
        n > 0 ==> decimal_digits(n)[0] != '0',
        decimal_digits(0) == seq!['0'],
    decreases n,
{
    if n < 10 {
        assert((n as int + 48) as char as int == n as int + 48);
    }
    if n >= 10 {
        lemma_decimal_digits_no_leading_zero(n / 10);
        lemma_decimal_digits_read_back(n / 10);
        assert(decimal_digits(n)[0] == decimal_digits(n / 10)[0]);
    }
    assert((0int + 48) as char == '0');
}

/// Law: a text that reads as a `u32` is ASCII digits with at most a `+`
/// in front: empty text, a lone `+`, and any other character anywhere make
/// it unreadable. Leading zeros and a `+` do not change the number.
pub proof fn lemma_parse_u32_shape(s: Seq<char>, n: u32, zeros: nat)
    ensures
        s.len() == 0 ==> parsed_u32(s) is None,
        s == seq!['+'] ==> parsed_u32(s) is None,
        (exists|i: int| 0 <= i < s.len() && !is_ascii_digit(#[trigger] s[i]) && !(i == 0 && s[i] == '+'))
            ==> parsed_u32(s) is None,
        parsed_u32(seq!['+'] + decimal_digits(n as nat)) == Some(n),
        parsed_u32(Seq::new(zeros, |i: int| '0') + decimal_digits(n as nat)) == Some(n),
{
    if exists|i: int| 0 <= i < s.len() && !is_ascii_digit(#[trigger] s[i]) && !(i == 0 && s[i] == '+') {
        let i = choose|i: int| 0 <= i < s.len() && !is_ascii_digit(#[trigger] s[i]) && !(i == 0 && s[i] == '+');
        let b = unsigned_body(s);
        if s.len() > 0 && s[0] == '+' {
            assert(b[i - 1] == s[i]);
        } else {
            assert(b[i] == s[i]);
        }
    }
    lemma_decimal_digits_read_back(n as nat);
    let d = decimal_digits(n as nat);
    assert((seq!['+'] + d).drop_first() =~= d);
    let z = Seq::new(zeros, |i: int| '0') + d;
    lemma_zeros_value(zeros, d);
    assert forall|i: int| 0 <= i < z.len() implies is_ascii_digit(#[trigger] z[i]) by {
        if i >= zeros {
            assert(z[i] == d[i - zeros]);
        }
    }
    assert(z.len() > 0);
}

proof fn lemma_zeros_value(zeros: nat, d: Seq<char>)
    requires
        all_digits(d),
    ensures
        digits_value(Seq::new(zeros, |i: int| '0') + d) == digits_value(d),
    decreases d.len(),
{
    let z = Seq::new(zeros, |i: int| '0');
    if d.len() == 0 {
        assert(z + d =~= z);
        lemma_zeros_only(zeros);
    } else {
        lemma_zeros_value(zeros, d.drop_last());
        assert((z + d).drop_last() =~= z + d.drop_last());
        assert((z + d).last() == d.last());
    }
}

proof fn lemma_zeros_only(zeros: nat)
    ensures
        digits_value(Seq::new(zeros, |i: int| '0')) == 0,
    decreases zeros,
{
    if zeros > 0 {
        lemma_zeros_only((zeros - 1) as nat);
        assert(Seq::new(zeros, |i: int| '0').drop_last() =~= Seq::new((zeros - 1) as nat, |i: int| '0'));
    }
}

} // verus!
