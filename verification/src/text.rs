//! Numbers as text, and the few operations on text that settings need.
use crate::decimal;
use crate::decimal::Decimal;
use vstd::prelude::*;
use vstd::string::*;

verus! {

/// The character of one digit.
pub open spec fn digit_char(d: int) -> char {
    if d == 0 {
        '0'
    } else if d == 1 {
        '1'
    } else if d == 2 {
        '2'
    } else if d == 3 {
        '3'
    } else if d == 4 {
        '4'
    } else if d == 5 {
        '5'
    } else if d == 6 {
        '6'
    } else if d == 7 {
        '7'
    } else if d == 8 {
        '8'
    } else {
        '9'
    }
}

/// The digits of a number, without leading zeros.
pub open spec fn digits(n: nat) -> Seq<char>
    decreases n,
{
    if n < 10 {
        seq![digit_char(n as int)]
    } else {
        digits(n / 10).push(digit_char(n as int % 10))
    }
}

/// A number with its sign.
pub open spec fn signed_digits(n: int) -> Seq<char> {
    if n < 0 {
        seq!['-'] + digits((-n) as nat)
    } else {
        digits(n as nat)
    }
}

/// Digits with zeros in front, at least `width` of them.
pub open spec fn zero_padded(s: Seq<char>, width: nat) -> Seq<char> {
    if s.len() < width {
        Seq::new((width - s.len()) as nat, |i: int| '0') + s
    } else {
        s
    }
}

/// A decimal: its coefficient with a point before the last `places` digits.
pub open spec fn decimal_digits(m: int, places: nat) -> Seq<char> {
    let sign = if m < 0 {
        seq!['-']
    } else {
        Seq::empty()
    };
    let d = zero_padded(digits(decimal::abs_int(m) as nat), places + 1);
    if places == 0 {
        sign + d
    } else {
        sign + d.take(d.len() - places) + seq!['.'] + d.skip(d.len() - places)
    }
}

fn digit_text(d: u64) -> (s: &'static str)
    requires
        d < 10,
    ensures
        s@ == seq![digit_char(d as int)],
{
    proof {
        reveal_strlit("0");
        reveal_strlit("1");
        reveal_strlit("2");
        reveal_strlit("3");
        reveal_strlit("4");
        reveal_strlit("5");
        reveal_strlit("6");
        reveal_strlit("7");
        reveal_strlit("8");
        reveal_strlit("9");
    }
    let s = if d == 0 {
        "0"
    } else if d == 1 {
        "1"
    } else if d == 2 {
        "2"
    } else if d == 3 {
        "3"
    } else if d == 4 {
        "4"
    } else if d == 5 {
        "5"
    } else if d == 6 {
        "6"
    } else if d == 7 {
        "7"
    } else if d == 8 {
        "8"
    } else {
        "9"
    };
    assert(s@ =~= seq![digit_char(d as int)]);
    s
}

/// A number in digits.
pub fn u64_text(n: u64) -> (s: String)
    ensures
        s@ == digits(n as nat),
    decreases n,
{
    if n < 10 {
        String::from_str(digit_text(n))
    } else {
        let head = u64_text(n / 10);
        let s = head.concat(digit_text(n % 10));
        assert(s@ =~= digits(n as nat));
        s
    }
}

/// A signed number in digits.
pub fn i64_text(n: i64) -> (s: String)
    ensures
        s@ == signed_digits(n as int),
{
    if n >= 0 {
        return u64_text(n as u64);
    }
    proof {
        reveal_strlit("-");
    }
    let magnitude: u64 = (-(n + 1)) as u64 + 1;
    let tail = u64_text(magnitude);
    let s = String::from_str("-").concat(tail.as_str());
    assert(s@ =~= signed_digits(n as int));
    s
}

/// A number in at least `width` digits.
pub fn padded_text(n: u64, width: usize) -> (s: String)
    ensures
        s@ == zero_padded(digits(n as nat), width as nat),
{
    proof {
        reveal_strlit("");
        reveal_strlit("0");
    }
    let number = u64_text(n);
    let mut s = String::from_str("");
    let mut len: usize = number.as_str().unicode_len();
    while len < width
        invariant
            number@ == digits(n as nat),
            len == number@.len() + s@.len(),
            len <= width || s@.len() == 0,
            "0"@ =~= seq!['0'],
            s@ =~= Seq::new(s@.len(), |k: int| '0'),
        decreases width - len,
    {
        s.append("0");
        len = len + 1;
    }
    let t = s.concat(number.as_str());
    assert(t@ =~= zero_padded(digits(n as nat), width as nat));
    t
}

/// `rust_decimal::Decimal`'s `to_string`: the coefficient with a point before its last
/// `places` digits, with zeros in front where it has too few, and no point without places.
#[verifier::external_body]
fn outside_decimal_text(m: i128, p: u32) -> (s: String)
    requires
        decimal::fits(m as int),
        p <= 28,
    ensures
        s@ == decimal_digits(m as int, p as nat),
{
    rust_decimal::Decimal::from_i128_with_scale(m, p).to_string()
}

/// A decimal as text.
pub fn decimal_text(d: Decimal) -> (s: String)
    ensures
        s@ == decimal_digits(d.coeff(), d.places()),
{
    proof {
        use_type_invariant(&d);
    }
    outside_decimal_text(d.mantissa(), d.scale())
}

/// A blank character: one with the Unicode property White_Space.
pub open spec fn white_space(c: char) -> bool {
    let u = c as u32;
    ||| 0x9 <= u <= 0xd
    ||| u == 0x20
    ||| u == 0x85
    ||| u == 0xa0
    ||| u == 0x1680
    ||| 0x2000 <= u <= 0x200a
    ||| u == 0x2028
    ||| u == 0x2029
    ||| u == 0x202f
    ||| u == 0x205f
    ||| u == 0x3000
}

/// Text without the blanks in front.
pub open spec fn trimmed_start(s: Seq<char>) -> Seq<char>
    decreases s.len(),
{
    if s.len() > 0 && white_space(s[0]) {
        trimmed_start(s.drop_first())
    } else {
        s
    }
}

/// Text without the blanks behind.
pub open spec fn trimmed_end(s: Seq<char>) -> Seq<char>
    decreases s.len(),
{
    if s.len() > 0 && white_space(s.last()) {
        trimmed_end(s.drop_last())
    } else {
        s
    }
}

/// Text without the blanks around it.
pub open spec fn trimmed(s: Seq<char>) -> Seq<char> {
    trimmed_end(trimmed_start(s))
}

/// Text with nothing but blanks.
pub open spec fn blank(s: Seq<char>) -> bool {
    forall|i: int| 0 <= i < s.len() ==> white_space(#[trigger] s[i])
}

fn is_white_space(c: char) -> (r: bool)
    ensures
        r == white_space(c),
{
    let u: u32 = c as u32;
    (0x9 <= u && u <= 0xd) || u == 0x20 || u == 0x85 || u == 0xa0 || u == 0x1680 || (0x2000 <= u
        && u <= 0x200a) || u == 0x2028 || u == 0x2029 || u == 0x202f || u == 0x205f || u == 0x3000
}

/// Text without the blanks around it.
pub fn trim(s: &str) -> (t: &str)
    ensures
        t@ == trimmed(s@),
{
    let n: usize = s.unicode_len();
    let mut from: usize = 0;
    assert(s@.skip(0) =~= s@);
    while from < n && is_white_space(s.get_char(from))
        invariant
            n == s@.len(),
            from <= n,
            trimmed_start(s@.skip(from as int)) == trimmed_start(s@),
        decreases n - from,
    {
        assert(s@.skip(from as int).drop_first() =~= s@.skip(from + 1));
        from = from + 1;
    }
    assert(trimmed_start(s@) == s@.skip(from as int));
    let mut to: usize = n;
    assert(s@.subrange(from as int, n as int) =~= s@.skip(from as int));
    while from < to && is_white_space(s.get_char(to - 1))
        invariant
            n == s@.len(),
            from <= to <= n,
            trimmed_end(s@.subrange(from as int, to as int)) == trimmed(s@),
        decreases to - from,
    {
        assert(s@.subrange(from as int, to as int).drop_last() =~= s@.subrange(
            from as int,
            to - 1,
        ));
        to = to - 1;
    }
    s.substring_char(from, to)
}

/// Trimming leaves nothing exactly of blank text.
pub proof fn lemma_trimmed_blank(s: Seq<char>)
    ensures
        (trimmed(s).len() == 0) == blank(s),
{
    lemma_trimmed_start(s);
    lemma_trimmed_end(trimmed_start(s));
}

proof fn lemma_trimmed_start(s: Seq<char>)
    ensures
        (trimmed_start(s).len() == 0) == blank(s),
        trimmed_start(s).len() > 0 ==> !white_space(trimmed_start(s)[0]),
    decreases s.len(),
{
    if s.len() > 0 && white_space(s[0]) {
        let t = s.drop_first();
        lemma_trimmed_start(t);
        if blank(t) {
            assert forall|i: int| 0 <= i < s.len() implies white_space(#[trigger] s[i]) by {
                if i > 0 {
                    assert(t[i - 1] == s[i]);
                }
            }
        } else {
            let i = choose|i: int| 0 <= i < t.len() && !white_space(#[trigger] t[i]);
            assert(s[i + 1] == t[i]);
        }
    }
}

proof fn lemma_trimmed_end(s: Seq<char>)
    requires
        s.len() > 0 ==> !white_space(s[0]),
    ensures
        (trimmed_end(s).len() == 0) == (s.len() == 0),
    decreases s.len(),
{
    if s.len() > 0 && white_space(s.last()) {
        lemma_trimmed_end(s.drop_last());
    }
}

/// Whether text has nothing but blanks.
pub fn is_blank(s: &str) -> (r: bool)
    ensures
        r == blank(s@),
{
    proof {
        lemma_trimmed_blank(s@);
    }
    trim(s).is_empty()
}

/// Whether two texts are the same.
pub fn same(a: &str, b: &str) -> (r: bool)
    ensures
        r == (a@ == b@),
{
    a.to_owned() == b.to_owned()
}

/// The code of a character, with capital ASCII letters taken for small ones.
pub open spec fn folded(c: char) -> int {
    if 0x41 <= c as u32 <= 0x5a {
        c as u32 + 0x20
    } else {
        c as u32 as int
    }
}

/// Two texts are the same but for the case of ASCII letters.
pub open spec fn same_folded(a: Seq<char>, b: Seq<char>) -> bool {
    a.len() == b.len() && forall|i: int| 0 <= i < a.len() ==> folded(#[trigger] a[i]) == folded(b[i])
}

fn fold(c: char) -> (u: u32)
    ensures
        u == folded(c),
{
    let u: u32 = c as u32;
    if 0x41 <= u && u <= 0x5a {
        u + 0x20
    } else {
        u
    }
}

/// Whether two texts are the same but for the case of ASCII letters.
pub fn same_ignoring_case(a: &str, b: &str) -> (r: bool)
    ensures
        r == same_folded(a@, b@),
{
    let n: usize = a.unicode_len();
    if b.unicode_len() != n {
        return false;
    }
    let mut i: usize = 0;
    while i < n
        invariant
            n == a@.len(),
            n == b@.len(),
            i <= n,
            forall|k: int| 0 <= k < i ==> folded(#[trigger] a@[k]) == folded(b@[k]),
        decreases n - i,
    {
        if fold(a.get_char(i)) != fold(b.get_char(i)) {
            assert(folded(a@[i as int]) != folded(b@[i as int]));
            return false;
        }
        i = i + 1;
    }
    true
}

/// The number that a run of digits stands for.
pub open spec fn number_in(s: Seq<char>) -> int
    decreases s.len(),
{
    if s.len() == 0 {
        0
    } else {
        10 * number_in(s.drop_last()) + (s.last() as u32 - 0x30)
    }
}

/// Digits stand for the number that they were made of, and none of them is a leading zero.
pub proof fn law_digits_stand_for_their_number(n: nat)
    ensures
        number_in(digits(n)) == n,
        digits(n).len() >= 1,
        digits(n).len() > 1 ==> digits(n)[0] != '0',
        n > 0 ==> digits(n)[0] != '0',
        forall|i: int| 0 <= i < digits(n).len() ==> '0' <= #[trigger] digits(n)[i] <= '9',
    decreases n,
{
    reveal_with_fuel(number_in, 2);
    let s = digits(n);
    if n >= 10 {
        law_digits_stand_for_their_number(n / 10);
        assert(s.drop_last() =~= digits(n / 10));
        assert(s[0] == digits(n / 10)[0]);
        assert forall|i: int| 0 <= i < s.len() implies '0' <= #[trigger] s[i] <= '9' by {
            if i < s.len() - 1 {
                assert(digits(n / 10)[i] == s[i]);
            }
        }
    } else {
        assert(s.drop_last() =~= Seq::<char>::empty());
    }
}

/// The number of two runs of digits, one behind the other.
pub proof fn lemma_number_in_joined(a: Seq<char>, b: Seq<char>)
    ensures
        number_in(a + b) == number_in(a) * decimal::pow10(b.len()) + number_in(b),
    decreases b.len(),
{
    if b.len() == 0 {
        assert(a + b =~= a);
    } else {
        let c = b.drop_last();
        lemma_number_in_joined(a, c);
        assert((a + b).drop_last() =~= a + c);
        assert((a + b).last() == b.last());
        let x = number_in(a);
        let t = decimal::pow10(c.len());
        assert(decimal::pow10(b.len()) == 10 * t);
        assert(10 * (x * t) == x * (10 * t)) by (nonlinear_arith);
    }
}

proof fn lemma_number_in_zeros(n: nat)
    ensures
        number_in(Seq::new(n, |i: int| '0')) == 0,
    decreases n,
{
    if n > 0 {
        lemma_number_in_zeros((n - 1) as nat);
        assert(Seq::new(n, |i: int| '0').drop_last() =~= Seq::new((n - 1) as nat, |i: int| '0'));
    }
}

/// Zeros in front make a run of digits as wide as asked for and change nothing of its number.
pub proof fn law_padding_keeps_the_number(s: Seq<char>, width: nat)
    ensures
        number_in(zero_padded(s, width)) == number_in(s),
        zero_padded(s, width).len() == if s.len() < width {
            width
        } else {
            s.len()
        },
{
    if s.len() < width {
        let n = (width - s.len()) as nat;
        let zeros = Seq::new(n, |i: int| '0');
        lemma_number_in_zeros(n);
        lemma_number_in_joined(zeros, s);
        assert(0 * decimal::pow10(s.len()) == 0);
    }
}

/// The text of a decimal: a minus in front exactly if it is below zero, then the digits
/// before the point and `places` digits behind it, which together are its coefficient.
/// Without places there is no point.
pub proof fn law_decimals_are_written_out(m: int, places: nat)
    ensures
        ({
            let t = decimal_digits(m, places);
            let from = if m < 0 { 1int } else { 0 };
            let point = t.len() - places - 1;
            &&& m < 0 <==> t[0] == '-'
            &&& places == 0 ==> number_in(t.skip(from)) == decimal::abs_int(m)
            &&& places > 0 ==> {
                &&& from < point
                &&& t[point] == '.'
                &&& number_in(t.subrange(from, point)) * decimal::pow10(places) + number_in(
                    t.skip(point + 1),
                ) == decimal::abs_int(m)
            }
        }),
{
    let n = decimal::abs_int(m) as nat;
    let t = decimal_digits(m, places);
    let from = if m < 0 { 1int } else { 0 };
    let d = zero_padded(digits(n), places + 1);
    law_digits_stand_for_their_number(n);
    law_padding_keeps_the_number(digits(n), places + 1);
    assert(d[0] != '-') by {
        if digits(n).len() < places + 1 {
            assert(d[0] == '0');
        } else {
            assert(d[0] == digits(n)[0]);
        }
    }
    if places == 0 {
        assert(t.skip(from) =~= d);
        assert(m >= 0 ==> t[0] == d[0]);
    } else {
        let k = d.len() - places;
        let point = t.len() - places - 1;
        assert(t.subrange(from, point) =~= d.take(k));
        assert(t.skip(point + 1) =~= d.skip(k));
        assert(d.take(k) + d.skip(k) =~= d);
        lemma_number_in_joined(d.take(k), d.skip(k));
        assert(m >= 0 ==> t[0] == d[0]);
    }
}

proof fn lemma_start_is_skipped(s: Seq<char>) -> (k: int)
    ensures
        0 <= k <= s.len(),
        trimmed_start(s) == s.skip(k),
        blank(s.take(k)),
    decreases s.len(),
{
    if s.len() > 0 && white_space(s[0]) {
        let r = s.drop_first();
        let k = lemma_start_is_skipped(r);
        assert(r.skip(k) =~= s.skip(k + 1));
        assert forall|i: int| 0 <= i < k + 1 implies white_space(#[trigger] s.take(k + 1)[i]) by {
            if i > 0 {
                assert(r.take(k)[i - 1] == s.take(k + 1)[i]);
            }
        }
        k + 1
    } else {
        assert(s.skip(0) =~= s);
        0
    }
}

proof fn lemma_end_is_left_out(s: Seq<char>) -> (k: int)
    ensures
        0 <= k <= s.len(),
        trimmed_end(s) == s.take(k),
        blank(s.skip(k)),
        k > 0 ==> !white_space(s[k - 1]),
    decreases s.len(),
{
    if s.len() > 0 && white_space(s.last()) {
        let r = s.drop_last();
        let k = lemma_end_is_left_out(r);
        assert(r.take(k) =~= s.take(k));
        assert forall|i: int| 0 <= i < s.len() - k implies white_space(#[trigger] s.skip(k)[i]) by {
            if i < r.len() - k {
                assert(r.skip(k)[i] == s.skip(k)[i]);
            }
        }
        assert(k > 0 ==> s[k - 1] == r[k - 1]);
        k
    } else {
        assert(s.take(s.len() as int) =~= s);
        s.len() as int
    }
}

/// What is trimmed off a text is nothing but blanks, in front and behind, and what is left has
/// none at its ends. The result is where what is left starts and where it ends.
pub proof fn law_trimming_takes_only_blanks(s: Seq<char>) -> (r: (int, int))
    ensures
        0 <= r.0 <= r.1 <= s.len(),
        trimmed(s) == s.subrange(r.0, r.1),
        blank(s.take(r.0)),
        blank(s.skip(r.1)),
        trimmed(s).len() > 0 ==> !white_space(trimmed(s)[0]) && !white_space(trimmed(s).last()),
{
    lemma_trimmed_start(s);
    let a = lemma_start_is_skipped(s);
    let u = trimmed_start(s);
    let k = lemma_end_is_left_out(u);
    assert(u.take(k) =~= s.subrange(a, a + k));
    assert(u.skip(k) =~= s.skip(a + k));
    if k > 0 {
        assert(trimmed(s)[0] == u[0]);
        assert(trimmed(s).last() == u[k - 1]);
    }
    (a, a + k)
}

/// Characters are folded together only if they are the same or one is the other's capital.
pub proof fn lemma_folded_apart(c: char, d: char)
    ensures
        folded(c) == folded(d) <==> {
            ||| c == d
            ||| 'A' <= c <= 'Z' && c as u32 + 0x20 == d as u32
            ||| 'A' <= d <= 'Z' && d as u32 + 0x20 == c as u32
        },
{
}

/// Texts without capital letters are the same but for their case only if they are the same.
pub proof fn law_only_the_case_is_ignored(a: Seq<char>, b: Seq<char>)
    requires
        forall|i: int| 0 <= i < a.len() ==> !('A' <= #[trigger] a[i] <= 'Z'),
        forall|i: int| 0 <= i < b.len() ==> !('A' <= #[trigger] b[i] <= 'Z'),
    ensures
        same_folded(a, b) <==> a == b,
{
    if same_folded(a, b) {
        assert forall|i: int| 0 <= i < a.len() implies a[i] == b[i] by {
            assert(folded(a[i]) == folded(b[i]));
            lemma_folded_apart(a[i], b[i]);
        }
        assert(a =~= b);
    }
}

} // verus!
