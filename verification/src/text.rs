//! Character-level helpers: decimal numbers, prefixes and the first split
//! at a separator, each stated over the character sequence of the text.
use vstd::prelude::*;

verus! {

broadcast use vstd::seq::group_seq_axioms;

/// The character that writes the decimal digit `d` (for `0 <= d < 10`).
pub open spec fn digit_char(d: int) -> char {
    (d + 48) as char
}

/// Whether `c` is one of the ASCII digits `0` to `9`.
pub open spec fn is_digit(c: char) -> bool {
    '0' <= c && c <= '9'
}

/// The value of the ASCII digit `c`.
pub open spec fn digit_value(c: char) -> int {
    c as int - 48
}

/// The shortest decimal writing of `n`, most significant digit first.
pub open spec fn decimal_text(n: nat) -> Seq<char>
    decreases n,
{
    if n < 10 {
        seq![digit_char(n as int)]
    } else {
        decimal_text(n / 10).push(digit_char((n % 10) as int))
    }
}

/// Whether every character of `s` is a decimal digit.
pub open spec fn all_digits(s: Seq<char>) -> bool {
    forall|i: int| 0 <= i < s.len() ==> is_digit(#[trigger] s[i])
}

/// The number that the digits `s` write, most significant digit first.
pub open spec fn digits_value(s: Seq<char>) -> nat
    decreases s.len(),
{
    if s.len() == 0 {
        0
    } else {
        (digits_value(s.drop_last()) * 10 + digit_value(s.last())) as nat
    }
}

/// The number that `s` writes in the form that an unsigned integer is read
/// from text: an optional `+` followed by one or more decimal digits.
pub open spec fn parse_decimal(s: Seq<char>) -> Option<nat> {
    let body = if s.len() > 0 && s[0] == '+' {
        s.drop_first()
    } else {
        s
    };
    if body.len() > 0 && all_digits(body) {
        Some(digits_value(body))
    } else {
        None
    }
}

/// `parse_decimal` narrowed to what fits in a `usize`.
pub open spec fn parse_usize_text(s: Seq<char>) -> Option<usize> {
    match parse_decimal(s) {
        Some(v) => if v <= usize::MAX {
            Some(v as usize)
        } else {
            None
        },
        None => None,
    }
}

/// Whether `s` begins with `p`.
pub open spec fn has_prefix(s: Seq<char>, p: Seq<char>) -> bool {
    p.len() <= s.len() && s.take(p.len() as int) == p
}

/// `s` cut at the first `sep`: the part before and the part after it, or
/// `None` where `sep` does not occur.
pub open spec fn split_once(s: Seq<char>, sep: char) -> Option<(Seq<char>, Seq<char>)> {
    match s.index_of_first(sep) {
        Some(i) => Some((s.take(i), s.skip(i + 1))),
        None => None,
    }
}

/// The pieces of `s` between the occurrences of `sep`, in order; `n`
/// occurrences give `n + 1` pieces, empty ones included.
pub open spec fn split_all(s: Seq<char>, sep: char) -> Seq<Seq<char>>
    decreases s.len(),
{
    if s.len() == 0 {
        seq![Seq::<char>::empty()]
    } else {
        let before = split_all(s.drop_last(), sep);
        if s.last() == sep {
            before.push(Seq::<char>::empty())
        } else {
            before.update(before.len() - 1, before.last().push(s.last()))
        }
    }
}

/// Returns the characters of `s` in order.
pub fn chars_of(s: &str) -> (v: Vec<char>)
    ensures
        v@ == s@,
{
    broadcast use vstd::string::group_string_axioms;

    let mut v: Vec<char> = Vec::new();
    for c in it: s.chars()
        invariant
            it.seq() == s@,
            v@ == it.seq().take(it.index() as int),
    {
        v.push(c);
    }
    v
}

/// Whether `a` and `b` are the same text.
pub fn same_text(a: &str, b: &str) -> (r: bool)
    ensures
        r == (a@ == b@),
{
    a.to_owned() == b.to_owned()
}

/// `s` without its leading `p`, or `None` where `s` does not begin with `p`.
pub fn strip_prefix<'a>(s: &'a str, p: &str) -> (r: Option<&'a str>)
    ensures
        r is Some <==> has_prefix(s@, p@),
        r matches Some(rest) ==> rest@ == s@.skip(p@.len() as int),
{
    let v = chars_of(s);
    let pv = chars_of(p);
    if pv.len() <= v.len() && chars_match(&v, 0, pv.len(), p) {
        assert(s@.take(p@.len() as int) =~= v@.subrange(0, pv.len() as int));
        let rest = s.substring_char(pv.len(), v.len());
        assert(rest@ =~= s@.skip(p@.len() as int));
        Some(rest)
    } else {
        proof {
            if pv.len() <= v.len() {
                assert(s@.take(p@.len() as int) =~= v@.subrange(0, pv.len() as int));
            }
        }
        None
    }
}

/// Whether the characters `v[start..end]` spell `word`.
pub fn chars_match(v: &Vec<char>, start: usize, end: usize, word: &str) -> (r: bool)
    requires
        start <= end <= v@.len(),
    ensures
        r == (v@.subrange(start as int, end as int) == word@),
{
    let w = chars_of(word);
    if end - start != w.len() {
        return false;
    }
    let mut i: usize = 0;
    while i < w.len()
        invariant
            start <= end <= v@.len(),
            w@ == word@,
            end - start == w@.len(),
            i <= w@.len(),
            forall|k: int| 0 <= k < i ==> v@[start + k] == w@[k],
        decreases w@.len() - i,
    {
        if v[start + i] != w[i] {
            assert(v@.subrange(start as int, end as int)[i as int] != w@[i as int]);
            return false;
        }
        i = i + 1;
    }
    assert(v@.subrange(start as int, end as int) =~= w@);
    true
}

/// The digit `d` written as text.
fn digit_str(d: u64) -> (s: &'static str)
    requires
        d < 10,
    ensures
        s@ == seq![digit_char(d as int)],
{
    proof {
        reveal_strlit("0");
        reveal_strlit("1");
        reveal_strlit("2");
        reveal_strlit("3");
        reveal_strlit("4");
        reveal_strlit("5");
        reveal_strlit("6");
        reveal_strlit("7");
        reveal_strlit("8");
        reveal_strlit("9");
    }
    if d == 0 {
        "0"
    } else if d == 1 {
        "1"
    } else if d == 2 {
        "2"
    } else if d == 3 {
        "3"
    } else if d == 4 {
        "4"
    } else if d == 5 {
        "5"
    } else if d == 6 {
        "6"
    } else if d == 7 {
        "7"
    } else if d == 8 {
        "8"
    } else {
        "9"
    }
}

/// Writes `n` in decimal.
pub fn decimal(n: u64) -> (s: String)
    ensures
        s@ == decimal_text(n as nat),
    decreases n,
{
    if n < 10 {
        String::from_str(digit_str(n))
    } else {
        let mut s = decimal(n / 10);
        s.append(digit_str(n % 10));
        s
    }
}

/// Reads an unsigned integer written as an optional `+` and decimal digits;
/// `None` where the text has another form or the value exceeds `usize`.
pub fn parse_usize(s: &str) -> (r: Option<usize>)
    ensures
        r == parse_usize_text(s@),
{
    let v = chars_of(s);
    let start: usize = if v.len() > 0 && v[0] == '+' {
        1
    } else {
        0
    };
    let ghost body = if s@.len() > 0 && s@[0] == '+' {
        s@.drop_first()
    } else {
        s@
    };
    assert(body =~= v@.skip(start as int));
    if start == v.len() {
        return None;
    }
    let mut value: usize = 0;
    let mut overflow = false;
    let mut i: usize = start;
    while i < v.len()
        invariant
            start <= i <= v@.len(),
            start < v@.len(),
            body == v@.skip(start as int),
            v@ == s@,
            body == (if s@.len() > 0 && s@[0] == '+' {
                s@.drop_first()
            } else {
                s@
            }),
            all_digits(v@.subrange(start as int, i as int)),
            !overflow ==> value == digits_value(v@.subrange(start as int, i as int)),
            overflow ==> digits_value(v@.subrange(start as int, i as int)) > usize::MAX,
        decreases v@.len() - i,
    {
        let c = v[i];
        let ghost prefix = v@.subrange(start as int, i as int);
        let ghost next = v@.subrange(start as int, i + 1);
        assert(next.drop_last() =~= prefix);
        assert(next.last() == c);
        if !('0' <= c && c <= '9') {
            assert(body[i - start] == c);
            assert(!all_digits(body));
            return None;
        }
        assert(all_digits(next)) by {
            assert forall|k: int| 0 <= k < next.len() implies is_digit(#[trigger] next[k]) by {
                if k < prefix.len() {
                    assert(next[k] == prefix[k]);
                }
            }
        }
        let d: usize = (c as u32 - 48) as usize;
        if !overflow {
            match value.checked_mul(10) {
                Some(m) => match m.checked_add(d) {
                    Some(a) => {
                        value = a;
                    },
                    None => {
                        overflow = true;
                    },
                },
                None => {
                    overflow = true;
                },
            }
        }
        i = i + 1;
    }
    assert(v@.subrange(start as int, v@.len() as int) =~= body);
    if overflow {
        None
    } else {
        Some(value)
    }
}

/// `decimal_text` writes only digits, at least one, and reads back as the
/// number it writes.
pub proof fn lemma_decimal_text(n: nat)
    ensures
        decimal_text(n).len() >= 1,
        all_digits(decimal_text(n)),
        digits_value(decimal_text(n)) == n,
        decimal_text(n)[0] != '+',
    decreases n,
{
    if n < 10 {
        let t = decimal_text(n);
        assert(t.drop_last() =~= Seq::<char>::empty());
        assert(digits_value(t) == digits_value(t.drop_last()) * 10 + digit_value(t.last()));
    } else {
        lemma_decimal_text(n / 10);
        let t = decimal_text(n);
        let h = decimal_text(n / 10);
        assert(t.drop_last() =~= h);
        assert forall|i: int| 0 <= i < t.len() implies is_digit(#[trigger] t[i]) by {
            if i < h.len() {
                assert(t[i] == h[i]);
            }
        }
        assert(t[0] == h[0]);
    }
}

/// Reading back the decimal writing of a number gives that number.
pub proof fn lemma_parse_decimal_text(n: nat)
    ensures
        parse_decimal(decimal_text(n)) == Some(n),
{
    lemma_decimal_text(n);
}

/// Ten to the power `n`.
pub open spec fn pow10(n: nat) -> nat
    decreases n,
{
    if n == 0 {
        1
    } else {
        10 * pow10((n - 1) as nat)
    }
}

/// Digits are read most significant first: the digits `a` followed by the
/// digits `b` are worth `a` shifted left by the length of `b`, plus `b`.
pub proof fn lemma_digits_value_concat(a: Seq<char>, b: Seq<char>)
    requires
        all_digits(b),
    ensures
        digits_value(a + b) == digits_value(a) * pow10(b.len()) + digits_value(b),
    decreases b.len(),
{
    if b.len() == 0 {
        assert(a + b =~= a);
        assert(pow10(0) == 1);
        assert(digits_value(b) == 0);
        assert(digits_value(a) * 1 == digits_value(a));
    } else {
        let d = b.drop_last();
        assert(all_digits(d)) by {
            assert forall|k: int| 0 <= k < d.len() implies is_digit(#[trigger] d[k]) by {
                assert(d[k] == b[k]);
            }
        }
        lemma_digits_value_concat(a, d);
        assert((a + b).drop_last() =~= a + d);
        assert((a + b).last() == b.last());
        assert(is_digit(b[b.len() - 1]));
        assert(digit_value(b.last()) >= 0);
        assert(digits_value(a + b) == digits_value(a + d) * 10 + digit_value(b.last()));
        assert(digits_value(b) == digits_value(d) * 10 + digit_value(b.last()));
        let va = digits_value(a) as int;
        let p = pow10(d.len()) as int;
        let vd = digits_value(d) as int;
        assert((va * p + vd) * 10 == va * (10 * p) + vd * 10) by (nonlinear_arith);
        assert(pow10(b.len()) == 10 * pow10(d.len()));
        let x = digit_value(b.last());
        assert(digits_value(a + b) == va * (10 * p) + vd * 10 + x);
        assert(digits_value(b) == vd * 10 + x);
        assert(va * pow10(b.len()) == va * (10 * p));
    }
}

/// The decimal writing of a number is shortest: it starts with `0` only for
/// zero, which is written `0`, and it holds only the characters `0` to `9`.
pub proof fn lemma_decimal_text_shortest(n: nat)
    ensures
        decimal_text(n)[0] == '0' <==> n == 0,
        n == 0 ==> decimal_text(n) == seq!['0'],
        forall|i: int|
            0 <= i < decimal_text(n).len() ==> '0' <= #[trigger] decimal_text(n)[i] && decimal_text(
                n,
            )[i] <= '9',
    decreases n,
{
    lemma_decimal_text(n);
    if n >= 10 {
        lemma_decimal_text_shortest(n / 10);
        assert(decimal_text(n)[0] == decimal_text(n / 10)[0]);
    } else {
        assert(digit_char(n as int) as int == n + 48);
    }
    assert forall|i: int| 0 <= i < decimal_text(n).len() implies '0' <= #[trigger] decimal_text(
        n,
    )[i] && decimal_text(n)[i] <= '9' by {
        assert(is_digit(decimal_text(n)[i]));
    }
}

/// A leading `+` does not change the number read.
pub proof fn lemma_parse_plus_sign(s: Seq<char>)
    requires
        s.len() == 0 || s[0] != '+',
    ensures
        parse_decimal(seq!['+'] + s) == parse_decimal(s),
{
    assert((seq!['+'] + s).drop_first() =~= s);
}

/// A character other than a digit, anywhere but as a leading `+`, makes the
/// text unreadable as a number.
pub proof fn lemma_parse_rejects_non_digit(s: Seq<char>, i: int)
    requires
        0 <= i < s.len(),
        s[i] < '0' || s[i] > '9',
        !(i == 0 && s[0] == '+'),
    ensures
        parse_decimal(s) is None,
{
    if s.len() > 0 && s[0] == '+' {
        assert(s.drop_first()[i - 1] == s[i]);
        assert(!is_digit(s.drop_first()[i - 1]));
    } else {
        assert(!is_digit(s[i]));
    }
}

} // verus!
