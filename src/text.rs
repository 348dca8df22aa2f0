//! Character classes, decimal numbers and separator-delimited fields of text.

use vstd::prelude::*;

verus! {

/// What `char::is_alphanumeric` answers for a character.
pub uninterp spec fn unicode_alphanumeric(c: char) -> bool;

/// What `char::is_alphabetic` answers for a character.
pub uninterp spec fn unicode_alphabetic(c: char) -> bool;

pub open spec fn ascii_digit(c: char) -> bool {
    '0' <= c && c <= '9'
}

pub open spec fn ascii_alpha(c: char) -> bool {
    ('a' <= c && c <= 'z') || ('A' <= c && c <= 'Z')
}

pub open spec fn ascii_alnum(c: char) -> bool {
    ascii_digit(c) || ascii_alpha(c)
}

pub open spec fn ascii_hex(c: char) -> bool {
    ascii_digit(c) || ('a' <= c && c <= 'f') || ('A' <= c && c <= 'F')
}

/// Relies on `char::is_alphanumeric`; on ASCII it agrees with `is_ascii_alphanumeric`.
#[verifier::external_body]
pub(crate) fn is_alphanumeric(c: char) -> (r: bool)
    ensures
        r == unicode_alphanumeric(c),
        (c as u32) < 128 ==> (r <==> ascii_alnum(c)),
{
    c.is_alphanumeric()
}

/// Relies on `char::is_alphabetic`; on ASCII it agrees with `is_ascii_alphabetic`.
#[verifier::external_body]
pub(crate) fn is_alphabetic(c: char) -> (r: bool)
    ensures
        r == unicode_alphabetic(c),
        (c as u32) < 128 ==> (r <==> ascii_alpha(c)),
{
    c.is_alphabetic()
}

/// Value of a string of decimal digits.
pub open spec fn decimal_value(s: Seq<char>) -> nat
    decreases s.len(),
{
    if s.len() == 0 {
        0
    } else {
        decimal_value(s.drop_last()) * 10 + (s.last() as nat - '0' as nat) as nat
    }
}

pub open spec fn all_digits(s: Seq<char>) -> bool {
    forall|i: int| 0 <= i < s.len() ==> ascii_digit(#[trigger] s[i])
}

/// The digits of an unsigned integer as Rust's `str::parse` reads it: one optional `+`,
/// then at least one decimal digit.
pub open spec fn unsigned_digits(s: Seq<char>) -> Seq<char> {
    if s.len() > 0 && s[0] == '+' {
        s.drop_first()
    } else {
        s
    }
}

/// The unsigned integer that `s` spells, if it spells one no larger than `max`.
pub open spec fn unsigned_text_value(s: Seq<char>, max: nat) -> Option<nat> {
    let d = unsigned_digits(s);
    if d.len() > 0 && all_digits(d) && decimal_value(d) <= max {
        Some(decimal_value(d))
    } else {
        None
    }
}

proof fn lemma_decimal_value_grows(s: Seq<char>, c: char)
    requires
        ascii_digit(c),
    ensures
        decimal_value(s.push(c)) == decimal_value(s) * 10 + (c as nat - '0' as nat),
        decimal_value(s.push(c)) >= decimal_value(s),
{
    assert(s.push(c).drop_last() =~= s);
}

/// Reads the unsigned integer spelled by the characters `from..to` of `s`, if it is at
/// most `max`.
pub fn parse_unsigned(s: &str, from: usize, to: usize, max: u64) -> (r: Option<u64>)
    requires
        from <= to <= s@.len(),
        max < 0x1_0000_0000,
    ensures
        match unsigned_text_value(s@.subrange(from as int, to as int), max as nat) {
            Some(v) => r == Some(v as u64),
            None => r is None,
        },
{
    let ghost t = s@.subrange(from as int, to as int);
    let mut start = from;
    if from < to && s.get_char(from) == '+' {
        start = from + 1;
    }
    let ghost d = s@.subrange(start as int, to as int);
    assert(d =~= unsigned_digits(t));
    if start == to {
        assert(d.len() == 0);
        return None;
    }
    let mut acc: u64 = 0;
    let mut i = start;
    while i < to
        invariant
            start <= i <= to <= s@.len(),
            d == s@.subrange(start as int, to as int),
            d == unsigned_digits(t),
            t == s@.subrange(from as int, to as int),
            max < 0x1_0000_0000,
            all_digits(s@.subrange(start as int, i as int)),
            decimal_value(s@.subrange(start as int, i as int)) <= max ==> acc as nat
                == decimal_value(s@.subrange(start as int, i as int)),
            decimal_value(s@.subrange(start as int, i as int)) > max ==> acc > max,
            acc <= 10 * max + 9,
        decreases to - i,
    {
        let c = s.get_char(i);
        if !('0' <= c && c <= '9') {
            assert(d[i - start] == c);
            assert(!all_digits(d));
            assert(t == s@.subrange(from as int, to as int));
            assert(unsigned_digits(t) == d);
            assert(unsigned_text_value(t, max as nat) is None);
            return None;
        }
        let ghost p = s@.subrange(start as int, i as int);
        assert(s@.subrange(start as int, i + 1) =~= p.push(c));
        proof {
            lemma_decimal_value_grows(p, c);
        }
        if acc <= max {
            acc = acc * 10 + (c as u64 - '0' as u64);
        }
        i = i + 1;
    }
    assert(s@.subrange(start as int, to as int) =~= d);
    if acc > max {
        None
    } else {
        Some(acc)
    }
}

/// The fields of `s` between occurrences of `sep`, as `str::split` yields them.
pub open spec fn fields(s: Seq<char>, sep: char) -> Seq<Seq<char>>
    decreases s.len(),
{
    if s.len() == 0 {
        seq![Seq::<char>::empty()]
    } else {
        let f = fields(s.drop_last(), sep);
        if s.last() == sep {
            f.push(Seq::<char>::empty())
        } else {
            f.update(f.len() - 1, f.last().push(s.last()))
        }
    }
}

proof fn lemma_fields_nonempty(s: Seq<char>, sep: char)
    ensures
        fields(s, sep).len() >= 1,
    decreases s.len(),
{
    if s.len() > 0 {
        lemma_fields_nonempty(s.drop_last(), sep);
    }
}

/// The bounds, as character positions, of the fields of `s` between occurrences of `sep`.
pub fn field_bounds(s: &str, sep: char) -> (r: Vec<(usize, usize)>)
    ensures
        r@.len() == fields(s@, sep).len(),
        forall|k: int| 0 <= k < r@.len() ==> #[trigger] r@[k].0 <= r@[k].1 && r@[k].1 <= s@.len(),
        forall|k: int|
            0 <= k < r@.len() ==> s@.subrange(r@[k].0 as int, r@[k].1 as int) == #[trigger] fields(
                s@,
                sep,
            )[k],
{
    let n = s.unicode_len();
    let mut out: Vec<(usize, usize)> = Vec::new();
    let mut start: usize = 0;
    let mut i: usize = 0;
    assert(s@.subrange(0, 0) =~= Seq::<char>::empty());
    while i < n
        invariant
            n == s@.len(),
            start <= i <= n,
            fields(s@.subrange(0, i as int), sep).len() == out@.len() + 1,
            fields(s@.subrange(0, i as int), sep).last() == s@.subrange(start as int, i as int),
            forall|k: int| 0 <= k < out@.len() ==> #[trigger] out@[k].0 <= out@[k].1 && out@[k].1 <= i,
            forall|k: int|
                0 <= k < out@.len() ==> s@.subrange(out@[k].0 as int, out@[k].1 as int)
                    == #[trigger] fields(s@.subrange(0, i as int), sep)[k],
        decreases n - i,
    {
        let c = s.get_char(i);
        let ghost p = s@.subrange(0, i as int);
        let ghost q = s@.subrange(0, i + 1);
        assert(q.drop_last() =~= p);
        assert(q.last() == c);
        proof {
            lemma_fields_nonempty(p, sep);
        }
        let ghost old_out = out@;
        if c == sep {
            assert(fields(q, sep) == fields(p, sep).push(Seq::<char>::empty()));
            out.push((start, i));
            start = i + 1;
            assert(s@.subrange(start as int, i + 1) =~= Seq::<char>::empty());
        } else {
            let ghost f = fields(p, sep);
            assert(fields(q, sep) == f.update(f.len() - 1, f.last().push(c)));
            assert(s@.subrange(start as int, i + 1) =~= s@.subrange(start as int, i as int).push(
                c,
            ));
        }
        assert forall|k: int| 0 <= k < out@.len() implies s@.subrange(
            out@[k].0 as int,
            out@[k].1 as int,
        ) == #[trigger] fields(q, sep)[k] by {
            if k < old_out.len() {
                assert(out@[k] == old_out[k]);
                assert(fields(q, sep)[k] == fields(p, sep)[k]);
                assert(s@.subrange(out@[k].0 as int, out@[k].1 as int) == fields(p, sep)[k]);
            } else {
                assert(fields(q, sep)[k] == fields(p, sep).last());
            }
        }
        assert forall|k: int| 0 <= k < out@.len() implies #[trigger] out@[k].0 <= out@[k].1
            && out@[k].1 <= i + 1 by {
            if k < old_out.len() {
                assert(out@[k] == old_out[k]);
            }
        }
        i = i + 1;
        assert(s@.subrange(0, i as int) == q);
    }
    assert(s@.subrange(0, n as int) =~= s@);
    let ghost old_out = out@;
    out.push((start, n));
    assert forall|k: int| 0 <= k < out@.len() implies s@.subrange(
        out@[k].0 as int,
        out@[k].1 as int,
    ) == #[trigger] fields(s@, sep)[k] by {
        if k < old_out.len() {
            assert(out@[k] == old_out[k]);
        }
    }
    out
}

pub open spec fn digit_char(d: nat) -> char {
    if d == 0 {
        '0'
    } else if d == 1 {
        '1'
    } else if d == 2 {
        '2'
    } else if d == 3 {
        '3'
    } else if d == 4 {
        '4'
    } else if d == 5 {
        '5'
    } else if d == 6 {
        '6'
    } else if d == 7 {
        '7'
    } else if d == 8 {
        '8'
    } else {
        '9'
    }
}

/// The decimal digits of `n`, most significant first, without leading zeros.
pub open spec fn decimal_text(n: nat) -> Seq<char>
    decreases n,
{
    if n < 10 {
        seq![digit_char(n)]
    } else {
        decimal_text(n / 10).push(digit_char(n % 10))
    }
}

fn digit_str(d: u64) -> (r: &'static str)
    requires
        d < 10,
    ensures
        r@ == seq![digit_char(d as nat)],
{
    proof {
        reveal_strlit("0");
        reveal_strlit("1");
        reveal_strlit("2");
        reveal_strlit("3");
        reveal_strlit("4");
        reveal_strlit("5");
        reveal_strlit("6");
        reveal_strlit("7");
        reveal_strlit("8");
        reveal_strlit("9");
    }
    let r = if d == 0 {
        "0"
    } else if d == 1 {
        "1"
    } else if d == 2 {
        "2"
    } else if d == 3 {
        "3"
    } else if d == 4 {
        "4"
    } else if d == 5 {
        "5"
    } else if d == 6 {
        "6"
    } else if d == 7 {
        "7"
    } else if d == 8 {
        "8"
    } else {
        "9"
    };
    assert(r@ =~= seq![digit_char(d as nat)]);
    r
}

/// Writes `n` in decimal.
pub fn u128_text(n: u128) -> (r: String)
    ensures
        r@ == decimal_text(n as nat),
    decreases n,
{
    if n < 10 {
        String::from_str(digit_str(n as u64))
    } else {
        let mut s = u128_text(n / 10);
        s.append(digit_str((n % 10) as u64));
        s
    }
}

/// Writes `n` in decimal.
pub fn u64_text(n: u64) -> (r: String)
    ensures
        r@ == decimal_text(n as nat),
    decreases n,
{
    if n < 10 {
        String::from_str(digit_str(n))
    } else {
        let mut s = u64_text(n / 10);
        s.append(digit_str(n % 10));
        s
    }
}

} // verus!
