//! Characters, decimal numerals and substring replacement.

use vstd::prelude::*;

verus! {

/// The character of one decimal digit.
pub open spec fn digit_char(d: nat) -> char
    recommends
        d < 10,
{
    if d == 0 {
        '0'
    } else if d == 1 {
        '1'
    } else if d == 2 {
        '2'
    } else if d == 3 {
        '3'
    } else if d == 4 {
        '4'
    } else if d == 5 {
        '5'
    } else if d == 6 {
        '6'
    } else if d == 7 {
        '7'
    } else if d == 8 {
        '8'
    } else {
        '9'
    }
}

/// The decimal numeral of `n`, most significant digit first, without leading zeros.
pub open spec fn decimal(n: nat) -> Seq<char>
    decreases n,
{
    if n < 10 {
        seq![digit_char(n)]
    } else {
        decimal(n / 10).push(digit_char(n % 10))
    }
}

/// The result of replacing, from left to right, every occurrence of `pat` in
/// `s` that does not overlap an earlier one by `to`. An empty `pat` occurs nowhere.
pub open spec fn replace_all(s: Seq<char>, pat: Seq<char>, to: Seq<char>) -> Seq<char>
    decreases s.len(),
{
    if pat.len() == 0 || s.len() < pat.len() {
        s
    } else if s.subrange(0, pat.len() as int) == pat {
        to + replace_all(s.subrange(pat.len() as int, s.len() as int), pat, to)
    } else {
        seq![s[0]] + replace_all(s.subrange(1, s.len() as int), pat, to)
    }
}

/// Whether `pat` stands in `s` at position `at`.
pub open spec fn occurs_at(s: Seq<char>, pat: Seq<char>, at: int) -> bool {
    &&& 0 <= at
    &&& at + pat.len() <= s.len()
    &&& s.subrange(at, at + pat.len()) == pat
}

fn digit_of(d: u64) -> (c: char)
    requires
        d < 10,
    ensures
        c == digit_char(d as nat),
{
    if d == 0 {
        '0'
    } else if d == 1 {
        '1'
    } else if d == 2 {
        '2'
    } else if d == 3 {
        '3'
    } else if d == 4 {
        '4'
    } else if d == 5 {
        '5'
    } else if d == 6 {
        '6'
    } else if d == 7 {
        '7'
    } else if d == 8 {
        '8'
    } else {
        '9'
    }
}

/// Writes `n` in decimal.
pub fn decimal_digits(n: u64) -> (out: Vec<char>)
    ensures
        out@ == decimal(n as nat),
    decreases n,
{
    if n < 10 {
        let mut out: Vec<char> = Vec::new();
        out.push(digit_of(n));
        out
    } else {
        let mut out = decimal_digits(n / 10);
        out.push(digit_of(n % 10));
        out
    }
}

/// `String::push` of std: the string grows by the one character, at its end.
#[verifier::external_body]
fn push_char(s: &mut String, c: char)
    ensures
        final(s)@ == old(s)@.push(c),
{
    s.push(c);
}

/// The characters of `s`, in order.
pub fn chars_of(s: &str) -> (out: Vec<char>)
    ensures
        out@ == s@,
{
    let n = s.unicode_len();
    let mut out: Vec<char> = Vec::new();
    let mut i: usize = 0;
    while i < n
        invariant
            n == s@.len(),
            i <= n,
            out@ == s@.subrange(0, i as int),
        decreases n - i,
    {
        out.push(s.get_char(i));
        i = i + 1;
    }
    out
}

/// The string made of `chars`, in order.
pub fn string_of(chars: &Vec<char>) -> (out: String)
    ensures
        out@ == chars@,
{
    let mut out = String::new();
    let mut i: usize = 0;
    while i < chars.len()
        invariant
            i <= chars.len(),
            out@ == chars@.subrange(0, i as int),
        decreases chars.len() - i,
    {
        push_char(&mut out, chars[i]);
        i = i + 1;
    }
    out
}

/// Appends `tail` to `out`.
pub fn append_chars(out: &mut Vec<char>, tail: &Vec<char>)
    ensures
        final(out)@ == old(out)@ + tail@,
{
    let mut i: usize = 0;
    while i < tail.len()
        invariant
            i <= tail.len(),
            out@ == old(out)@ + tail@.subrange(0, i as int),
        decreases tail.len() - i,
    {
        out.push(tail[i]);
        i = i + 1;
    }
}

/// Tests whether `pat` stands in `s` at position `at`.
pub fn starts_at(s: &Vec<char>, pat: &Vec<char>, at: usize) -> (found: bool)
    ensures
        found == occurs_at(s@, pat@, at as int),
{
    if at > s.len() || pat.len() > s.len() - at {
        return false;
    }
    let mut k: usize = 0;
    while k < pat.len()
        invariant
            k <= pat.len(),
            at + pat.len() <= s.len(),
            forall|j: int| 0 <= j < k ==> s@[at + j] == pat@[j],
        decreases pat.len() - k,
    {
        if s[at + k] != pat[k] {
            proof {
                assert(s@.subrange(at as int, at + pat.len())[k as int] == s@[at + k]);
            }
            return false;
        }
        k = k + 1;
    }
    proof {
        assert(s@.subrange(at as int, at + pat.len()) =~= pat@);
    }
    true
}

/// Unfolding `replace_all` at position `at` of `s`.
proof fn replace_all_step(s: Seq<char>, pat: Seq<char>, to: Seq<char>, at: int)
    requires
        pat.len() > 0,
        0 <= at <= s.len(),
    ensures
        replace_all(s.subrange(at, s.len() as int), pat, to) == if at + pat.len() > s.len() {
            s.subrange(at, s.len() as int)
        } else if occurs_at(s, pat, at) {
            to + replace_all(s.subrange(at + pat.len(), s.len() as int), pat, to)
        } else {
            seq![s[at]] + replace_all(s.subrange(at + 1, s.len() as int), pat, to)
        },
{
    let rest = s.subrange(at, s.len() as int);
    if at + pat.len() <= s.len() {
        assert(rest.subrange(0, pat.len() as int) =~= s.subrange(at, at + pat.len()));
        assert(rest.subrange(pat.len() as int, rest.len() as int) =~= s.subrange(
            at + pat.len(),
            s.len() as int,
        ));
        assert(rest.subrange(1, rest.len() as int) =~= s.subrange(at + 1, s.len() as int));
        assert(rest[0] == s[at]);
    }
}

/// Replaces every occurrence of `pat` in `s` by `to`, left to right.
pub fn replace(s: &Vec<char>, pat: &Vec<char>, to: &Vec<char>) -> (out: Vec<char>)
    ensures
        out@ == replace_all(s@, pat@, to@),
{
    let mut out: Vec<char> = Vec::new();
    if pat.len() == 0 {
        append_chars(&mut out, s);
        proof {
            assert(out@ =~= s@);
        }
        return out;
    }
    let mut i: usize = 0;
    proof {
        assert(s@.subrange(0, s@.len() as int) =~= s@);
    }
    while i < s.len()
        invariant
            pat@.len() > 0,
            i <= s.len(),
            out@ + replace_all(s@.subrange(i as int, s@.len() as int), pat@, to@) == replace_all(
                s@,
                pat@,
                to@,
            ),
        decreases s.len() - i,
    {
        proof {
            replace_all_step(s@, pat@, to@, i as int);
        }
        let ghost before = out@;
        if starts_at(s, pat, i) {
            append_chars(&mut out, to);
            i = i + pat.len();
            proof {
                let rest = replace_all(s@.subrange(i as int, s@.len() as int), pat@, to@);
                assert(out@ + rest =~= before + (to@ + rest));
            }
        } else {
            out.push(s[i]);
            i = i + 1;
            proof {
                let rest = replace_all(s@.subrange(i as int, s@.len() as int), pat@, to@);
                if (i - 1) + pat@.len() > s@.len() {
                    // No room is left for `pat`: the rest is copied as it is.
                    replace_all_step(s@, pat@, to@, i as int);
                    assert(rest =~= s@.subrange(i as int, s@.len() as int)) by {
                        if i < s@.len() {
                        }
                    }
                    assert(before + s@.subrange(i - 1, s@.len() as int) =~= out@ + rest);
                } else {
                    assert(out@ + rest =~= before + (seq![s@[i - 1]] + rest));
                }
            }
        }
    }
    proof {
        assert(s@.subrange(i as int, s@.len() as int) =~= Seq::<char>::empty());
        assert(out@ + Seq::<char>::empty() =~= out@);
    }
    out
}

/// A numeral has at least one digit, and each of its characters is a digit.
pub proof fn law_decimal_is_digits(n: nat)
    ensures
        decimal(n).len() >= 1,
        forall|i: int|
            0 <= i < decimal(n).len() ==> '0' <= #[trigger] decimal(n)[i] <= '9',
    decreases n,
{
    if n >= 10 {
        law_decimal_is_digits(n / 10);
    }
}

/// The digits follow one another in the character set.
proof fn lemma_digit_value(d: nat)
    requires
        d < 10,
    ensures
        digit_char(d) as int == '0' as int + d,
{
}

/// Two numbers with the same numeral are the same number.
pub proof fn law_decimal_is_injective(a: nat, b: nat)
    requires
        decimal(a) == decimal(b),
    ensures
        a == b,
    decreases a,
{
    law_decimal_is_digits(a / 10);
    law_decimal_is_digits(b / 10);
    if a < 10 {
        assert(decimal(a).len() == 1);
        if b >= 10 {
            assert(decimal(b).len() == decimal(b / 10).len() + 1);
            assert(false);
        }
        assert(decimal(a)[0] == digit_char(a));
        assert(decimal(b)[0] == digit_char(b));
        lemma_digit_value(a);
        lemma_digit_value(b);
    } else {
        assert(decimal(a).len() == decimal(a / 10).len() + 1);
        if b < 10 {
            assert(decimal(b).len() == 1);
            assert(false);
        }
        assert(decimal(a / 10) =~= decimal(a).drop_last());
        assert(decimal(b / 10) =~= decimal(b).drop_last());
        law_decimal_is_injective(a / 10, b / 10);
        assert(decimal(a).last() == digit_char(a % 10));
        assert(decimal(b).last() == digit_char(b % 10));
        lemma_digit_value(a % 10);
        lemma_digit_value(b % 10);
        assert(a == 10 * (a / 10) + a % 10);
        assert(b == 10 * (b / 10) + b % 10);
    }
}

} // verus!
