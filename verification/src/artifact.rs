//! Names of the watched artifact and of the private copy that is opened.
//!
//! The watched artifact is the build output. It is never opened: each load
//! works on a private copy whose name carries the load counter, so that a
//! rebuild can overwrite the artifact while the copy is in use.

use crate::text::{
    append_chars, chars_of, decimal, decimal_digits, law_decimal_is_digits,
    law_decimal_is_injective, occurs_at, replace, replace_all, string_of,
};
use vstd::prelude::*;

verus! {

/// The naming convention for dynamic libraries of one operating system.
#[derive(Clone, Copy, Debug, PartialEq, Eq, Structural)]
pub enum Platform {
    Linux,
    Windows,
}

impl Platform {
    /// What the platform puts before a library's base name.
    pub open spec fn prefix(self) -> Seq<char> {
        match self {
            Platform::Linux => "lib"@,
            Platform::Windows => ""@,
        }
    }

    /// The platform's extension of a dynamic library, without the dot.
    pub open spec fn extension(self) -> Seq<char> {
        match self {
            Platform::Linux => "so"@,
            Platform::Windows => "dll"@,
        }
    }

    /// The prefix as a string.
    pub fn file_prefix(&self) -> (out: &'static str)
        ensures
            out@ == self.prefix(),
    {
        match self {
            Platform::Linux => "lib",
            Platform::Windows => "",
        }
    }

    /// The extension as a string.
    pub fn file_extension(&self) -> (out: &'static str)
        ensures
            out@ == self.extension(),
    {
        match self {
            Platform::Linux => "so",
            Platform::Windows => "dll",
        }
    }
}

/// The file name of the watched artifact: prefix, base name, dot, extension.
pub open spec fn watched_name(platform: Platform, lib_name: Seq<char>) -> Seq<char> {
    platform.prefix() + lib_name + "."@ + platform.extension()
}

/// A template with its three placeholders filled in, one after the other:
/// first `{lib_name}`, then `{load_counter}`, then `{pid}`.
pub open spec fn expand_template(
    template: Seq<char>,
    lib_name: Seq<char>,
    load_counter: nat,
    pid: nat,
) -> Seq<char> {
    replace_all(
        replace_all(
            replace_all(template, "{lib_name}"@, lib_name),
            "{load_counter}"@,
            decimal(load_counter),
        ),
        "{pid}"@,
        decimal(pid),
    )
}

/// The name of the private copy before its extension: the expanded template,
/// or, without a template, the base name, `-hot-` and the load counter.
pub open spec fn loaded_stem(
    lib_name: Seq<char>,
    load_counter: nat,
    pid: nat,
    template: Option<Seq<char>>,
) -> Seq<char> {
    match template {
        Some(t) => expand_template(t, lib_name, load_counter, pid),
        None => lib_name + "-hot-"@ + decimal(load_counter),
    }
}

/// The file name of the private copy: its stem, a dot and the platform's extension.
pub open spec fn loaded_name(
    platform: Platform,
    lib_name: Seq<char>,
    load_counter: nat,
    pid: nat,
    template: Option<Seq<char>>,
) -> Seq<char> {
    loaded_stem(lib_name, load_counter, pid, template) + "."@ + platform.extension()
}

/// The view of an optional template.
pub open spec fn template_view(template: Option<String>) -> Option<Seq<char>> {
    match template {
        Some(t) => Some(t@),
        None => None,
    }
}

/// Fills the placeholders of `template`.
pub fn expand(template: &str, lib_name: &str, load_counter: usize, pid: u32) -> (out: Vec<char>)
    ensures
        out@ == expand_template(template@, lib_name@, load_counter as nat, pid as nat),
{
    let named = replace(&chars_of(template), &chars_of("{lib_name}"), &chars_of(lib_name));
    let counted = replace(
        &named,
        &chars_of("{load_counter}"),
        &decimal_digits(load_counter as u64),
    );
    replace(&counted, &chars_of("{pid}"), &decimal_digits(pid as u64))
}

/// The file names, relative to the library directory, of the watched artifact
/// and of the private copy for load number `load_counter`.
pub fn watched_and_loaded_library_paths(
    platform: Platform,
    lib_name: &str,
    load_counter: usize,
    pid: u32,
    loaded_lib_name_template: &Option<String>,
) -> (names: (String, String))
    ensures
        names.0@ == watched_name(platform, lib_name@),
        names.1@ == loaded_name(
            platform,
            lib_name@,
            load_counter as nat,
            pid as nat,
            template_view(*loaded_lib_name_template),
        ),
{
    let dot = chars_of(".");
    let ext = chars_of(platform.file_extension());
    let base = chars_of(lib_name);

    let mut watched = chars_of(platform.file_prefix());
    append_chars(&mut watched, &base);
    append_chars(&mut watched, &dot);
    append_chars(&mut watched, &ext);

    let mut loaded = match loaded_lib_name_template {
        Some(template) => expand(template.as_str(), lib_name, load_counter, pid),
        None => {
            let mut stem = base;
            append_chars(&mut stem, &chars_of("-hot-"));
            append_chars(&mut stem, &decimal_digits(load_counter as u64));
            stem
        },
    };
    append_chars(&mut loaded, &dot);
    append_chars(&mut loaded, &ext);

    (string_of(&watched), string_of(&loaded))
}

/// Without a template, copies with different counters have different names:
/// a reload never copies over the file that the last load opened.
pub proof fn law_default_copies_differ(
    platform: Platform,
    lib_name: Seq<char>,
    pid: nat,
    one: nat,
    other: nat,
)
    requires
        one != other,
    ensures
        loaded_name(platform, lib_name, one, pid, None) != loaded_name(
            platform,
            lib_name,
            other,
            pid,
            None,
        ),
{
    let head = lib_name + "-hot-"@;
    let tail = "."@ + platform.extension();
    let a = loaded_name(platform, lib_name, one, pid, None);
    let b = loaded_name(platform, lib_name, other, pid, None);
    assert(a =~= head + decimal(one) + tail);
    assert(b =~= head + decimal(other) + tail);
    if a == b {
        assert(a.len() == b.len());
        assert(decimal(one).len() == decimal(other).len());
        assert(decimal(one) =~= a.subrange(
            head.len() as int,
            (head.len() + decimal(one).len()) as int,
        ));
        assert(decimal(other) =~= b.subrange(
            head.len() as int,
            (head.len() + decimal(other).len()) as int,
        ));
        law_decimal_is_injective(one, other);
    }
}

/// The placeholder for the load counter.
pub open spec fn counter_mark() -> Seq<char> {
    "{load_counter}"@
}

/// The placeholder for the number of the process.
pub open spec fn pid_mark() -> Seq<char> {
    "{pid}"@
}

/// The placeholder for the base name.
pub open spec fn name_mark() -> Seq<char> {
    "{lib_name}"@
}

/// Whether `c` is a decimal digit.
spec fn is_digit(c: char) -> bool {
    '0' <= c <= '9'
}

/// Whether `d` is made of digits only.
spec fn all_digits(d: Seq<char>) -> bool {
    forall|i: int| 0 <= i < d.len() ==> is_digit(#[trigger] d[i])
}

/// The placeholders, character by character.
proof fn lemma_marks()
    ensures
        name_mark() =~= seq!['{', 'l', 'i', 'b', '_', 'n', 'a', 'm', 'e', '}'],
        counter_mark() =~= seq![
            '{',
            'l',
            'o',
            'a',
            'd',
            '_',
            'c',
            'o',
            'u',
            'n',
            't',
            'e',
            'r',
            '}',
        ],
        pid_mark() =~= seq!['{', 'p', 'i', 'd', '}'],
{
    reveal_strlit("{lib_name}");
    reveal_strlit("{load_counter}");
    reveal_strlit("{pid}");
}

/// The counter and the pid filled into `s` in one pass from the left.
spec fn filled(s: Seq<char>, counter: Seq<char>, pid: Seq<char>) -> Seq<char>
    decreases s.len(),
{
    if s.len() == 0 {
        s
    } else if s.len() >= 14 && s.subrange(0, 14) == counter_mark() {
        counter + filled(s.subrange(14, s.len() as int), counter, pid)
    } else if s.len() >= 5 && s.subrange(0, 5) == pid_mark() {
        pid + filled(s.subrange(5, s.len() as int), counter, pid)
    } else {
        seq![s[0]] + filled(s.subrange(1, s.len() as int), counter, pid)
    }
}

/// How often the counter is filled into `s`.
spec fn counter_slots(s: Seq<char>) -> nat
    decreases s.len(),
{
    if s.len() == 0 {
        0
    } else if s.len() >= 14 && s.subrange(0, 14) == counter_mark() {
        1 + counter_slots(s.subrange(14, s.len() as int))
    } else if s.len() >= 5 && s.subrange(0, 5) == pid_mark() {
        counter_slots(s.subrange(5, s.len() as int))
    } else {
        counter_slots(s.subrange(1, s.len() as int))
    }
}

/// Digits are passed over when the pid is filled in.
proof fn lemma_digits_pass(d: Seq<char>, y: Seq<char>, p: Seq<char>)
    requires
        all_digits(d),
    ensures
        replace_all(d + y, pid_mark(), p) == d + replace_all(y, pid_mark(), p),
    decreases d.len(),
{
    lemma_marks();
    let x = d + y;
    let filled_y = replace_all(y, pid_mark(), p);
    if d.len() == 0 {
        assert(x =~= y);
        assert(d + filled_y =~= filled_y);
    } else {
        let rest = d.drop_first();
        assert(x.subrange(1, x.len() as int) =~= rest + y);
        assert(all_digits(rest)) by {
            assert forall|i: int| 0 <= i < rest.len() implies is_digit(#[trigger] rest[i]) by {
                assert(rest[i] == d[i + 1]);
            }
        }
        lemma_digits_pass(rest, y, p);
        assert(is_digit(d[0]));
        if x.len() < 5 {
            assert(replace_all(x, pid_mark(), p) == x);
            assert(replace_all(rest + y, pid_mark(), p) == rest + y);
            assert(d + filled_y =~= x);
        } else {
            assert(x.subrange(0, 5)[0] == d[0]);
            assert(pid_mark()[0] == '{');
            assert(seq![x[0]] + (rest + filled_y) =~= d + filled_y);
        }
    }
}

/// Where the counter's placeholder stands at none of the first `k`
/// positions, filling the counter in leaves the first `k` characters.
proof fn lemma_counter_skips(s: Seq<char>, d: Seq<char>, k: int)
    requires
        0 <= k <= s.len(),
        forall|i: int| 0 <= i < k ==> !occurs_at(s, counter_mark(), i),
    ensures
        replace_all(s, counter_mark(), d) == s.subrange(0, k) + replace_all(
            s.subrange(k, s.len() as int),
            counter_mark(),
            d,
        ),
    decreases k,
{
    lemma_marks();
    let mark = counter_mark();
    if k == 0 {
        assert(s.subrange(0, s.len() as int) =~= s);
        assert(s.subrange(0, 0) + replace_all(s, mark, d) =~= replace_all(s, mark, d));
    } else if s.len() < 14 {
        assert(s.subrange(0, k) + s.subrange(k, s.len() as int) =~= s);
    } else {
        let t = s.subrange(1, s.len() as int);
        assert(!occurs_at(s, mark, 0));
        assert(s.subrange(0, 14) != mark);
        assert forall|i: int| 0 <= i < k - 1 implies !occurs_at(t, mark, i) by {
            assert(!occurs_at(s, mark, i + 1));
            if occurs_at(t, mark, i) {
                assert(t.subrange(i, i + 14) =~= s.subrange(i + 1, i + 1 + 14));
            }
        }
        lemma_counter_skips(t, d, k - 1);
        assert(t.subrange(k - 1, t.len() as int) =~= s.subrange(k, s.len() as int));
        assert(seq![s[0]] + (t.subrange(0, k - 1) + replace_all(
            s.subrange(k, s.len() as int),
            mark,
            d,
        )) =~= s.subrange(0, k) + replace_all(s.subrange(k, s.len() as int), mark, d));
    }
}

/// What is no digit at the start of a text with the counter filled in was
/// there before.
proof fn lemma_counter_keeps_others(t: Seq<char>, d: Seq<char>, k: int)
    requires
        d.len() > 0,
        all_digits(d),
        0 <= k <= replace_all(t, counter_mark(), d).len(),
        forall|i: int| 0 <= i < k ==> !is_digit(#[trigger] replace_all(t, counter_mark(), d)[i]),
    ensures
        k <= t.len(),
        forall|i: int| 0 <= i < k ==> #[trigger] t[i] == replace_all(t, counter_mark(), d)[i],
    decreases k,
{
    lemma_marks();
    let mark = counter_mark();
    let a = replace_all(t, mark, d);
    if k > 0 {
        if t.len() < 14 {
        } else if t.subrange(0, 14) == mark {
            assert(a[0] == d[0]);
            assert(is_digit(d[0]));
            assert(false);
        } else {
            let rest = t.subrange(1, t.len() as int);
            let b = replace_all(rest, mark, d);
            assert(a == seq![t[0]] + b);
            assert forall|i: int| 0 <= i < k - 1 implies !is_digit(#[trigger] b[i]) by {
                assert(b[i] == a[i + 1]);
            }
            lemma_counter_keeps_others(rest, d, k - 1);
            assert forall|i: int| 0 <= i < k implies #[trigger] t[i] == a[i] by {
                if i > 0 {
                    assert(rest[i - 1] == t[i]);
                    assert(b[i - 1] == a[i]);
                }
            }
        }
    }
}

/// Filling in the counter and then the pid is one pass from the left.
proof fn lemma_one_pass(s: Seq<char>, d: Seq<char>, p: Seq<char>)
    requires
        d.len() > 0,
        all_digits(d),
    ensures
        replace_all(replace_all(s, counter_mark(), d), pid_mark(), p) == filled(s, d, p),
    decreases s.len(),
{
    lemma_marks();
    let cm = counter_mark();
    let pm = pid_mark();
    let a = replace_all(s, cm, d);
    if s.len() == 0 {
    } else if s.len() >= 14 && s.subrange(0, 14) == cm {
        let rest = s.subrange(14, s.len() as int);
        lemma_one_pass(rest, d, p);
        lemma_digits_pass(d, replace_all(rest, cm, d), p);
    } else if s.len() >= 5 && s.subrange(0, 5) == pm {
        let rest = s.subrange(5, s.len() as int);
        lemma_one_pass(rest, d, p);
        assert forall|i: int| 0 <= i < 5 implies !occurs_at(s, cm, i) by {
            if occurs_at(s, cm, i) {
                assert(s.subrange(i, i + 14)[0] == s[i]);
                assert(s.subrange(0, 5)[i] == s[i]);
                assert(cm[0] == '{');
                if i == 0 {
                    assert(s.subrange(0, 14)[1] == s[1]);
                    assert(s.subrange(0, 5)[1] == s[1]);
                }
            }
        }
        lemma_counter_skips(s, d, 5);
        let b = replace_all(rest, cm, d);
        assert(a == pm + b);
        assert(a.subrange(0, 5) =~= pm);
        assert(a.subrange(5, a.len() as int) =~= b);
    } else {
        let rest = s.subrange(1, s.len() as int);
        lemma_one_pass(rest, d, p);
        let b = replace_all(rest, cm, d);
        assert(a == seq![s[0]] + b) by {
            if s.len() < 14 {
                assert(b == rest);
                assert(seq![s[0]] + rest =~= s);
            }
        }
        assert(a.subrange(1, a.len() as int) =~= b);
        if a.len() >= 5 && a.subrange(0, 5) == pm {
            // The pid's placeholder would have stood in `s` already.
            assert forall|i: int| 0 <= i < 4 implies !is_digit(#[trigger] b[i]) by {
                assert(b[i] == a.subrange(0, 5)[i + 1]);
            }
            lemma_counter_keeps_others(rest, d, 4);
            assert(s.subrange(0, 5) =~= pm) by {
                assert(a.subrange(0, 5)[0] == s[0]);
                assert forall|i: int| 1 <= i < 5 implies s[i] == pm[i] by {
                    assert(rest[i - 1] == s[i]);
                    assert(b[i - 1] == a.subrange(0, 5)[i]);
                }
            }
            assert(false);
        }
        if a.len() < 5 {
            assert(replace_all(b, pm, p) == b);
        }
    }
}

/// The length of a filled text grows with the length of the counter, once
/// for each place where the counter is filled in.
proof fn lemma_filled_len(s: Seq<char>, d: Seq<char>, p: Seq<char>)
    ensures
        filled(s, d, p).len() == filled(s, Seq::empty(), p).len() + counter_slots(s) * d.len(),
    decreases s.len(),
{
    let none = Seq::<char>::empty();
    if s.len() == 0 {
        assert(counter_slots(s) * d.len() == 0) by (nonlinear_arith)
            requires
                counter_slots(s) == 0,
        ;
    } else if s.len() >= 14 && s.subrange(0, 14) == counter_mark() {
        let rest = s.subrange(14, s.len() as int);
        lemma_filled_len(rest, d, p);
        assert(counter_slots(s) * d.len() == d.len() + counter_slots(rest) * d.len())
            by (nonlinear_arith)
            requires
                counter_slots(s) == 1 + counter_slots(rest),
        ;
    } else if s.len() >= 5 && s.subrange(0, 5) == pid_mark() {
        lemma_filled_len(s.subrange(5, s.len() as int), d, p);
    } else {
        lemma_filled_len(s.subrange(1, s.len() as int), d, p);
    }
}

/// Two counters of one length that fill a text to the same result are the
/// same, where the counter is filled in at all.
proof fn lemma_fill_same_len(s: Seq<char>, d1: Seq<char>, d2: Seq<char>, p: Seq<char>)
    requires
        d1.len() == d2.len(),
        counter_slots(s) >= 1,
        filled(s, d1, p) == filled(s, d2, p),
    ensures
        d1 == d2,
    decreases s.len(),
{
    let f1 = filled(s, d1, p);
    let f2 = filled(s, d2, p);
    if s.len() == 0 {
    } else if s.len() >= 14 && s.subrange(0, 14) == counter_mark() {
        assert(f1.subrange(0, d1.len() as int) =~= d1);
        assert(f2.subrange(0, d2.len() as int) =~= d2);
    } else if s.len() >= 5 && s.subrange(0, 5) == pid_mark() {
        let rest = s.subrange(5, s.len() as int);
        assert(f1.subrange(p.len() as int, f1.len() as int) =~= filled(rest, d1, p));
        assert(f2.subrange(p.len() as int, f2.len() as int) =~= filled(rest, d2, p));
        lemma_fill_same_len(rest, d1, d2, p);
    } else {
        let rest = s.subrange(1, s.len() as int);
        assert(f1.subrange(1, f1.len() as int) =~= filled(rest, d1, p));
        assert(f2.subrange(1, f2.len() as int) =~= filled(rest, d2, p));
        lemma_fill_same_len(rest, d1, d2, p);
    }
}

/// Two counters that fill a text to the same result are the same, where the
/// counter is filled in at all.
proof fn lemma_fill_is_injective(s: Seq<char>, d1: Seq<char>, d2: Seq<char>, p: Seq<char>)
    requires
        counter_slots(s) >= 1,
        filled(s, d1, p) == filled(s, d2, p),
    ensures
        d1 == d2,
{
    lemma_filled_len(s, d1, p);
    lemma_filled_len(s, d2, p);
    assert(d1.len() == d2.len()) by (nonlinear_arith)
        requires
            counter_slots(s) >= 1,
            counter_slots(s) * d1.len() == counter_slots(s) * d2.len(),
    ;
    lemma_fill_same_len(s, d1, d2, p);
}

/// Where the counter's placeholder stands in a text, the counter is filled in.
proof fn lemma_mark_is_filled(s: Seq<char>, at: int)
    requires
        occurs_at(s, counter_mark(), at),
    ensures
        counter_slots(s) >= 1,
    decreases s.len(),
{
    lemma_marks();
    let cm = counter_mark();
    let pm = pid_mark();
    assert(s.subrange(at, at + 14)[0] == s[at]);
    if s.subrange(0, 14) == cm {
    } else if s.subrange(0, 5) == pm {
        if 1 <= at < 5 {
            assert(s.subrange(0, 5)[at] == s[at]);
            assert(false);
        }
        let rest = s.subrange(5, s.len() as int);
        assert(rest.subrange(at - 5, at - 5 + 14) =~= s.subrange(at, at + 14));
        lemma_mark_is_filled(rest, at - 5);
    } else {
        let rest = s.subrange(1, s.len() as int);
        assert(rest.subrange(at - 1, at - 1 + 14) =~= s.subrange(at, at + 14));
        lemma_mark_is_filled(rest, at - 1);
    }
}

/// Filling in the name leaves what stands before the first opening brace.
proof fn lemma_name_keeps_prefix(t: Seq<char>, name: Seq<char>, k: int)
    requires
        0 <= k <= t.len(),
        forall|i: int| 0 <= i < k ==> #[trigger] t[i] != '{',
    ensures
        replace_all(t, name_mark(), name).len() >= k,
        forall|i: int| 0 <= i < k ==> #[trigger] replace_all(t, name_mark(), name)[i] == t[i],
    decreases k,
{
    lemma_marks();
    let nm = name_mark();
    let r = replace_all(t, nm, name);
    if k > 0 {
        if t.len() < 10 {
        } else {
            assert(t.subrange(0, 10)[0] == t[0]);
            assert(nm[0] == '{');
            let rest = t.subrange(1, t.len() as int);
            let b = replace_all(rest, nm, name);
            assert(r == seq![t[0]] + b);
            assert forall|i: int| 0 <= i < k - 1 implies #[trigger] rest[i] != '{' by {
                assert(rest[i] == t[i + 1]);
            }
            lemma_name_keeps_prefix(rest, name, k - 1);
            assert forall|i: int| 0 <= i < k implies #[trigger] r[i] == t[i] by {
                if i > 0 {
                    assert(r[i] == b[i - 1]);
                    assert(rest[i - 1] == t[i]);
                }
            }
        }
    }
}

/// Where the counter's placeholder stands in a template, it stands in the
/// template with the name filled in.
proof fn lemma_name_keeps_counter_mark(t: Seq<char>, name: Seq<char>, at: int) -> (found: int)
    requires
        occurs_at(t, counter_mark(), at),
    ensures
        occurs_at(replace_all(t, name_mark(), name), counter_mark(), found),
    decreases t.len(),
{
    lemma_marks();
    let cm = counter_mark();
    let nm = name_mark();
    let r = replace_all(t, nm, name);
    assert(t[at] == '{') by {
        assert(t.subrange(at, at + 14)[0] == t[at]);
    }
    if t.subrange(0, 10) == nm {
        if at == 0 {
            assert(t.subrange(0, 14)[2] == t[2]);
            assert(t.subrange(0, 10)[2] == t[2]);
            assert(false);
        }
        if 1 <= at < 10 {
            assert(t.subrange(0, 10)[at] == t[at]);
            assert(false);
        }
        let rest = t.subrange(10, t.len() as int);
        assert(rest.subrange(at - 10, at - 10 + 14) =~= t.subrange(at, at + 14));
        let inner = lemma_name_keeps_counter_mark(rest, name, at - 10);
        let b = replace_all(rest, nm, name);
        assert(r == name + b);
        assert(r.subrange(name.len() + inner, name.len() + inner + 14) =~= b.subrange(
            inner,
            inner + 14,
        ));
        name.len() + inner
    } else {
        let rest = t.subrange(1, t.len() as int);
        let b = replace_all(rest, nm, name);
        assert(r == seq![t[0]] + b);
        if at >= 1 {
            assert(rest.subrange(at - 1, at - 1 + 14) =~= t.subrange(at, at + 14));
            let inner = lemma_name_keeps_counter_mark(rest, name, at - 1);
            assert(r.subrange(inner + 1, inner + 1 + 14) =~= b.subrange(inner, inner + 14));
            inner + 1
        } else {
            assert forall|i: int| 0 <= i < 13 implies #[trigger] rest[i] != '{' by {
                assert(rest[i] == t[i + 1]);
                assert(t.subrange(0, 14)[i + 1] == t[i + 1]);
            }
            lemma_name_keeps_prefix(rest, name, 13);
            assert(r.subrange(0, 14) =~= cm) by {
                assert forall|i: int| 0 <= i < 14 implies r.subrange(0, 14)[i] == cm[i] by {
                    assert(t.subrange(0, 14)[i] == t[i]);
                    if i > 0 {
                        assert(r[i] == b[i - 1]);
                        assert(rest[i - 1] == t[i]);
                    }
                }
            }
            0
        }
    }
}

/// With a template that holds the placeholder of the load counter, copies
/// with different counters have different names, whatever the base name and
/// the number of the process are: each copy carries its counter.
pub proof fn law_templated_copies_differ(
    platform: Platform,
    lib_name: Seq<char>,
    pid: nat,
    template: Seq<char>,
    at: int,
    one: nat,
    other: nat,
)
    requires
        occurs_at(template, counter_mark(), at),
        one != other,
    ensures
        loaded_name(platform, lib_name, one, pid, Some(template)) != loaded_name(
            platform,
            lib_name,
            other,
            pid,
            Some(template),
        ),
{
    let named = replace_all(template, name_mark(), lib_name);
    let found = lemma_name_keeps_counter_mark(template, lib_name, at);
    lemma_mark_is_filled(named, found);
    law_decimal_is_digits(one);
    law_decimal_is_digits(other);
    lemma_one_pass(named, decimal(one), decimal(pid));
    lemma_one_pass(named, decimal(other), decimal(pid));
    let stem_one = expand_template(template, lib_name, one, pid);
    let stem_other = expand_template(template, lib_name, other, pid);
    assert(stem_one == filled(named, decimal(one), decimal(pid)));
    assert(stem_other == filled(named, decimal(other), decimal(pid)));
    let tail = "."@ + platform.extension();
    let a = loaded_name(platform, lib_name, one, pid, Some(template));
    let b = loaded_name(platform, lib_name, other, pid, Some(template));
    assert(a =~= stem_one + tail);
    assert(b =~= stem_other + tail);
    if a == b {
        assert(stem_one.len() == stem_other.len());
        assert(stem_one =~= a.subrange(0, stem_one.len() as int));
        assert(stem_other =~= b.subrange(0, stem_other.len() as int));
        lemma_fill_is_injective(named, decimal(one), decimal(other), decimal(pid));
        law_decimal_is_injective(one, other);
    }
}

} // verus!
