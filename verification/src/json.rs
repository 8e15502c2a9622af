//! JSON rendering of field values, objects and record lists, in a compact
//! form and a two-space-indented pretty form.
//!
//! Record lists render as an array of objects; within a pretty-printed
//! document, objects sit at depth one and their fields at depth two, so the
//! indent widths here are fixed rather than parameterized.

use vstd::prelude::*;
use crate::chars::string_from_chars;
use crate::numbers::{digit_char, fmt_i64};

verus! {

/// The lower-case hex digit for a value below sixteen.
pub open spec fn hex_char(d: nat) -> char {
    if d < 10 {
        digit_char(d)
    } else {
        (('a' as nat + d - 10) as u32) as char
    }
}

/// The escape sequence a character renders as inside a JSON string.
pub open spec fn esc_char(c: char) -> Seq<char> {
    if c == '"' {
        seq!['\\', '"']
    } else if c == '\\' {
        seq!['\\', '\\']
    } else if c == '\n' {
        seq!['\\', 'n']
    } else if c == '\r' {
        seq!['\\', 'r']
    } else if c == '\t' {
        seq!['\\', 't']
    } else if c == '\u{8}' {
        seq!['\\', 'b']
    } else if c == '\u{c}' {
        seq!['\\', 'f']
    } else if 0 <= c as int && (c as int) < 32 {
        seq!['\\', 'u', '0', '0', hex_char((c as int / 16) as nat), hex_char((c as int % 16) as nat)]
    } else {
        seq![c]
    }
}

/// A string's characters, each escaped.
pub open spec fn escape(s: Seq<char>) -> Seq<char>
    decreases s.len(),
{
    if s.len() == 0 {
        seq![]
    } else {
        escape(s.drop_last()) + esc_char(s.last())
    }
}

/// A JSON string literal: quotes around the escaped characters.
pub open spec fn jstr(s: Seq<char>) -> Seq<char> {
    seq!['"'] + escape(s) + seq!['"']
}

/// A JSON boolean literal.
pub open spec fn jbool(b: bool) -> Seq<char> {
    if b {
        "true"@
    } else {
        "false"@
    }
}

/// An optional integer: its decimal digits, or `null` when absent.
pub open spec fn jopt_int(o: Option<int>) -> Seq<char> {
    match o {
        Some(n) => crate::numbers::dec_int(n),
        None => "null"@,
    }
}

/// An optional number kept as text: the text itself, or `null` when absent.
pub open spec fn jopt_num(o: Option<Seq<char>>) -> Seq<char> {
    match o {
        Some(t) => t,
        None => "null"@,
    }
}

/// The pieces joined with the separator between neighbours.
pub open spec fn join_with(items: Seq<Seq<char>>, sep: Seq<char>) -> Seq<char>
    decreases items.len(),
{
    if items.len() == 0 {
        seq![]
    } else if items.len() == 1 {
        items[0]
    } else {
        items[0] + sep + join_with(items.drop_first(), sep)
    }
}

/// Joining one more piece appends a separator and the piece.
pub proof fn lemma_join_push(items: Seq<Seq<char>>, sep: Seq<char>, x: Seq<char>)
    ensures
        items.len() == 0 ==> join_with(items.push(x), sep) == x,
        items.len() > 0 ==> join_with(items.push(x), sep) == join_with(items, sep) + sep + x,
    decreases items.len(),
{
    let p = items.push(x);
    if items.len() == 0 {
        assert(join_with(p, sep) == p[0]);
        assert(p[0] == x);
    } else {
        assert(p.drop_first() =~= items.drop_first().push(x));
        lemma_join_push(items.drop_first(), sep, x);
        if items.len() == 1 {
            assert(items.drop_first().len() == 0);
            assert(join_with(p, sep) == p[0] + sep + join_with(p.drop_first(), sep));
            assert(join_with(p.drop_first(), sep) == x);
            assert(join_with(items, sep) == items[0]);
            assert(p[0] == items[0]);
        } else {
            assert(join_with(p, sep) == p[0] + sep + join_with(p.drop_first(), sep));
            assert(join_with(p.drop_first(), sep) == join_with(items.drop_first(), sep) + sep + x);
            assert(join_with(items, sep) == items[0] + sep + join_with(items.drop_first(), sep));
            assert(p[0] + sep + (join_with(items.drop_first(), sep) + sep + x) =~= (items[0] + sep
                + join_with(items.drop_first(), sep)) + sep + x);
        }
    }
}

/// A run of spaces.
pub open spec fn spaces(n: nat) -> Seq<char> {
    Seq::new(n, |i: int| ' ')
}

/// A string-list value, such as a keywords column: a JSON array of strings.
/// The pretty form puts each element on its own line at depth three.
pub open spec fn jlist(ks: Seq<Seq<char>>, pretty: bool) -> Seq<char> {
    if !pretty {
        seq!['['] + join_with(ks.map_values(|k: Seq<char>| jstr(k)), seq![',']) + seq![']']
    } else if ks.len() == 0 {
        seq!['[', ']']
    } else {
        seq!['[', '\n'] + join_with(
            ks.map_values(|k: Seq<char>| spaces(6) + jstr(k)),
            seq![',', '\n'],
        ) + seq!['\n'] + spaces(4) + seq![']']
    }
}

/// One record as a JSON object from rendered key/value pairs, fields in
/// pair order.
pub open spec fn obj(pairs: Seq<(Seq<char>, Seq<char>)>, pretty: bool) -> Seq<char> {
    if !pretty {
        seq!['{'] + join_with(
            pairs.map_values(|p: (Seq<char>, Seq<char>)| jstr(p.0) + seq![':'] + p.1),
            seq![','],
        ) + seq!['}']
    } else {
        seq!['{', '\n'] + join_with(
            pairs.map_values(|p: (Seq<char>, Seq<char>)| spaces(4) + jstr(p.0) + seq![':', ' '] + p.1),
            seq![',', '\n'],
        ) + seq!['\n'] + spaces(2) + seq!['}']
    }
}

/// A record list as a JSON array of already-rendered objects.
pub open spec fn arr(items: Seq<Seq<char>>, pretty: bool) -> Seq<char> {
    if !pretty {
        seq!['['] + join_with(items, seq![',']) + seq![']']
    } else if items.len() == 0 {
        seq!['[', ']']
    } else {
        seq!['[', '\n'] + join_with(
            items.map_values(|o: Seq<char>| spaces(2) + o),
            seq![',', '\n'],
        ) + seq!['\n', ']']
    }
}

fn hex_char_exec(d: u32) -> (c: char)
    requires
        d < 16,
    ensures
        c == hex_char(d as nat),
{
    if d < 10 {
        (48 + d as u8) as char
    } else {
        (97 + (d - 10) as u8) as char
    }
}

fn push_esc_char(out: &mut Vec<char>, c: char)
    ensures
        final(out)@ == old(out)@ + esc_char(c),
{
    if c == '"' {
        out.push('\\');
        out.push('"');
    } else if c == '\\' {
        out.push('\\');
        out.push('\\');
    } else if c == '\n' {
        out.push('\\');
        out.push('n');
    } else if c == '\r' {
        out.push('\\');
        out.push('r');
    } else if c == '\t' {
        out.push('\\');
        out.push('t');
    } else if c == '\u{8}' {
        out.push('\\');
        out.push('b');
    } else if c == '\u{c}' {
        out.push('\\');
        out.push('f');
    } else if (c as u32) < 32 {
        proof {
            assert((c as u32) as int == c as int);
        }
        out.push('\\');
        out.push('u');
        out.push('0');
        out.push('0');
        out.push(hex_char_exec(c as u32 / 16));
        out.push(hex_char_exec(c as u32 % 16));
    } else {
        out.push(c);
    }
    assert(out@ =~= old(out)@ + esc_char(c));
}

/// Renders a JSON string literal for `s`.
pub fn jstr_exec(s: &str) -> (r: String)
    ensures
        r@ == jstr(s@),
{
    let v = crate::chars::chars_of(s);
    let mut out: Vec<char> = Vec::new();
    out.push('"');
    let mut i: usize = 0;
    while i < v.len()
        invariant
            0 <= i <= v@.len(),
            v@ == s@,
            out@ == seq!['"'] + escape(v@.take(i as int)),
        decreases v@.len() - i,
    {
        push_esc_char(&mut out, v[i]);
        proof {
            assert(v@.take(i + 1).drop_last() =~= v@.take(i as int));
            assert(v@.take(i + 1).last() == v@[i as int]);
            assert(seq!['"'] + escape(v@.take(i as int)) + esc_char(v@[i as int]) =~= seq!['"']
                + escape(v@.take(i + 1)));
        }
        i = i + 1;
    }
    out.push('"');
    proof {
        assert(v@.take(v@.len() as int) =~= v@);
        assert(out@ =~= jstr(s@));
    }
    string_from_chars(&out)
}

/// Renders an optional integer value.
pub fn jopt_int_exec(o: Option<i64>) -> (r: String)
    ensures
        r@ == jopt_int(match o {
            Some(n) => Some(n as int),
            None => None,
        }),
{
    match o {
        Some(n) => string_from_chars(&fmt_i64(n)),
        None => String::from_str("null"),
    }
}

/// Renders an optional text-preserved number value.
pub fn jopt_num_exec(o: &Option<String>) -> (r: String)
    ensures
        r@ == jopt_num(o.deep_view()),
{
    match o {
        Some(t) => {
            let mut m = String::new();
            m.append(t.as_str());
            proof {
                assert(m@ =~= t@);
            }
            m
        },
        None => String::from_str("null"),
    }
}

/// Renders a boolean value.
pub fn jbool_exec(b: bool) -> (r: String)
    ensures
        r@ == jbool(b),
{
    if b {
        String::from_str("true")
    } else {
        String::from_str("false")
    }
}

fn push_spaces(out: &mut Vec<char>, n: usize)
    ensures
        final(out)@ == old(out)@ + spaces(n as nat),
{
    let mut i: usize = 0;
    while i < n
        invariant
            0 <= i <= n,
            out@ == old(out)@ + spaces(i as nat),
        decreases n - i,
    {
        out.push(' ');
        proof {
            assert(old(out)@ + spaces(i as nat) + seq![' '] =~= old(out)@ + spaces((i + 1) as nat));
        }
        i = i + 1;
    }
}

fn push_str_chars(out: &mut Vec<char>, s: &str)
    ensures
        final(out)@ == old(out)@ + s@,
{
    let v = crate::chars::chars_of(s);
    let mut i: usize = 0;
    while i < v.len()
        invariant
            0 <= i <= v@.len(),
            v@ == s@,
            out@ == old(out)@ + v@.take(i as int),
        decreases v@.len() - i,
    {
        out.push(v[i]);
        proof {
            assert(old(out)@ + v@.take(i as int) + seq![v@[i as int]] =~= old(out)@ + v@.take(
                i + 1,
            ));
        }
        i = i + 1;
    }
    proof {
        assert(v@.take(v@.len() as int) =~= v@);
    }
}

/// Renders a string-list value.
pub fn jlist_exec(ks: &Vec<String>, pretty: bool) -> (r: String)
    ensures
        r@ == jlist(ks.deep_view(), pretty),
{
    let ghost kv = ks.deep_view();
    let mut out: Vec<char> = Vec::new();
    out.push('[');
    if pretty {
        if ks.len() == 0 {
            out.push(']');
            assert(out@ =~= jlist(kv, true));
            return string_from_chars(&out);
        }
        out.push('\n');
        let ghost f = |k: Seq<char>| spaces(6) + jstr(k);
        let mut i: usize = 0;
        while i < ks.len()
            invariant
                0 <= i <= ks@.len(),
                kv == ks.deep_view(),
                kv.len() == ks@.len(),
                forall|j: int| 0 <= j < ks@.len() ==> #[trigger] kv[j] == ks@[j]@,
                f == (|k: Seq<char>| spaces(6) + jstr(k)),
                out@ == seq!['[', '\n'] + join_with(kv.take(i as int).map_values(f), seq![',', '\n']),
            decreases ks@.len() - i,
        {
            if i > 0 {
                out.push(',');
                out.push('\n');
            }
            push_spaces(&mut out, 6);
            let item = &ks[i];
            let js = jstr_exec(item.as_str());
            push_str_chars(&mut out, js.as_str());
            proof {
                let pre = kv.take(i as int).map_values(f);
                assert(kv.take(i + 1).map_values(f) =~= pre.push(f(kv[i as int])));
                lemma_join_push(pre, seq![',', '\n'], f(kv[i as int]));
                if i == 0 {
                    assert(out@ =~= seq!['[', '\n'] + join_with(
                        kv.take(i + 1).map_values(f),
                        seq![',', '\n'],
                    ));
                } else {
                    assert(out@ =~= seq!['[', '\n'] + join_with(
                        kv.take(i + 1).map_values(f),
                        seq![',', '\n'],
                    ));
                }
            }
            i = i + 1;
        }
        out.push('\n');
        push_spaces(&mut out, 4);
        out.push(']');
        proof {
            assert(kv.take(kv.len() as int) =~= kv);
            assert(out@ =~= jlist(kv, true));
        }
        string_from_chars(&out)
    } else {
        let ghost g = |k: Seq<char>| jstr(k);
        let mut i: usize = 0;
        while i < ks.len()
            invariant
                0 <= i <= ks@.len(),
                kv == ks.deep_view(),
                kv.len() == ks@.len(),
                forall|j: int| 0 <= j < ks@.len() ==> #[trigger] kv[j] == ks@[j]@,
                g == (|k: Seq<char>| jstr(k)),
                out@ == seq!['['] + join_with(kv.take(i as int).map_values(g), seq![',']),
            decreases ks@.len() - i,
        {
            if i > 0 {
                out.push(',');
            }
            let item = &ks[i];
            let js = jstr_exec(item.as_str());
            push_str_chars(&mut out, js.as_str());
            proof {
                let pre = kv.take(i as int).map_values(g);
                assert(kv.take(i + 1).map_values(g) =~= pre.push(g(kv[i as int])));
                lemma_join_push(pre, seq![','], g(kv[i as int]));
                assert(out@ =~= seq!['['] + join_with(kv.take(i + 1).map_values(g), seq![',']));
            }
            i = i + 1;
        }
        out.push(']');
        proof {
            assert(kv.take(kv.len() as int) =~= kv);
            assert(out@ =~= jlist(kv, false));
        }
        string_from_chars(&out)
    }
}

/// Renders one record object from its key/value pairs.
pub fn obj_exec(pairs: &Vec<(String, String)>, pretty: bool) -> (r: String)
    ensures
        r@ == obj(pairs.deep_view(), pretty),
{
    let ghost pv = pairs.deep_view();
    proof {
        assert(pv.len() == pairs@.len());
        assert(forall|j: int|
            0 <= j < pairs@.len() ==> #[trigger] pv[j] == (pairs@[j].0@, pairs@[j].1@));
    }
    let mut out: Vec<char> = Vec::new();
    out.push('{');
    if pretty {
        out.push('\n');
    }
    let ghost fc = |p: (Seq<char>, Seq<char>)| jstr(p.0) + seq![':'] + p.1;
    let ghost fp = |p: (Seq<char>, Seq<char>)| spaces(4) + jstr(p.0) + seq![':', ' '] + p.1;
    let ghost sep: Seq<char> = if pretty {
        seq![',', '\n']
    } else {
        seq![',']
    };
    let ghost head: Seq<char> = if pretty {
        seq!['{', '\n']
    } else {
        seq!['{']
    };
    let mut i: usize = 0;
    while i < pairs.len()
        invariant
            0 <= i <= pairs@.len(),
            pv == pairs.deep_view(),
            pv.len() == pairs@.len(),
            forall|j: int|
                0 <= j < pairs@.len() ==> #[trigger] pv[j] == (pairs@[j].0@, pairs@[j].1@),
            fc == (|p: (Seq<char>, Seq<char>)| jstr(p.0) + seq![':'] + p.1),
            fp == (|p: (Seq<char>, Seq<char>)| spaces(4) + jstr(p.0) + seq![':', ' '] + p.1),
            sep == if pretty { seq![',', '\n'] } else { seq![','] },
            head == if pretty { seq!['{', '\n'] } else { seq!['{'] },
            out@ == head + join_with(
                pv.take(i as int).map_values(if pretty { fp } else { fc }),
                sep,
            ),
        decreases pairs@.len() - i,
    {
        let ghost f = if pretty { fp } else { fc };
        if i > 0 {
            out.push(',');
            if pretty {
                out.push('\n');
            }

        }
        if pretty {
            push_spaces(&mut out, 4);
        }
        let pair = &pairs[i];
        let ks = jstr_exec(pair.0.as_str());
        push_str_chars(&mut out, ks.as_str());
        out.push(':');
        if pretty {
            out.push(' ');
        }
        push_str_chars(&mut out, pair.1.as_str());
        proof {
            let pre = pv.take(i as int).map_values(f);
            assert(pv.take(i + 1).map_values(f) =~= pre.push(f(pv[i as int])));
            lemma_join_push(pre, sep, f(pv[i as int]));
            assert(out@ =~= head + join_with(pv.take(i + 1).map_values(f), sep));
        }
        i = i + 1;
    }
    if pretty {
        out.push('\n');
        push_spaces(&mut out, 2);
    }
    out.push('}');
    proof {
        assert(pv.take(pv.len() as int) =~= pv);
        assert(out@ =~= obj(pv, pretty));
    }
    string_from_chars(&out)
}

/// Renders the whole document from already-rendered record objects.
pub fn arr_exec(items: &Vec<String>, pretty: bool) -> (r: String)
    ensures
        r@ == arr(items.deep_view(), pretty),
{
    let ghost iv = items.deep_view();
    proof {
        assert(iv.len() == items@.len());
        assert(forall|j: int| 0 <= j < items@.len() ==> #[trigger] iv[j] == items@[j]@);
    }
    let mut out: Vec<char> = Vec::new();
    out.push('[');
    if pretty {
        if items.len() == 0 {
            out.push(']');
            assert(out@ =~= arr(iv, true));
            return string_from_chars(&out);
        }
        out.push('\n');
        let ghost f = |o: Seq<char>| spaces(2) + o;
        let mut i: usize = 0;
        while i < items.len()
            invariant
                0 <= i <= items@.len(),
                iv == items.deep_view(),
                iv.len() == items@.len(),
                forall|j: int| 0 <= j < items@.len() ==> #[trigger] iv[j] == items@[j]@,
                f == (|o: Seq<char>| spaces(2) + o),
                out@ == seq!['[', '\n'] + join_with(iv.take(i as int).map_values(f), seq![',', '\n']),
            decreases items@.len() - i,
        {
            if i > 0 {
                out.push(',');
                out.push('\n');
            }
            push_spaces(&mut out, 2);
            let item = &items[i];
            push_str_chars(&mut out, item.as_str());
            proof {
                let pre = iv.take(i as int).map_values(f);
                assert(iv.take(i + 1).map_values(f) =~= pre.push(f(iv[i as int])));
                lemma_join_push(pre, seq![',', '\n'], f(iv[i as int]));
                assert(out@ =~= seq!['[', '\n'] + join_with(
                    iv.take(i + 1).map_values(f),
                    seq![',', '\n'],
                ));
            }
            i = i + 1;
        }
        out.push('\n');
        out.push(']');
        proof {
            assert(iv.take(iv.len() as int) =~= iv);
            assert(out@ =~= arr(iv, true));
        }
        string_from_chars(&out)
    } else {
        let mut i: usize = 0;
        while i < items.len()
            invariant
                0 <= i <= items@.len(),
                iv == items.deep_view(),
                iv.len() == items@.len(),
                forall|j: int| 0 <= j < items@.len() ==> #[trigger] iv[j] == items@[j]@,
                out@ == seq!['['] + join_with(iv.take(i as int), seq![',']),
            decreases items@.len() - i,
        {
            if i > 0 {
                out.push(',');
            }
            let item = &items[i];
            push_str_chars(&mut out, item.as_str());
            proof {
                let pre = iv.take(i as int);
                assert(iv.take(i + 1) =~= pre.push(iv[i as int]));
                lemma_join_push(pre, seq![','], iv[i as int]);
                assert(out@ =~= seq!['['] + join_with(iv.take(i + 1), seq![',']));
            }
            i = i + 1;
        }
        out.push(']');
        proof {
            assert(iv.take(iv.len() as int) =~= iv);
            assert(out@ =~= arr(iv, false));
        }
        string_from_chars(&out)
    }
}

} // verus!
