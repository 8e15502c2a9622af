//! Reading canonical compact JSON documents back: scanners for the exact
//! form the emitter produces, and, for every record kind, the proof that
//! reading a serialized single-record document gives the record back in
//! all fields.
//!
//! The readers are specification-level: they exist to state and prove the
//! round trip, which pins down that no emitted document loses a field.
//! Each proof walks the document one segment at a time, keeping the
//! consumed prefix on the left and the rest of the text on the right;
//! the larger record kinds split the walk over several helper lemmas to
//! keep each query small.

use vstd::prelude::*;
use crate::convert::frequency_list_json;
use crate::json::{esc_char, escape, hex_char, jstr};
use crate::numbers::{digit_char, digit_val, is_digit};
use crate::records::airport::AirportView;
use crate::records::country::CountryView;
use crate::records::navaid::NavaidView;
use crate::records::region::RegionView;
use crate::records::runway::RunwayView;
use crate::records::frequency::{frequency_json, frequency_pairs, AirportFrequencyView};

verus! {

/// The character a single-letter escape code stands for.
pub open spec fn esc_code(c: char) -> Option<char> {
    if c == '"' {
        Some('"')
    } else if c == '\\' {
        Some('\\')
    } else if c == 'n' {
        Some('\n')
    } else if c == 'r' {
        Some('\r')
    } else if c == 't' {
        Some('\t')
    } else if c == 'b' {
        Some('\u{8}')
    } else if c == 'f' {
        Some('\u{c}')
    } else {
        None
    }
}

/// The value of a lower-case hex digit.
pub open spec fn hex_val(c: char) -> Option<nat> {
    if is_digit(c) {
        Some(digit_val(c))
    } else if 'a' <= c && c <= 'f' {
        Some((c as nat - 'a' as nat + 10) as nat)
    } else {
        None
    }
}

/// A hex digit's value reads back to the digit's value.
proof fn lemma_hex_val(d: nat)
    requires
        d < 16,
    ensures
        hex_val(hex_char(d)) == Some(d),
{
    if d < 10 {
        assert(digit_char(d) as nat == d + 48);
    } else {
        assert(hex_char(d) as nat == 'a' as nat + d - 10);
    }
}

/// Scans the body of a JSON string literal from position `i` to its
/// closing quote, undoing the escapes: the decoded text and the position
/// right after the quote.
pub open spec fn scan_str(t: Seq<char>, i: int) -> Option<(Seq<char>, int)>
    decreases t.len() - i when 0 <= i <= t.len()
{
    if i >= t.len() {
        None
    } else if t[i] == '"' {
        Some((Seq::empty(), i + 1))
    } else if t[i] == '\\' {
        if i + 1 >= t.len() {
            None
        } else if t[i + 1] == 'u' {
            if i + 6 > t.len() {
                None
            } else {
                match (hex_val(t[i + 2]), hex_val(t[i + 3]), hex_val(t[i + 4]), hex_val(
                    t[i + 5],
                )) {
                    (Some(h0), Some(h1), Some(h2), Some(h3)) => {
                        let c = ((h0 * 4096 + h1 * 256 + h2 * 16 + h3) as u32) as char;
                        match scan_str(t, i + 6) {
                            Some((s, j)) => Some((seq![c] + s, j)),
                            None => None,
                        }
                    },
                    _ => None,
                }
            }
        } else {
            match esc_code(t[i + 1]) {
                Some(c) => match scan_str(t, i + 2) {
                    Some((s, j)) => Some((seq![c] + s, j)),
                    None => None,
                },
                None => None,
            }
        }
    } else {
        match scan_str(t, i + 1) {
            Some((s, j)) => Some((seq![t[i]] + s, j)),
            None => None,
        }
    }
}

/// Escaping unfolds from the front as well.
proof fn lemma_escape_front(s: Seq<char>)
    ensures
        s.len() > 0 ==> escape(s) == esc_char(s[0]) + escape(s.drop_first()),
    decreases s.len(),
{
    if s.len() == 1 {
        assert(s.drop_last() =~= Seq::<char>::empty());
        assert(s.drop_first() =~= Seq::<char>::empty());
        assert(escape(s) == escape(s.drop_last()) + esc_char(s.last()));
        assert(escape(Seq::<char>::empty()) == Seq::<char>::empty());
        assert(escape(s) =~= esc_char(s[0]) + escape(s.drop_first()));
    } else if s.len() > 1 {
        lemma_escape_front(s.drop_last());
        assert(s.drop_last()[0] == s[0]);
        assert(s.drop_last().drop_first() =~= s.drop_first().drop_last());
        assert(s.drop_first().last() == s.last());
        assert(escape(s) == escape(s.drop_last()) + esc_char(s.last()));
        assert(escape(s.drop_last()) == esc_char(s[0]) + escape(s.drop_first().drop_last()));
        assert(escape(s.drop_first()) == escape(s.drop_first().drop_last()) + esc_char(s.last()));
        assert((esc_char(s[0]) + escape(s.drop_first().drop_last())) + esc_char(s.last())
            =~= esc_char(s[0]) + (escape(s.drop_first().drop_last()) + esc_char(s.last())));
    }
}

/// One position of a subrange reads the underlying sequence.
proof fn lemma_subrange_index(t: Seq<char>, a: int, b: int, k: int)
    requires
        0 <= a <= b <= t.len(),
        0 <= k < b - a,
    ensures
        t.subrange(a, b)[k] == t[a + k],
{
}

/// Scanning an escaped string followed by its closing quote gives the
/// original text back and stops right after the quote.
proof fn lemma_scan_escape(t: Seq<char>, i: int, s: Seq<char>)
    requires
        0 <= i,
        i + escape(s).len() + 1 <= t.len(),
        t.subrange(i, i + escape(s).len()) == escape(s),
        t[i + escape(s).len()] == '"',
    ensures
        scan_str(t, i) == Some((s, i + escape(s).len() + 1)),
    decreases s.len(),
{
    let sub = t.subrange(i, i + escape(s).len());
    if s.len() == 0 {
        assert(escape(s).len() == 0);
        assert(t[i] == '"');
    } else {
        lemma_escape_front(s);
        let c = s[0];
        let e = esc_char(c);
        let rest = s.drop_first();
        assert(escape(s) == e + escape(rest));
        let i2 = i + e.len();
        assert forall|k: int| 0 <= k < e.len() implies t[i + k] == e[k] by {
            lemma_subrange_index(t, i, i + escape(s).len(), k);
            assert((e + escape(rest))[k] == e[k]);
        }
        assert(t.subrange(i2, i2 + escape(rest).len()) =~= escape(rest)) by {
            assert forall|k: int|
                0 <= k < escape(rest).len() implies t.subrange(
                i2,
                i2 + escape(rest).len(),
            )[k] == escape(rest)[k] by {
                lemma_subrange_index(t, i2, i2 + escape(rest).len(), k);
                lemma_subrange_index(t, i, i + escape(s).len(), e.len() + k);
                assert((e + escape(rest))[e.len() + k] == escape(rest)[k]);
            }
        }
        assert(i2 + escape(rest).len() == i + escape(s).len());
        assert(t[i2 + escape(rest).len()] == '"');
        lemma_scan_escape(t, i2, rest);
        assert(seq![c] + rest =~= s);
        if c == '"' || c == '\\' || c == '\n' || c == '\r' || c == '\t' || c == '\u{8}' || c
            == '\u{c}' {
            assert(e.len() == 2);
            assert(t[i + 0] == e[0] && t[i + 1] == e[1]);
            assert(t[i] == '\\');
            assert(esc_code(e[1]) == Some(c));
            assert(scan_str(t, i) == Some((seq![c] + rest, i2 + escape(rest).len() + 1)));
        } else if 0 <= c as int && (c as int) < 32 {
            assert(e == seq!['\\', 'u', '0', '0', hex_char((c as int / 16) as nat), hex_char(
                (c as int % 16) as nat,
            )]);
            assert(e.len() == 6);
            assert(t[i + 0] == e[0] && t[i + 1] == e[1] && t[i + 2] == e[2] && t[i + 3] == e[3]
                && t[i + 4] == e[4] && t[i + 5] == e[5]);
            assert(t[i] == '\\');
            assert(hex_val('0') == Some(0nat)) by {
                assert('0' as nat == 48);
            }
            lemma_hex_val((c as int / 16) as nat);
            lemma_hex_val((c as int % 16) as nat);
            let v: nat = 0 * 4096 + 0 * 256 + ((c as int / 16) as nat) * 16 + ((
            c as int % 16) as nat);
            assert(v == c as int);
            assert((v as u32) == v);
            assert(((v as u32) as char) as int == c as int);
            assert(((v as u32) as char) == c);
            assert(scan_str(t, i) == Some((seq![c] + rest, i2 + escape(rest).len() + 1)));
        } else {
            assert(e == seq![c]);
            assert(t[i + 0] == e[0]);
            assert(t[i] == c);
            assert(c != '"' && c != '\\');
            assert(scan_str(t, i) == Some((seq![c] + rest, i2 + escape(rest).len() + 1)));
        }
    }
}

/// Consumes an exact expected segment.
pub open spec fn expect(t: Seq<char>, i: int, lit: Seq<char>) -> Option<int> {
    if 0 <= i && i + lit.len() <= t.len() && t.subrange(i, i + lit.len()) == lit {
        Some(i + lit.len())
    } else {
        None
    }
}

/// Reads a JSON string literal at position `i`.
pub open spec fn parse_jstr(t: Seq<char>, i: int) -> Option<(Seq<char>, int)> {
    if 0 <= i < t.len() && t[i] == '"' {
        scan_str(t, i + 1)
    } else {
        None
    }
}

/// Reading an emitted string literal gives the original text back.
pub proof fn lemma_parse_jstr(t: Seq<char>, i: int, s: Seq<char>)
    requires
        0 <= i,
        i + jstr(s).len() <= t.len(),
        t.subrange(i, i + jstr(s).len()) == jstr(s),
    ensures
        parse_jstr(t, i) == Some((s, i + jstr(s).len())),
{
    assert(jstr(s).len() == escape(s).len() + 2);
    assert(t[i] == '"') by {
        lemma_subrange_index(t, i, i + jstr(s).len(), 0);
        assert(jstr(s)[0] == '"');
    }
    assert(t.subrange(i + 1, i + 1 + escape(s).len()) =~= escape(s)) by {
        assert forall|k: int|
            0 <= k < escape(s).len() implies t.subrange(i + 1, i + 1 + escape(s).len())[k]
            == escape(s)[k] by {
            lemma_subrange_index(t, i + 1, i + 1 + escape(s).len(), k);
            lemma_subrange_index(t, i, i + jstr(s).len(), 1 + k);
            assert(jstr(s)[1 + k] == escape(s)[k]) by {
                assert((seq!['"'] + escape(s))[1 + k] == escape(s)[k]);
                assert((seq!['"'] + escape(s) + seq!['"'])[1 + k] == (seq!['"'] + escape(s))[1
                    + k]);
            }
        }
    }
    assert(t[i + 1 + escape(s).len()] == '"') by {
        lemma_subrange_index(t, i, i + jstr(s).len(), 1 + escape(s).len() as int);
        assert(jstr(s)[1 + escape(s).len() as int] == '"') by {
            assert((seq!['"'] + escape(s) + seq!['"'])[1 + escape(s).len() as int] == '"');
        }
    }
    lemma_scan_escape(t, i + 1, s);
}


/// Joining six pieces with a separator, written out flat.
proof fn lemma_join6(
    i0: Seq<char>,
    i1: Seq<char>,
    i2: Seq<char>,
    i3: Seq<char>,
    i4: Seq<char>,
    i5: Seq<char>,
    sep: Seq<char>,
)
    ensures
        crate::json::join_with(seq![i0, i1, i2, i3, i4, i5], sep) == i0 + sep + i1 + sep + i2
            + sep + i3 + sep + i4 + sep + i5,
{
    let s0 = seq![i0, i1, i2, i3, i4, i5];
    let s1 = seq![i1, i2, i3, i4, i5];
    let s2 = seq![i2, i3, i4, i5];
    let s3 = seq![i3, i4, i5];
    let s4 = seq![i4, i5];
    let s5 = seq![i5];
    assert(s0.drop_first() =~= s1);
    assert(s1.drop_first() =~= s2);
    assert(s2.drop_first() =~= s3);
    assert(s3.drop_first() =~= s4);
    assert(s4.drop_first() =~= s5);
    assert(crate::json::join_with(s5, sep) == i5);
    assert(crate::json::join_with(s4, sep) == i4 + sep + i5);
    assert(crate::json::join_with(s3, sep) == i3 + sep + (i4 + sep + i5));
    assert(crate::json::join_with(s2, sep) == i2 + sep + (i3 + sep + (i4 + sep + i5)));
    assert(crate::json::join_with(s1, sep) == i1 + sep + (i2 + sep + (i3 + sep + (i4 + sep
        + i5))));
    assert(crate::json::join_with(s0, sep) == i0 + sep + (i1 + sep + (i2 + sep + (i3 + sep + (i4
        + sep + i5)))));
    assert(i0 + sep + (i1 + sep + (i2 + sep + (i3 + sep + (i4 + sep + i5)))) =~= i0 + sep + i1
        + sep + i2 + sep + i3 + sep + i4 + sep + i5);
}

/// An expected segment between a known prefix and suffix is consumed.
proof fn lemma_step_expect(t: Seq<char>, pre: Seq<char>, lit: Seq<char>, post: Seq<char>)
    requires
        t == pre + lit + post,
    ensures
        expect(t, pre.len() as int, lit) == Some((pre.len() + lit.len()) as int),
{
    let i = pre.len() as int;
    assert(t.subrange(i, i + lit.len()) =~= lit) by {
        assert forall|k: int| 0 <= k < lit.len() implies t.subrange(i, i + lit.len())[k]
            == lit[k] by {
            lemma_subrange_index(t, i, i + lit.len(), k);
            assert((pre + lit)[i + k] == lit[k]);
            assert((pre + lit + post)[i + k] == (pre + lit)[i + k]);
        }
    }
}

/// A string literal between a known prefix and suffix reads back as its
/// text.
proof fn lemma_step_jstr(t: Seq<char>, pre: Seq<char>, s: Seq<char>, post: Seq<char>)
    requires
        t == pre + jstr(s) + post,
    ensures
        parse_jstr(t, pre.len() as int) == Some((s, (pre.len() + jstr(s).len()) as int)),
{
    let i = pre.len() as int;
    assert(t.subrange(i, i + jstr(s).len()) =~= jstr(s)) by {
        assert forall|k: int| 0 <= k < jstr(s).len() implies t.subrange(i, i + jstr(s).len())[k]
            == jstr(s)[k] by {
            lemma_subrange_index(t, i, i + jstr(s).len(), k);
            assert((pre + jstr(s))[i + k] == jstr(s)[k]);
            assert((pre + jstr(s) + post)[i + k] == (pre + jstr(s))[i + k]);
        }
    }
    lemma_parse_jstr(t, i, s);
}


/// A successful string scan always advances and stays inside the text.
proof fn lemma_scan_str_bounds(t: Seq<char>, i: int)
    requires
        0 <= i <= t.len(),
    ensures
        scan_str(t, i) matches Some((s, j)) ==> i < j <= t.len(),
    decreases t.len() - i,
{
    if i >= t.len() {
    } else if t[i] == '"' {
    } else if t[i] == '\\' {
        if i + 1 >= t.len() {
        } else if t[i + 1] == 'u' {
            if i + 6 > t.len() {
            } else {
                lemma_scan_str_bounds(t, i + 6);
            }
        } else {
            lemma_scan_str_bounds(t, i + 2);
        }
    } else {
        lemma_scan_str_bounds(t, i + 1);
    }
}

/// Scans the items of a non-empty JSON string array from the position
/// right after the opening bracket, through the closing bracket.
pub open spec fn scan_str_items(t: Seq<char>, i: int) -> Option<(Seq<Seq<char>>, int)>
    decreases t.len() - i when 0 <= i <= t.len() via scan_str_items_dec
{
    match parse_jstr(t, i) {
        None => None,
        Some((s, j)) => if j < t.len() && t[j] == ',' {
            match scan_str_items(t, j + 1) {
                Some((ks, m)) => Some((seq![s] + ks, m)),
                None => None,
            }
        } else if j < t.len() && t[j] == ']' {
            Some((seq![s], j + 1))
        } else {
            None
        },
    }
}

#[via_fn]
proof fn scan_str_items_dec(t: Seq<char>, i: int) {
    if 0 <= i < t.len() && t[i] == '"' {
        lemma_scan_str_bounds(t, i + 1);
    }
}

/// Reads a compact JSON array of string literals at position `i`.
pub open spec fn parse_str_list(t: Seq<char>, i: int) -> Option<(Seq<Seq<char>>, int)> {
    match expect(t, i, seq!['[']) {
        None => None,
        Some(j) => if j < t.len() && t[j] == ']' {
            Some((seq![], j + 1))
        } else {
            scan_str_items(t, j)
        },
    }
}


/// Scanning the items of an emitted non-empty string array gives the
/// original list back and stops right after the closing bracket.
proof fn lemma_scan_items(t: Seq<char>, pre: Seq<char>, ks: Seq<Seq<char>>, post: Seq<char>)
    requires
        ks.len() > 0,
        t == pre + crate::json::join_with(
            ks.map_values(|k: Seq<char>| jstr(k)),
            seq![','],
        ) + (seq![']'] + post),
    ensures
        scan_str_items(t, pre.len() as int) == Some(
            (
                ks,
                (pre.len() + crate::json::join_with(
                    ks.map_values(|k: Seq<char>| jstr(k)),
                    seq![','],
                ).len() + 1) as int,
            ),
        ),
    decreases ks.len(),
{
    let fj = |k: Seq<char>| jstr(k);
    let items = ks.map_values(fj);
    let join = crate::json::join_with(items, seq![',']);
    let a0 = jstr(ks[0]);
    let cbp = seq![']'] + post;
    assert(items[0] == a0);
    if ks.len() == 1 {
        assert(join == a0);
        lemma_step_jstr(t, pre, ks[0], cbp);
        let j: int = (pre.len() + a0.len()) as int;
        assert(t[j as int] == ']') by {
            assert(((pre + a0) + cbp)[j as int] == cbp[0]);
        }
        assert(scan_str_items(t, pre.len() as int) == Some((seq![ks[0]], j + 1)));
        assert(seq![ks[0]] =~= ks);
    } else {
        let rest = ks.drop_first();
        let restitems = rest.map_values(fj);
        assert(items.drop_first() =~= restitems) by {
            assert(items.drop_first().len() == restitems.len());
            assert(forall|n: int|
                0 <= n < restitems.len() ==> #[trigger] items.drop_first()[n] == items[n + 1]);
            assert(forall|n: int| 0 <= n < restitems.len() ==> #[trigger] rest[n] == ks[n + 1]);
        }
        let jrest = crate::json::join_with(restitems, seq![',']);
        assert(join == a0 + seq![','] + jrest);
        let comma = seq![','];
        lemma_assoc(pre, a0 + comma, jrest);
        lemma_assoc(pre, a0, comma);
        lemma_assoc((pre + a0) + comma, jrest, cbp);
        lemma_assoc(pre + a0, comma, jrest + cbp);
        assert(t == (pre + a0) + (comma + (jrest + cbp)));
        lemma_assoc(comma, jrest, cbp);
        lemma_step_jstr(t, pre, ks[0], comma + (jrest + cbp));
        let j: int = (pre.len() + a0.len()) as int;
        assert(t[j as int] == ',') by {
            assert(((pre + a0) + (comma + (jrest + cbp)))[j as int] == (comma + (jrest + cbp))[0]);
        }
        let pre2 = (pre + a0) + comma;
        lemma_assoc(pre2, jrest, cbp);
        assert(t == pre2 + jrest + cbp);
        lemma_scan_items(t, pre2, rest, post);
        assert(j + 1 == pre2.len());
        assert(scan_str_items(t, pre.len() as int) == Some(
            (seq![ks[0]] + rest, (pre2.len() + jrest.len() + 1) as int),
        ));
        assert(seq![ks[0]] + rest =~= ks);
        assert(pre2.len() + jrest.len() == pre.len() + join.len());
    }
}

/// Reading an emitted compact string array gives the original list back.
proof fn lemma_step_jlist(t: Seq<char>, pre: Seq<char>, ks: Seq<Seq<char>>, post: Seq<char>)
    requires
        t == pre + crate::json::jlist(ks, false) + post,
    ensures
        parse_str_list(t, pre.len() as int) == Some(
            (ks, (pre.len() + crate::json::jlist(ks, false).len()) as int),
        ),
{
    let l = crate::json::jlist(ks, false);
    let fj = |k: Seq<char>| jstr(k);
    let items = ks.map_values(fj);
    let join = crate::json::join_with(items, seq![',']);
    assert(l == seq!['['] + join + seq![']']) by {
        assert(fj == (|k: Seq<char>| jstr(k)));
    }
    if ks.len() == 0 {
        assert(join == Seq::<char>::empty());
        assert(l =~= seq!['[', ']']);
        assert(t == (pre + seq!['[']) + (seq![']'] + post)) by {
            assert(pre + l + post =~= (pre + seq!['[']) + (seq![']'] + post));
        }
        lemma_assoc(pre, seq!['['], seq![']'] + post);
        lemma_step_expect(t, pre, seq!['['], seq![']'] + post);
        let j: int = pre.len() as int + 1;
        assert(t[j as int] == ']') by {
            assert(((pre + seq!['[']) + (seq![']'] + post))[j as int] == (seq![']'] + post)[0]);
        }
        assert(parse_str_list(t, pre.len() as int) == Some((Seq::<Seq<char>>::empty(), j + 1)));
        assert(Seq::<Seq<char>>::empty() =~= ks);
    } else {
        let comma = seq![','];
        let ob = seq!['['];
        let cbp = seq![']'] + post;
        lemma_assoc(pre, ob + join, seq![']']);
        lemma_assoc(pre, ob, join);
        lemma_assoc((pre + ob) + join, seq![']'], post);
        lemma_assoc(pre + ob, join, cbp);
        assert(t == (pre + ob) + (join + cbp));
        lemma_assoc(pre, ob, join + cbp);
        lemma_step_expect(t, pre, ob, join + cbp);
        let pre2 = pre + ob;
        lemma_assoc(pre2, join, cbp);
        assert(t == pre2 + join + cbp);
        lemma_scan_items(t, pre2, ks, post);
        let j: int = pre.len() as int + 1;
        assert(j == pre2.len());
        assert(t[j as int] != ']') by {
            assert(((pre2) + (join + cbp))[j as int] == (join + cbp)[0]);
            assert(join[0] == jstr(ks[0])[0]) by {
                assert(items[0] == jstr(ks[0]));
                if items.len() == 1 {
                } else {
                    assert(join == items[0] + comma + crate::json::join_with(
                        items.drop_first(),
                        comma,
                    ));
                    assert((items[0] + comma + crate::json::join_with(
                        items.drop_first(),
                        comma,
                    ))[0] == items[0][0]);
                }
            }
            assert(jstr(ks[0])[0] == '"');
        }
        assert(parse_str_list(t, pre.len() as int) == Some(
            (ks, (pre2.len() + join.len() + 1) as int),
        ));
        assert(pre2.len() + join.len() + 1 == pre.len() + l.len());
    }
}


/// Reads a JSON boolean literal at position `i`.
pub open spec fn parse_jbool(t: Seq<char>, i: int) -> Option<(bool, int)> {
    if 0 <= i < t.len() && t[i] == 't' {
        match expect(t, i, "true"@) {
            Some(j) => Some((true, j)),
            None => None,
        }
    } else {
        match expect(t, i, "false"@) {
            Some(j) => Some((false, j)),
            None => None,
        }
    }
}

/// Reading an emitted boolean literal gives the boolean back.
proof fn lemma_step_jbool(t: Seq<char>, pre: Seq<char>, b: bool, post: Seq<char>)
    requires
        t == pre + crate::json::jbool(b) + post,
    ensures
        parse_jbool(t, pre.len() as int) == Some(
            (b, (pre.len() + crate::json::jbool(b).len()) as int),
        ),
{
    reveal_strlit("true");
    reveal_strlit("false");
    let l = crate::json::jbool(b);
    let i = pre.len() as int;
    assert(t.len() == pre.len() + l.len() + post.len());
    assert(t[i] == l[0]) by {
        lemma_subrange_index(t, i, i + l.len(), 0);
        assert(t.subrange(i, i + l.len()) =~= l) by {
            assert(forall|k: int|
                0 <= k < l.len() ==> #[trigger] t.subrange(i, i + l.len())[k] == ((pre + l)
                    + post)[i + k]);
        }
    }
    if b {
        assert(t[i] == 't');
        lemma_step_expect(t, pre, "true"@, post);
    } else {
        assert(t[i] == 'f');
        lemma_step_expect(t, pre, "false"@, post);
    }
}

/// A character that can occur inside decimal-number text.
pub open spec fn is_num_char(c: char) -> bool {
    is_digit(c) || c == '-' || c == '+' || c == '.' || c == 'e' || c == 'E'
}

/// The first position at or after `i` that does not hold a number
/// character.
pub open spec fn skip_num(t: Seq<char>, i: int) -> int
    decreases t.len() - i when 0 <= i <= t.len()
{
    if i < t.len() && is_num_char(t[i]) {
        skip_num(t, i + 1)
    } else {
        i
    }
}

/// `skip_num` lands between `i` and the end, right after a run of number
/// characters.
proof fn lemma_skip_num(t: Seq<char>, i: int)
    requires
        0 <= i <= t.len(),
    ensures
        i <= skip_num(t, i) <= t.len(),
        forall|k: int| i <= k < skip_num(t, i) ==> is_num_char(t[k]),
        skip_num(t, i) < t.len() ==> !is_num_char(t[skip_num(t, i)]),
    decreases t.len() - i,
{
    if i < t.len() && is_num_char(t[i]) {
        lemma_skip_num(t, i + 1);
    }
}

/// Reads raw decimal-number text at position `i`: the run of number
/// characters up to the first character that cannot occur in one.
pub open spec fn scan_num(t: Seq<char>, i: int) -> Option<(Seq<char>, int)> {
    if 0 <= i <= t.len() {
        let e = skip_num(t, i);
        if e > i {
            Some((t.subrange(i, e), e))
        } else {
            None
        }
    } else {
        None
    }
}

/// Decimal-number text is non-empty and made of number characters only.
proof fn lemma_decimal_chars(v: Seq<char>)
    requires
        crate::numbers::is_decimal(v),
    ensures
        v.len() > 0,
        forall|k: int| 0 <= k < v.len() ==> is_num_char(#[trigger] v[k]),
{
    let i0: int = if v.len() > 0 && v[0] == '-' {
        1
    } else {
        0
    };
    let i1 = crate::numbers::skip_digits(v, i0);
    crate::numbers::lemma_skip_digits(v, i0);
    assert(i1 > i0);
    let has_frac = i1 < v.len() && v[i1] == '.';
    let i2: int = if has_frac {
        crate::numbers::skip_digits(v, i1 + 1)
    } else {
        i1
    };
    if has_frac {
        crate::numbers::lemma_skip_digits(v, i1 + 1);
    }
    let has_exp = i2 < v.len() && (v[i2] == 'e' || v[i2] == 'E');
    let i3: int = if has_exp {
        if i2 + 1 < v.len() && (v[i2 + 1] == '+' || v[i2 + 1] == '-') {
            i2 + 2
        } else {
            i2 + 1
        }
    } else {
        i2
    };
    if has_exp {
        crate::numbers::lemma_skip_digits(v, i3);
        assert(crate::numbers::skip_digits(v, i3) == v.len());
    } else {
        assert(i2 == v.len());
    }
    assert forall|k: int| 0 <= k < v.len() implies is_num_char(#[trigger] v[k]) by {
        if k < i0 {
            assert(v[k] == '-');
        } else if k < i1 {
            assert(crate::numbers::is_digit(v[k]));
        } else if has_frac && k == i1 {
            assert(v[k] == '.');
        } else if has_frac && k < i2 {
            assert(crate::numbers::is_digit(v[k]));
        } else if has_exp && k == i2 {
            assert(v[k] == 'e' || v[k] == 'E');
        } else if has_exp && k < i3 {
            assert(v[k] == '+' || v[k] == '-');
        } else {
            assert(crate::numbers::is_digit(v[k]));
        }
    }
}

/// Reading emitted decimal-number text followed by a non-number character
/// gives the text back.
proof fn lemma_step_num(t: Seq<char>, pre: Seq<char>, v: Seq<char>, post: Seq<char>)
    requires
        t == pre + v + post,
        crate::numbers::is_decimal(v),
        post.len() > 0,
        !is_num_char(post[0]),
    ensures
        scan_num(t, pre.len() as int) == Some((v, (pre.len() + v.len()) as int)),
{
    lemma_decimal_chars(v);
    let i = pre.len() as int;
    let e = i + v.len();
    assert(forall|k: int| 0 <= k < v.len() ==> #[trigger] t[i + k] == v[k]) by {
        assert(forall|k: int|
            0 <= k < v.len() ==> #[trigger] ((pre + v) + post)[i + k] == (pre + v)[i + k]);
    }
    assert(t[e] == post[0]) by {
        assert(((pre + v) + post)[e] == post[0]);
    }
    lemma_skip_num(t, i);
    assert(skip_num(t, i) == e) by {
        let s = skip_num(t, i);
        if s < e {
            assert(is_num_char(t[i + (s - i)]));
        }
        if s > e {
            assert(!is_num_char(t[e]));
        }
    }
    assert(t.subrange(i, e) =~= v) by {
        assert(forall|k: int|
            0 <= k < v.len() ==> #[trigger] t.subrange(i, e)[k] == t[i + k]);
    }
}

/// Reads an optional-integer value at position `i`: `null`, or optionally
/// signed digits.
pub open spec fn parse_jopt_int(t: Seq<char>, i: int) -> Option<(Option<int>, int)> {
    if 0 <= i < t.len() && t[i] == 'n' {
        match expect(t, i, "null"@) {
            Some(j) => Some((None, j)),
            None => None,
        }
    } else if 0 <= i < t.len() {
        let d0: int = if t[i] == '-' {
            i + 1
        } else {
            i
        };
        let e = crate::numbers::skip_digits(t, d0);
        if d0 <= t.len() && e > d0 {
            let m = crate::numbers::num_val(t.subrange(d0, e));
            Some(
                (
                    Some(
                        if t[i] == '-' {
                            -(m as int)
                        } else {
                            m as int
                        },
                    ),
                    e,
                ),
            )
        } else {
            None
        }
    } else {
        None
    }
}

/// Reading an emitted optional-integer value followed by a non-digit gives
/// the value back.
proof fn lemma_step_jopt_int(t: Seq<char>, pre: Seq<char>, o: Option<int>, post: Seq<char>)
    requires
        t == pre + crate::json::jopt_int(o) + post,
        post.len() > 0,
        !crate::numbers::is_digit(post[0]),
    ensures
        parse_jopt_int(t, pre.len() as int) == Some(
            (o, (pre.len() + crate::json::jopt_int(o).len()) as int),
        ),
{
    let l = crate::json::jopt_int(o);
    let i = pre.len() as int;
    assert(t.len() == pre.len() + l.len() + post.len());
    assert(forall|k: int| 0 <= k < l.len() ==> #[trigger] t[i + k] == l[k]) by {
        assert(forall|k: int|
            0 <= k < l.len() ==> #[trigger] ((pre + l) + post)[i + k] == (pre + l)[i + k]);
    }
    assert(t[i + l.len()] == post[0]) by {
        assert(((pre + l) + post)[i + l.len()] == post[0]);
    }
    match o {
        None => {
            reveal_strlit("null");
            assert(t[i] == 'n');
            lemma_step_expect(t, pre, "null"@, post);
        },
        Some(n) => {
            let mag: nat = if n < 0 {
                (-n) as nat
            } else {
                n as nat
            };
            crate::numbers::lemma_dec_nat_val(mag);
            let d0: int = if n < 0 {
                i + 1
            } else {
                i
            };
            assert(l == crate::numbers::dec_int(n));
            assert(forall|k: int|
                0 <= k < crate::numbers::dec_nat(mag).len() ==> #[trigger] t[d0 + k]
                    == crate::numbers::dec_nat(mag)[k]) by {
                if n < 0 {
                    assert(forall|k: int|
                        0 <= k < crate::numbers::dec_nat(mag).len() ==> (seq!['-']
                            + crate::numbers::dec_nat(mag))[1 + k] == #[trigger] crate::numbers::dec_nat(
                            mag,
                        )[k]);
                }
            }
            let e = d0 + crate::numbers::dec_nat(mag).len();
            assert(t[i] == l[0]);
            if n < 0 {
                assert(t[i] == '-');
                assert(t[i] != 'n');
            } else {
                assert(crate::numbers::is_digit(t[i]));
                assert(t[i] != 'n' && t[i] != '-') by {
                    assert('0' as int == 48 && '9' as int == 57);
                    assert('n' as int == 110 && '-' as int == 45);
                }
            }
            assert(e == i + l.len());
            assert(t[e] == post[0]);
            assert(!crate::numbers::is_digit(t[e]));
            crate::numbers::lemma_skip_digits(t, d0);
            assert(crate::numbers::skip_digits(t, d0) == e) by {
                let s = crate::numbers::skip_digits(t, d0);
                if s < e {
                    assert(crate::numbers::is_digit(t[d0 + (s - d0)]));
                }
                if s > e {
                    assert(!crate::numbers::is_digit(t[e]));
                }
            }
            assert(t.subrange(d0, e) =~= crate::numbers::dec_nat(mag)) by {
                assert(forall|k: int|
                    0 <= k < crate::numbers::dec_nat(mag).len() ==> #[trigger] t.subrange(
                        d0,
                        e,
                    )[k] == t[d0 + k]);
            }
            assert(crate::numbers::num_val(t.subrange(d0, e)) == mag);
        },
    }
}


/// The expected rendering of a field key at its position in an object:
/// the separating comma for every field after the first, the quoted key,
/// and the colon.
pub open spec fn klit(key: Seq<char>, first: bool) -> Seq<char> {
    if first {
        jstr(key) + seq![':']
    } else {
        seq![','] + jstr(key) + seq![':']
    }
}

/// Reads one string-valued field: the expected key, then the value.
pub open spec fn field_str(t: Seq<char>, i: int, key: Seq<char>, first: bool) -> Option<
    (Seq<char>, int),
> {
    match expect(t, i, klit(key, first)) {
        None => None,
        Some(j) => parse_jstr(t, j),
    }
}

/// Reads one raw-number field: the expected key, then the number text.
pub open spec fn field_num(t: Seq<char>, i: int, key: Seq<char>, first: bool) -> Option<
    (Seq<char>, int),
> {
    match expect(t, i, klit(key, first)) {
        None => None,
        Some(j) => scan_num(t, j),
    }
}

/// Reads one optional-integer field: the expected key, then `null` or
/// signed digits.
pub open spec fn field_opt_int(t: Seq<char>, i: int, key: Seq<char>, first: bool) -> Option<
    (Option<int>, int),
> {
    match expect(t, i, klit(key, first)) {
        None => None,
        Some(j) => parse_jopt_int(t, j),
    }
}

/// Reads one boolean field: the expected key, then a boolean literal.
pub open spec fn field_bool(t: Seq<char>, i: int, key: Seq<char>, first: bool) -> Option<
    (bool, int),
> {
    match expect(t, i, klit(key, first)) {
        None => None,
        Some(j) => parse_jbool(t, j),
    }
}

/// Reads one string-list field: the expected key, then a string array.
pub open spec fn field_list(t: Seq<char>, i: int, key: Seq<char>, first: bool) -> Option<
    (Seq<Seq<char>>, int),
> {
    match expect(t, i, klit(key, first)) {
        None => None,
        Some(j) => parse_str_list(t, j),
    }
}

/// Reading an emitted string field gives the value back.
proof fn lemma_field_str(
    t: Seq<char>,
    pre: Seq<char>,
    key: Seq<char>,
    first: bool,
    s: Seq<char>,
    post: Seq<char>,
)
    requires
        t == pre + klit(key, first) + (jstr(s) + post),
    ensures
        field_str(t, pre.len() as int, key, first) == Some(
            (s, (pre.len() + klit(key, first).len() + jstr(s).len()) as int),
        ),
{
    lemma_step_expect(t, pre, klit(key, first), jstr(s) + post);
    let pre2 = pre + klit(key, first);
    lemma_assoc(pre2, jstr(s), post);
    lemma_step_jstr(t, pre2, s, post);
}

/// Reading an emitted raw-number field gives the text back.
proof fn lemma_field_num(
    t: Seq<char>,
    pre: Seq<char>,
    key: Seq<char>,
    first: bool,
    v: Seq<char>,
    post: Seq<char>,
)
    requires
        t == pre + klit(key, first) + (v + post),
        crate::numbers::is_decimal(v),
        post.len() > 0,
        !is_num_char(post[0]),
    ensures
        field_num(t, pre.len() as int, key, first) == Some(
            (v, (pre.len() + klit(key, first).len() + v.len()) as int),
        ),
{
    lemma_step_expect(t, pre, klit(key, first), v + post);
    let pre2 = pre + klit(key, first);
    lemma_assoc(pre2, v, post);
    lemma_step_num(t, pre2, v, post);
}

/// Reading an emitted optional-integer field gives the value back.
proof fn lemma_field_opt_int(
    t: Seq<char>,
    pre: Seq<char>,
    key: Seq<char>,
    first: bool,
    o: Option<int>,
    post: Seq<char>,
)
    requires
        t == pre + klit(key, first) + (crate::json::jopt_int(o) + post),
        post.len() > 0,
        !crate::numbers::is_digit(post[0]),
    ensures
        field_opt_int(t, pre.len() as int, key, first) == Some(
            (o, (pre.len() + klit(key, first).len() + crate::json::jopt_int(o).len()) as int),
        ),
{
    lemma_step_expect(t, pre, klit(key, first), crate::json::jopt_int(o) + post);
    let pre2 = pre + klit(key, first);
    lemma_assoc(pre2, crate::json::jopt_int(o), post);
    lemma_step_jopt_int(t, pre2, o, post);
}

/// Reading an emitted boolean field gives the boolean back.
proof fn lemma_field_bool(
    t: Seq<char>,
    pre: Seq<char>,
    key: Seq<char>,
    first: bool,
    b: bool,
    post: Seq<char>,
)
    requires
        t == pre + klit(key, first) + (crate::json::jbool(b) + post),
    ensures
        field_bool(t, pre.len() as int, key, first) == Some(
            (b, (pre.len() + klit(key, first).len() + crate::json::jbool(b).len()) as int),
        ),
{
    lemma_step_expect(t, pre, klit(key, first), crate::json::jbool(b) + post);
    let pre2 = pre + klit(key, first);
    lemma_assoc(pre2, crate::json::jbool(b), post);
    lemma_step_jbool(t, pre2, b, post);
}

/// Reading an emitted string-list field gives the list back.
proof fn lemma_field_list(
    t: Seq<char>,
    pre: Seq<char>,
    key: Seq<char>,
    first: bool,
    ks: Seq<Seq<char>>,
    post: Seq<char>,
)
    requires
        t == pre + klit(key, first) + (crate::json::jlist(ks, false) + post),
    ensures
        field_list(t, pre.len() as int, key, first) == Some(
            (
                ks,
                (pre.len() + klit(key, first).len() + crate::json::jlist(ks, false).len()) as int,
            ),
        ),
{
    lemma_step_expect(t, pre, klit(key, first), crate::json::jlist(ks, false) + post);
    let pre2 = pre + klit(key, first);
    lemma_assoc(pre2, crate::json::jlist(ks, false), post);
    lemma_step_jlist(t, pre2, ks, post);
}

/// Reads one frequency record object in the canonical compact form: each
/// key expected in field order, every value a string literal.
pub open spec fn parse_frequency_obj(t: Seq<char>, i: int) -> Option<(AirportFrequencyView, int)> {
    match expect(t, i, seq!['{']) {
        None => None,
        Some(j0) => match expect(t, j0, jstr("id"@) + seq![':']) {
            None => None,
            Some(j1) => match parse_jstr(t, j1) {
                None => None,
                Some((id, j2)) => match expect(t, j2, seq![','] + jstr("airport_ref"@) + seq![':']) {
                    None => None,
                    Some(j3) => match parse_jstr(t, j3) {
                        None => None,
                        Some((airport_ref, j4)) => match expect(
                            t,
                            j4,
                            seq![','] + jstr("airport_ident"@) + seq![':'],
                        ) {
                            None => None,
                            Some(j5) => match parse_jstr(t, j5) {
                                None => None,
                                Some((airport_ident, j6)) => match expect(
                                    t,
                                    j6,
                                    seq![','] + jstr("type"@) + seq![':'],
                                ) {
                                    None => None,
                                    Some(j7) => match parse_jstr(t, j7) {
                                        None => None,
                                        Some((frequency_type, j8)) => match expect(
                                            t,
                                            j8,
                                            seq![','] + jstr("description"@) + seq![':'],
                                        ) {
                                            None => None,
                                            Some(j9) => match parse_jstr(t, j9) {
                                                None => None,
                                                Some((description, j10)) => match expect(
                                                    t,
                                                    j10,
                                                    seq![','] + jstr("frequency_mhz"@) + seq![':'],
                                                ) {
                                                    None => None,
                                                    Some(j11) => match parse_jstr(t, j11) {
                                                        None => None,
                                                        Some((frequency_mhz, j12)) => match expect(
                                                            t,
                                                            j12,
                                                            seq!['}'],
                                                        ) {
                                                            None => None,
                                                            Some(j13) => Some(
                                                                (
                                                                    AirportFrequencyView {
                                                                        id,
                                                                        airport_ref,
                                                                        airport_ident,
                                                                        frequency_type,
                                                                        description,
                                                                        frequency_mhz,
                                                                    },
                                                                    j13,
                                                                ),
                                                            ),
                                                        },
                                                    },
                                                },
                                            },
                                        },
                                    },
                                },
                            },
                        },
                    },
                },
            },
        },
    }
}

/// Reads a whole single-record frequency document in the canonical compact
/// form.
pub open spec fn parse_frequency_doc(t: Seq<char>) -> Option<AirportFrequencyView> {
    match expect(t, 0, seq!['[']) {
        None => None,
        Some(i) => match parse_frequency_obj(t, i) {
            None => None,
            Some((a, j)) => if expect(t, j, seq![']']) == Some(t.len() as int) {
                Some(a)
            } else {
                None
            },
        },
    }
}

/// Sequence concatenation is associative.
proof fn lemma_assoc(x: Seq<char>, y: Seq<char>, z: Seq<char>)
    ensures
        x + (y + z) == (x + y) + z,
{
    assert(x + (y + z) =~= (x + y) + z);
}

/// A compact frequency object, written out as one flat concatenation.
proof fn lemma_frequency_body(a: AirportFrequencyView)
    ensures
        crate::records::frequency::frequency_json(a, false) == seq!['{'] + ((jstr("id"@)
            + seq![':'] + jstr(a.id)) + seq![','] + (jstr("airport_ref"@) + seq![':'] + jstr(
            a.airport_ref,
        )) + seq![','] + (jstr("airport_ident"@) + seq![':'] + jstr(a.airport_ident)) + seq![',']
            + (jstr("type"@) + seq![':'] + jstr(a.frequency_type)) + seq![','] + (jstr(
            "description"@,
        ) + seq![':'] + jstr(a.description)) + seq![','] + (jstr("frequency_mhz"@) + seq![':']
            + jstr(a.frequency_mhz))) + seq!['}'],
{
    let fc = |p: (Seq<char>, Seq<char>)| jstr(p.0) + seq![':'] + p.1;
    let pairs = frequency_pairs(a);
    let items = pairs.map_values(fc);
    let comma = seq![','];
    assert(frequency_json(a, false) == seq!['{'] + crate::json::join_with(items, comma)
        + seq!['}']) by {
        assert(fc == (|p: (Seq<char>, Seq<char>)| jstr(p.0) + seq![':'] + p.1));
    }
    let i0 = jstr("id"@) + seq![':'] + jstr(a.id);
    let i1 = jstr("airport_ref"@) + seq![':'] + jstr(a.airport_ref);
    let i2 = jstr("airport_ident"@) + seq![':'] + jstr(a.airport_ident);
    let i3 = jstr("type"@) + seq![':'] + jstr(a.frequency_type);
    let i4 = jstr("description"@) + seq![':'] + jstr(a.description);
    let i5 = jstr("frequency_mhz"@) + seq![':'] + jstr(a.frequency_mhz);
    assert(items =~= seq![i0, i1, i2, i3, i4, i5]) by {
        assert(items.len() == 6);
        assert(items[0] == fc(pairs[0]));
        assert(items[1] == fc(pairs[1]));
        assert(items[2] == fc(pairs[2]));
        assert(items[3] == fc(pairs[3]));
        assert(items[4] == fc(pairs[4]));
        assert(items[5] == fc(pairs[5]));
    }
    lemma_join6(i0, i1, i2, i3, i4, i5, comma);
}

/// A single-record compact document of six fields, re-associated into the
/// form the walk through it consumes: one segment at a time, the tail
/// always to the right.
proof fn lemma_doc_flatten(
    g0: Seq<char>,
    h0: Seq<char>,
    g1: Seq<char>,
    h1: Seq<char>,
    g2: Seq<char>,
    h2: Seq<char>,
    g3: Seq<char>,
    h3: Seq<char>,
    g4: Seq<char>,
    h4: Seq<char>,
    g5: Seq<char>,
    h5: Seq<char>,
)
    ensures
        seq!['['] + (seq!['{'] + ((g0 + h0) + seq![','] + (g1 + h1) + seq![','] + (g2 + h2)
            + seq![','] + (g3 + h3) + seq![','] + (g4 + h4) + seq![','] + (g5 + h5)) + seq!['}'])
            + seq![']'] == seq!['['] + (seq!['{'] + (g0 + (h0 + ((seq![','] + g1) + (h1 + ((seq![
            ','
        ] + g2) + (h2 + ((seq![','] + g3) + (h3 + ((seq![','] + g4) + (h4 + ((seq![','] + g5) + (
        h5 + (seq!['}'] + seq![']'])))))))))))))),
{
    assert(seq!['['] + (seq!['{'] + ((g0 + h0) + seq![','] + (g1 + h1) + seq![','] + (g2 + h2)
        + seq![','] + (g3 + h3) + seq![','] + (g4 + h4) + seq![','] + (g5 + h5)) + seq!['}'])
        + seq![']'] =~= seq!['['] + (seq!['{'] + (g0 + (h0 + ((seq![','] + g1) + (h1 + ((seq![
        ','
    ] + g2) + (h2 + ((seq![','] + g3) + (h3 + ((seq![','] + g4) + (h4 + ((seq![','] + g5) + (h5
        + (seq!['}'] + seq![']'])))))))))))))));
}

/// Serializing any frequency record as a single-record compact document
/// and reading that document back gives a record equal in all fields.
#[verifier::rlimit(100)]
pub proof fn lemma_frequency_doc_round_trip(a: AirportFrequencyView)
    ensures
        parse_frequency_doc(frequency_list_json(seq![a], false)) == Some(a),
{
    let t = frequency_list_json(seq![a], false);
    let comma = seq![','];
    let ob = seq!['['];
    let oc = seq!['{'];
    let cc = seq!['}'];
    let cb = seq![']'];
    let k0 = jstr("id"@) + seq![':'];
    let v0 = jstr(a.id);
    let k1 = jstr("airport_ref"@) + seq![':'];
    let v1 = jstr(a.airport_ref);
    let k2 = jstr("airport_ident"@) + seq![':'];
    let v2 = jstr(a.airport_ident);
    let k3 = jstr("type"@) + seq![':'];
    let v3 = jstr(a.frequency_type);
    let k4 = jstr("description"@) + seq![':'];
    let v4 = jstr(a.description);
    let k5 = jstr("frequency_mhz"@) + seq![':'];
    let v5 = jstr(a.frequency_mhz);
    lemma_frequency_body(a);
    let one = Seq::new(1nat, |i: int| frequency_json(seq![a][i], false));
    assert(one.len() == 1);
    assert(one[0] == frequency_json(a, false));
    assert(crate::json::join_with(one, comma) == one[0]);
    assert(t == ob + frequency_json(a, false) + cb);
    lemma_assoc(ob, frequency_json(a, false), cb);
    lemma_doc_flatten(k0, v0, k1, v1, k2, v2, k3, v3, k4, v4, k5, v5);
    let r14 = cc + cb;
    let r13 = v5 + r14;
    let r12 = (comma + k5) + r13;
    let r11 = v4 + r12;
    let r10 = (comma + k4) + r11;
    let r9 = v3 + r10;
    let r8 = (comma + k3) + r9;
    let r7 = v2 + r8;
    let r6 = (comma + k2) + r7;
    let r5 = v1 + r6;
    let r4 = (comma + k1) + r5;
    let r3 = v0 + r4;
    let r2 = k0 + r3;
    let r1 = oc + r2;
    let r0 = ob + r1;
    assert(t == r0) by {
        assert(ob + (oc + r2) =~= (ob + (oc + r2) + Seq::<char>::empty()));
    }
    let p0 = Seq::<char>::empty();
    let p1 = p0 + ob;
    let p2 = p1 + oc;
    let p3 = p2 + k0;
    let p4 = p3 + v0;
    let p5 = p4 + (comma + k1);
    let p6 = p5 + v1;
    let p7 = p6 + (comma + k2);
    let p8 = p7 + v2;
    let p9 = p8 + (comma + k3);
    let p10 = p9 + v3;
    let p11 = p10 + (comma + k4);
    let p12 = p11 + v4;
    let p13 = p12 + (comma + k5);
    let p14 = p13 + v5;
    let p15 = p14 + cc;
    assert(t == p0 + r0) by {
        assert(p0 + r0 =~= r0);
    }
    lemma_assoc(p0, ob, r1);
    lemma_step_expect(t, p0, ob, r1);
    lemma_assoc(p1, oc, r2);
    lemma_step_expect(t, p1, oc, r2);
    lemma_assoc(p2, k0, r3);
    lemma_step_expect(t, p2, k0, r3);
    lemma_assoc(p3, v0, r4);
    lemma_step_jstr(t, p3, a.id, r4);
    lemma_assoc(p4, comma + k1, r5);
    lemma_step_expect(t, p4, comma + k1, r5);
    lemma_assoc(p5, v1, r6);
    lemma_step_jstr(t, p5, a.airport_ref, r6);
    lemma_assoc(p6, comma + k2, r7);
    lemma_step_expect(t, p6, comma + k2, r7);
    lemma_assoc(p7, v2, r8);
    lemma_step_jstr(t, p7, a.airport_ident, r8);
    lemma_assoc(p8, comma + k3, r9);
    lemma_step_expect(t, p8, comma + k3, r9);
    lemma_assoc(p9, v3, r10);
    lemma_step_jstr(t, p9, a.frequency_type, r10);
    lemma_assoc(p10, comma + k4, r11);
    lemma_step_expect(t, p10, comma + k4, r11);
    lemma_assoc(p11, v4, r12);
    lemma_step_jstr(t, p11, a.description, r12);
    lemma_assoc(p12, comma + k5, r13);
    lemma_step_expect(t, p12, comma + k5, r13);
    lemma_assoc(p13, v5, r14);
    lemma_step_jstr(t, p13, a.frequency_mhz, r14);
    lemma_assoc(p14, cc, cb);
    lemma_step_expect(t, p14, cc, cb);
    assert(t == p15 + cb + Seq::<char>::empty()) by {
        assert(p15 + cb + Seq::<char>::empty() =~= p15 + cb);
    }
    lemma_step_expect(t, p15, cb, Seq::empty());
    assert(p15.len() + cb.len() == t.len());
    assert(expect(t, p15.len() as int, cb) == Some(t.len() as int));
    lemma_assoc(comma, jstr("airport_ref"@), seq![':']);
    lemma_assoc(comma, jstr("airport_ident"@), seq![':']);
    lemma_assoc(comma, jstr("type"@), seq![':']);
    lemma_assoc(comma, jstr("description"@), seq![':']);
    lemma_assoc(comma, jstr("frequency_mhz"@), seq![':']);
    let parsed = AirportFrequencyView {
        id: a.id,
        airport_ref: a.airport_ref,
        airport_ident: a.airport_ident,
        frequency_type: a.frequency_type,
        description: a.description,
        frequency_mhz: a.frequency_mhz,
    };
    assert(parse_frequency_obj(t, p1.len() as int) == Some((parsed, p15.len() as int)));
    assert(parsed == a);
}


/// Reads one country record object in the canonical compact form: each
/// key expected in field order, five string values and a keywords array.
pub open spec fn parse_country_obj(t: Seq<char>, i: int) -> Option<(CountryView, int)> {
    match expect(t, i, seq!['{']) {
        None => None,
        Some(j0) => match expect(t, j0, jstr("id"@) + seq![':']) {
            None => None,
            Some(j1) => match parse_jstr(t, j1) {
                None => None,
                Some((id, j2)) => match expect(t, j2, seq![','] + jstr("code"@) + seq![':']) {
                    None => None,
                    Some(j3) => match parse_jstr(t, j3) {
                        None => None,
                        Some((code, j4)) => match expect(
                            t,
                            j4,
                            seq![','] + jstr("name"@) + seq![':'],
                        ) {
                            None => None,
                            Some(j5) => match parse_jstr(t, j5) {
                                None => None,
                                Some((name, j6)) => match expect(
                                    t,
                                    j6,
                                    seq![','] + jstr("continent"@) + seq![':'],
                                ) {
                                    None => None,
                                    Some(j7) => match parse_jstr(t, j7) {
                                        None => None,
                                        Some((continent, j8)) => match expect(
                                            t,
                                            j8,
                                            seq![','] + jstr("wikipedia_link"@) + seq![':'],
                                        ) {
                                            None => None,
                                            Some(j9) => match parse_jstr(t, j9) {
                                                None => None,
                                                Some((wikipedia_link, j10)) => match expect(
                                                    t,
                                                    j10,
                                                    seq![','] + jstr("keywords"@) + seq![':'],
                                                ) {
                                                    None => None,
                                                    Some(j11) => match parse_str_list(t, j11) {
                                                        None => None,
                                                        Some((keywords, j12)) => match expect(
                                                            t,
                                                            j12,
                                                            seq!['}'],
                                                        ) {
                                                            None => None,
                                                            Some(j13) => Some(
                                                                (
                                                                    CountryView {
                                                                        id,
                                                                        code,
                                                                        name,
                                                                        continent,
                                                                        wikipedia_link,
                                                                        keywords,
                                                                    },
                                                                    j13,
                                                                ),
                                                            ),
                                                        },
                                                    },
                                                },
                                            },
                                        },
                                    },
                                },
                            },
                        },
                    },
                },
            },
        },
    }
}

/// Reads a whole single-record country document in the canonical compact
/// form.
pub open spec fn parse_country_doc(t: Seq<char>) -> Option<CountryView> {
    match expect(t, 0, seq!['[']) {
        None => None,
        Some(i) => match parse_country_obj(t, i) {
            None => None,
            Some((a, j)) => if expect(t, j, seq![']']) == Some(t.len() as int) {
                Some(a)
            } else {
                None
            },
        },
    }
}

/// A compact country object, written out as one flat concatenation.
proof fn lemma_country_body(a: CountryView)
    ensures
        crate::records::country::country_json(a, false) == seq!['{'] + ((jstr("id"@) + seq![':']
            + jstr(a.id)) + seq![','] + (jstr("code"@) + seq![':'] + jstr(a.code)) + seq![','] + (
        jstr("name"@) + seq![':'] + jstr(a.name)) + seq![','] + (jstr("continent"@) + seq![':']
            + jstr(a.continent)) + seq![','] + (jstr("wikipedia_link"@) + seq![':'] + jstr(
            a.wikipedia_link,
        )) + seq![','] + (jstr("keywords"@) + seq![':'] + crate::json::jlist(a.keywords, false)))
            + seq!['}'],
{
    let fc = |p: (Seq<char>, Seq<char>)| jstr(p.0) + seq![':'] + p.1;
    let pairs = crate::records::country::country_pairs(a, false);
    let items = pairs.map_values(fc);
    let comma = seq![','];
    assert(crate::records::country::country_json(a, false) == seq!['{']
        + crate::json::join_with(items, comma) + seq!['}']) by {
        assert(fc == (|p: (Seq<char>, Seq<char>)| jstr(p.0) + seq![':'] + p.1));
    }
    let i0 = jstr("id"@) + seq![':'] + jstr(a.id);
    let i1 = jstr("code"@) + seq![':'] + jstr(a.code);
    let i2 = jstr("name"@) + seq![':'] + jstr(a.name);
    let i3 = jstr("continent"@) + seq![':'] + jstr(a.continent);
    let i4 = jstr("wikipedia_link"@) + seq![':'] + jstr(a.wikipedia_link);
    let i5 = jstr("keywords"@) + seq![':'] + crate::json::jlist(a.keywords, false);
    assert(items =~= seq![i0, i1, i2, i3, i4, i5]) by {
        assert(items.len() == 6);
        assert(items[0] == fc(pairs[0]));
        assert(items[1] == fc(pairs[1]));
        assert(items[2] == fc(pairs[2]));
        assert(items[3] == fc(pairs[3]));
        assert(items[4] == fc(pairs[4]));
        assert(items[5] == fc(pairs[5]));
    }
    lemma_join6(i0, i1, i2, i3, i4, i5, comma);
}

/// Serializing any country record as a single-record compact document and
/// reading that document back gives a record equal in all fields,
/// keywords list included.
#[verifier::rlimit(100)]
pub proof fn lemma_country_doc_round_trip(a: CountryView)
    ensures
        parse_country_doc(crate::convert::country_list_json(seq![a], false)) == Some(a),
{
    let t = crate::convert::country_list_json(seq![a], false);
    let comma = seq![','];
    let ob = seq!['['];
    let oc = seq!['{'];
    let cc = seq!['}'];
    let cb = seq![']'];
    let k0 = jstr("id"@) + seq![':'];
    let v0 = jstr(a.id);
    let k1 = jstr("code"@) + seq![':'];
    let v1 = jstr(a.code);
    let k2 = jstr("name"@) + seq![':'];
    let v2 = jstr(a.name);
    let k3 = jstr("continent"@) + seq![':'];
    let v3 = jstr(a.continent);
    let k4 = jstr("wikipedia_link"@) + seq![':'];
    let v4 = jstr(a.wikipedia_link);
    let k5 = jstr("keywords"@) + seq![':'];
    let v5 = crate::json::jlist(a.keywords, false);
    lemma_country_body(a);
    let cj = crate::records::country::country_json(a, false);
    let one = Seq::new(1nat, |i: int| crate::records::country::country_json(seq![a][i], false));
    assert(one.len() == 1);
    assert(one[0] == cj);
    assert(crate::json::join_with(one, comma) == one[0]);
    assert(t == ob + cj + cb);
    lemma_assoc(ob, cj, cb);
    lemma_doc_flatten(k0, v0, k1, v1, k2, v2, k3, v3, k4, v4, k5, v5);
    let r14 = cc + cb;
    let r13 = v5 + r14;
    let r12 = (comma + k5) + r13;
    let r11 = v4 + r12;
    let r10 = (comma + k4) + r11;
    let r9 = v3 + r10;
    let r8 = (comma + k3) + r9;
    let r7 = v2 + r8;
    let r6 = (comma + k2) + r7;
    let r5 = v1 + r6;
    let r4 = (comma + k1) + r5;
    let r3 = v0 + r4;
    let r2 = k0 + r3;
    let r1 = oc + r2;
    let r0 = ob + r1;
    assert(t == r0);
    let p0 = Seq::<char>::empty();
    let p1 = p0 + ob;
    let p2 = p1 + oc;
    let p3 = p2 + k0;
    let p4 = p3 + v0;
    let p5 = p4 + (comma + k1);
    let p6 = p5 + v1;
    let p7 = p6 + (comma + k2);
    let p8 = p7 + v2;
    let p9 = p8 + (comma + k3);
    let p10 = p9 + v3;
    let p11 = p10 + (comma + k4);
    let p12 = p11 + v4;
    let p13 = p12 + (comma + k5);
    let p14 = p13 + v5;
    let p15 = p14 + cc;
    assert(t == p0 + r0) by {
        assert(p0 + r0 =~= r0);
    }
    lemma_assoc(p0, ob, r1);
    lemma_step_expect(t, p0, ob, r1);
    lemma_assoc(p1, oc, r2);
    lemma_step_expect(t, p1, oc, r2);
    lemma_assoc(p2, k0, r3);
    lemma_step_expect(t, p2, k0, r3);
    lemma_assoc(p3, v0, r4);
    lemma_step_jstr(t, p3, a.id, r4);
    lemma_assoc(p4, comma + k1, r5);
    lemma_step_expect(t, p4, comma + k1, r5);
    lemma_assoc(p5, v1, r6);
    lemma_step_jstr(t, p5, a.code, r6);
    lemma_assoc(p6, comma + k2, r7);
    lemma_step_expect(t, p6, comma + k2, r7);
    lemma_assoc(p7, v2, r8);
    lemma_step_jstr(t, p7, a.name, r8);
    lemma_assoc(p8, comma + k3, r9);
    lemma_step_expect(t, p8, comma + k3, r9);
    lemma_assoc(p9, v3, r10);
    lemma_step_jstr(t, p9, a.continent, r10);
    lemma_assoc(p10, comma + k4, r11);
    lemma_step_expect(t, p10, comma + k4, r11);
    lemma_assoc(p11, v4, r12);
    lemma_step_jstr(t, p11, a.wikipedia_link, r12);
    lemma_assoc(p12, comma + k5, r13);
    lemma_step_expect(t, p12, comma + k5, r13);
    lemma_assoc(p13, v5, r14);
    assert(t == p13 + v5 + r14);
    lemma_step_jlist(t, p13, a.keywords, r14);
    lemma_assoc(p14, cc, cb);
    lemma_step_expect(t, p14, cc, cb);
    assert(t == p15 + cb + Seq::<char>::empty()) by {
        assert(p15 + cb + Seq::<char>::empty() =~= p15 + cb);
    }
    lemma_step_expect(t, p15, cb, Seq::empty());
    assert(p15.len() + cb.len() == t.len());
    assert(expect(t, p15.len() as int, cb) == Some(t.len() as int));
    lemma_assoc(comma, jstr("code"@), seq![':']);
    lemma_assoc(comma, jstr("name"@), seq![':']);
    lemma_assoc(comma, jstr("continent"@), seq![':']);
    lemma_assoc(comma, jstr("wikipedia_link"@), seq![':']);
    lemma_assoc(comma, jstr("keywords"@), seq![':']);
    let parsed = CountryView {
        id: a.id,
        code: a.code,
        name: a.name,
        continent: a.continent,
        wikipedia_link: a.wikipedia_link,
        keywords: a.keywords,
    };
    assert(parse_country_obj(t, p1.len() as int) == Some((parsed, p15.len() as int)));
    assert(parsed == a);
}


/// Reads an optional text-preserved number at position `i`: `null`, or
/// raw decimal-number text.
pub open spec fn parse_jopt_num(t: Seq<char>, i: int) -> Option<(Option<Seq<char>>, int)> {
    if 0 <= i < t.len() && t[i] == 'n' {
        match expect(t, i, "null"@) {
            Some(j) => Some((None, j)),
            None => None,
        }
    } else {
        match scan_num(t, i) {
            Some((v, j)) => Some((Some(v), j)),
            None => None,
        }
    }
}

/// Reading an emitted optional number followed by a non-number character
/// gives the value back.
proof fn lemma_step_jopt_num(t: Seq<char>, pre: Seq<char>, o: Option<Seq<char>>, post: Seq<char>)
    requires
        t == pre + crate::json::jopt_num(o) + post,
        o matches Some(v) ==> crate::numbers::is_decimal(v),
        post.len() > 0,
        !is_num_char(post[0]),
    ensures
        parse_jopt_num(t, pre.len() as int) == Some(
            (o, (pre.len() + crate::json::jopt_num(o).len()) as int),
        ),
{
    let l = crate::json::jopt_num(o);
    let i = pre.len() as int;
    assert(t.len() == pre.len() + l.len() + post.len());
    match o {
        None => {
            reveal_strlit("null");
            assert(t[i] == 'n') by {
                assert(((pre + l) + post)[i] == l[0]);
            }
            lemma_step_expect(t, pre, "null"@, post);
        },
        Some(v) => {
            lemma_decimal_chars(v);
            assert(t[i] == v[0]) by {
                assert(((pre + l) + post)[i] == l[0]);
            }
            assert(v[0] != 'n') by {
                assert(is_num_char(v[0]));
            }
            lemma_step_num(t, pre, v, post);
        },
    }
}

/// Reads one optional-number field: the expected key, then `null` or raw
/// number text.
pub open spec fn field_opt_num(t: Seq<char>, i: int, key: Seq<char>, first: bool) -> Option<
    (Option<Seq<char>>, int),
> {
    match expect(t, i, klit(key, first)) {
        None => None,
        Some(j) => parse_jopt_num(t, j),
    }
}

/// Reading an emitted optional-number field gives the value back.
proof fn lemma_field_opt_num(
    t: Seq<char>,
    pre: Seq<char>,
    key: Seq<char>,
    first: bool,
    o: Option<Seq<char>>,
    post: Seq<char>,
)
    requires
        t == pre + klit(key, first) + (crate::json::jopt_num(o) + post),
        o matches Some(v) ==> crate::numbers::is_decimal(v),
        post.len() > 0,
        !is_num_char(post[0]),
    ensures
        field_opt_num(t, pre.len() as int, key, first) == Some(
            (o, (pre.len() + klit(key, first).len() + crate::json::jopt_num(o).len()) as int),
        ),
{
    lemma_step_expect(t, pre, klit(key, first), crate::json::jopt_num(o) + post);
    let pre2 = pre + klit(key, first);
    lemma_assoc(pre2, crate::json::jopt_num(o), post);
    lemma_step_jopt_num(t, pre2, o, post);
}

/// The airport-object reader is staged one field at a time: each stage
/// carries the values read so far and reads the next column's field.
pub open spec fn airport_stage_0(t: Seq<char>, j: int) -> Option<(AirportView, int)> {
    match field_str(t, j, "id"@, true) {
        None => None,
        Some((id, j2)) => airport_stage_1(t, j2, id),
    }
}

pub open spec fn airport_stage_1(t: Seq<char>, j: int, id: Seq<char>) -> Option<(AirportView, int)> {
    match field_str(t, j, "ident"@, false) {
        None => None,
        Some((ident, j2)) => airport_stage_2(t, j2, id, ident),
    }
}

pub open spec fn airport_stage_2(t: Seq<char>, j: int, id: Seq<char>, ident: Seq<char>) -> Option<(AirportView, int)> {
    match field_str(t, j, "type"@, false) {
        None => None,
        Some((airport_type, j2)) => airport_stage_3(t, j2, id, ident, airport_type),
    }
}

pub open spec fn airport_stage_3(t: Seq<char>, j: int, id: Seq<char>, ident: Seq<char>, airport_type: Seq<char>) -> Option<(AirportView, int)> {
    match field_str(t, j, "name"@, false) {
        None => None,
        Some((name, j2)) => airport_stage_4(t, j2, id, ident, airport_type, name),
    }
}

pub open spec fn airport_stage_4(t: Seq<char>, j: int, id: Seq<char>, ident: Seq<char>, airport_type: Seq<char>, name: Seq<char>) -> Option<(AirportView, int)> {
    match field_num(t, j, "latitude_deg"@, false) {
        None => None,
        Some((latitude_deg, j2)) => airport_stage_5(t, j2, id, ident, airport_type, name, latitude_deg),
    }
}

pub open spec fn airport_stage_5(t: Seq<char>, j: int, id: Seq<char>, ident: Seq<char>, airport_type: Seq<char>, name: Seq<char>, latitude_deg: Seq<char>) -> Option<(AirportView, int)> {
    match field_num(t, j, "longitude_deg"@, false) {
        None => None,
        Some((longitude_deg, j2)) => airport_stage_6(t, j2, id, ident, airport_type, name, latitude_deg, longitude_deg),
    }
}

pub open spec fn airport_stage_6(t: Seq<char>, j: int, id: Seq<char>, ident: Seq<char>, airport_type: Seq<char>, name: Seq<char>, latitude_deg: Seq<char>, longitude_deg: Seq<char>) -> Option<(AirportView, int)> {
    match field_opt_int(t, j, "elevation_ft"@, false) {
        None => None,
        Some((elevation_ft, j2)) => airport_stage_7(t, j2, id, ident, airport_type, name, latitude_deg, longitude_deg, elevation_ft),
    }
}

pub open spec fn airport_stage_7(t: Seq<char>, j: int, id: Seq<char>, ident: Seq<char>, airport_type: Seq<char>, name: Seq<char>, latitude_deg: Seq<char>, longitude_deg: Seq<char>, elevation_ft: Option<int>) -> Option<(AirportView, int)> {
    match field_str(t, j, "continent"@, false) {
        None => None,
        Some((continent, j2)) => airport_stage_8(t, j2, id, ident, airport_type, name, latitude_deg, longitude_deg, elevation_ft, continent),
    }
}

pub open spec fn airport_stage_8(t: Seq<char>, j: int, id: Seq<char>, ident: Seq<char>, airport_type: Seq<char>, name: Seq<char>, latitude_deg: Seq<char>, longitude_deg: Seq<char>, elevation_ft: Option<int>, continent: Seq<char>) -> Option<(AirportView, int)> {
    match field_str(t, j, "iso_country"@, false) {
        None => None,
        Some((iso_country, j2)) => airport_stage_9(t, j2, id, ident, airport_type, name, latitude_deg, longitude_deg, elevation_ft, continent, iso_country),
    }
}

pub open spec fn airport_stage_9(t: Seq<char>, j: int, id: Seq<char>, ident: Seq<char>, airport_type: Seq<char>, name: Seq<char>, latitude_deg: Seq<char>, longitude_deg: Seq<char>, elevation_ft: Option<int>, continent: Seq<char>, iso_country: Seq<char>) -> Option<(AirportView, int)> {
    match field_str(t, j, "iso_region"@, false) {
        None => None,
        Some((iso_region, j2)) => airport_stage_10(t, j2, id, ident, airport_type, name, latitude_deg, longitude_deg, elevation_ft, continent, iso_country, iso_region),
    }
}

pub open spec fn airport_stage_10(t: Seq<char>, j: int, id: Seq<char>, ident: Seq<char>, airport_type: Seq<char>, name: Seq<char>, latitude_deg: Seq<char>, longitude_deg: Seq<char>, elevation_ft: Option<int>, continent: Seq<char>, iso_country: Seq<char>, iso_region: Seq<char>) -> Option<(AirportView, int)> {
    match field_str(t, j, "municipality"@, false) {
        None => None,
        Some((municipality, j2)) => airport_stage_11(t, j2, id, ident, airport_type, name, latitude_deg, longitude_deg, elevation_ft, continent, iso_country, iso_region, municipality),
    }
}

pub open spec fn airport_stage_11(t: Seq<char>, j: int, id: Seq<char>, ident: Seq<char>, airport_type: Seq<char>, name: Seq<char>, latitude_deg: Seq<char>, longitude_deg: Seq<char>, elevation_ft: Option<int>, continent: Seq<char>, iso_country: Seq<char>, iso_region: Seq<char>, municipality: Seq<char>) -> Option<(AirportView, int)> {
    match field_bool(t, j, "scheduled_service"@, false) {
        None => None,
        Some((scheduled_service, j2)) => airport_stage_12(t, j2, id, ident, airport_type, name, latitude_deg, longitude_deg, elevation_ft, continent, iso_country, iso_region, municipality, scheduled_service),
    }
}

pub open spec fn airport_stage_12(t: Seq<char>, j: int, id: Seq<char>, ident: Seq<char>, airport_type: Seq<char>, name: Seq<char>, latitude_deg: Seq<char>, longitude_deg: Seq<char>, elevation_ft: Option<int>, continent: Seq<char>, iso_country: Seq<char>, iso_region: Seq<char>, municipality: Seq<char>, scheduled_service: bool) -> Option<(AirportView, int)> {
    match field_str(t, j, "gps_code"@, false) {
        None => None,
        Some((gps_code, j2)) => airport_stage_13(t, j2, id, ident, airport_type, name, latitude_deg, longitude_deg, elevation_ft, continent, iso_country, iso_region, municipality, scheduled_service, gps_code),
    }
}

pub open spec fn airport_stage_13(t: Seq<char>, j: int, id: Seq<char>, ident: Seq<char>, airport_type: Seq<char>, name: Seq<char>, latitude_deg: Seq<char>, longitude_deg: Seq<char>, elevation_ft: Option<int>, continent: Seq<char>, iso_country: Seq<char>, iso_region: Seq<char>, municipality: Seq<char>, scheduled_service: bool, gps_code: Seq<char>) -> Option<(AirportView, int)> {
    match field_str(t, j, "iata_code"@, false) {
        None => None,
        Some((iata_code, j2)) => airport_stage_14(t, j2, id, ident, airport_type, name, latitude_deg, longitude_deg, elevation_ft, continent, iso_country, iso_region, municipality, scheduled_service, gps_code, iata_code),
    }
}

pub open spec fn airport_stage_14(t: Seq<char>, j: int, id: Seq<char>, ident: Seq<char>, airport_type: Seq<char>, name: Seq<char>, latitude_deg: Seq<char>, longitude_deg: Seq<char>, elevation_ft: Option<int>, continent: Seq<char>, iso_country: Seq<char>, iso_region: Seq<char>, municipality: Seq<char>, scheduled_service: bool, gps_code: Seq<char>, iata_code: Seq<char>) -> Option<(AirportView, int)> {
    match field_str(t, j, "local_code"@, false) {
        None => None,
        Some((local_code, j2)) => airport_stage_15(t, j2, id, ident, airport_type, name, latitude_deg, longitude_deg, elevation_ft, continent, iso_country, iso_region, municipality, scheduled_service, gps_code, iata_code, local_code),
    }
}

pub open spec fn airport_stage_15(t: Seq<char>, j: int, id: Seq<char>, ident: Seq<char>, airport_type: Seq<char>, name: Seq<char>, latitude_deg: Seq<char>, longitude_deg: Seq<char>, elevation_ft: Option<int>, continent: Seq<char>, iso_country: Seq<char>, iso_region: Seq<char>, municipality: Seq<char>, scheduled_service: bool, gps_code: Seq<char>, iata_code: Seq<char>, local_code: Seq<char>) -> Option<(AirportView, int)> {
    match field_str(t, j, "home_link"@, false) {
        None => None,
        Some((home_link, j2)) => airport_stage_16(t, j2, id, ident, airport_type, name, latitude_deg, longitude_deg, elevation_ft, continent, iso_country, iso_region, municipality, scheduled_service, gps_code, iata_code, local_code, home_link),
    }
}

pub open spec fn airport_stage_16(t: Seq<char>, j: int, id: Seq<char>, ident: Seq<char>, airport_type: Seq<char>, name: Seq<char>, latitude_deg: Seq<char>, longitude_deg: Seq<char>, elevation_ft: Option<int>, continent: Seq<char>, iso_country: Seq<char>, iso_region: Seq<char>, municipality: Seq<char>, scheduled_service: bool, gps_code: Seq<char>, iata_code: Seq<char>, local_code: Seq<char>, home_link: Seq<char>) -> Option<(AirportView, int)> {
    match field_str(t, j, "wikipedia_link"@, false) {
        None => None,
        Some((wikipedia_link, j2)) => airport_stage_17(t, j2, id, ident, airport_type, name, latitude_deg, longitude_deg, elevation_ft, continent, iso_country, iso_region, municipality, scheduled_service, gps_code, iata_code, local_code, home_link, wikipedia_link),
    }
}

pub open spec fn airport_stage_17(t: Seq<char>, j: int, id: Seq<char>, ident: Seq<char>, airport_type: Seq<char>, name: Seq<char>, latitude_deg: Seq<char>, longitude_deg: Seq<char>, elevation_ft: Option<int>, continent: Seq<char>, iso_country: Seq<char>, iso_region: Seq<char>, municipality: Seq<char>, scheduled_service: bool, gps_code: Seq<char>, iata_code: Seq<char>, local_code: Seq<char>, home_link: Seq<char>, wikipedia_link: Seq<char>) -> Option<(AirportView, int)> {
    match field_list(t, j, "keywords"@, false) {
        None => None,
        Some((keywords, j2)) => airport_stage_18(t, j2, id, ident, airport_type, name, latitude_deg, longitude_deg, elevation_ft, continent, iso_country, iso_region, municipality, scheduled_service, gps_code, iata_code, local_code, home_link, wikipedia_link, keywords),
    }
}

pub open spec fn airport_stage_18(t: Seq<char>, j: int, id: Seq<char>, ident: Seq<char>, airport_type: Seq<char>, name: Seq<char>, latitude_deg: Seq<char>, longitude_deg: Seq<char>, elevation_ft: Option<int>, continent: Seq<char>, iso_country: Seq<char>, iso_region: Seq<char>, municipality: Seq<char>, scheduled_service: bool, gps_code: Seq<char>, iata_code: Seq<char>, local_code: Seq<char>, home_link: Seq<char>, wikipedia_link: Seq<char>, keywords: Seq<Seq<char>>) -> Option<(AirportView, int)> {
    match expect(t, j, seq!['}']) {
        None => None,
        Some(j2) => Some(
            (AirportView { id, ident, airport_type, name, latitude_deg, longitude_deg, elevation_ft, continent, iso_country, iso_region, municipality, scheduled_service, gps_code, iata_code, local_code, home_link, wikipedia_link, keywords }, j2),
        ),
    }
}

/// Reads one airport record object in the canonical compact form: each
/// key expected in field order, with string, raw-number, optional-
/// integer, boolean and string-list values at their columns.
pub open spec fn parse_airport_obj(t: Seq<char>, i: int) -> Option<(AirportView, int)> {
    match expect(t, i, seq!['{']) {
        None => None,
        Some(j0) => airport_stage_0(t, j0),
    }
}

/// Reads a whole single-record airport document in the canonical
/// compact form.
pub open spec fn parse_airport_doc(t: Seq<char>) -> Option<AirportView> {
    match expect(t, 0, seq!['[']) {
        None => None,
        Some(i) => match parse_airport_obj(t, i) {
            None => None,
            Some((a, j)) => if expect(t, j, seq![']']) == Some(t.len() as int) {
                Some(a)
            } else {
                None
            },
        },
    }
}

/// The rendered field items of an airport object, in field order.
pub open spec fn airport_items(a: AirportView) -> Seq<Seq<char>> {
    crate::records::airport::airport_pairs(a, false).map_values(
        |p: (Seq<char>, Seq<char>)| jstr(p.0) + seq![':'] + p.1,
    )
}

/// Reading airport fields 16 and 17 and the closing brace, given the text from the
/// cursor on is their rendering followed by the rest of the object.
#[verifier::rlimit(100)]
#[verifier::spinoff_prover]
proof fn lemma_airport_seg16(t: Seq<char>, pre: Seq<char>, a: AirportView, post: Seq<char>)
    requires
        crate::records::airport::airport_wf(a),
        t == pre + (seq![','] + (crate::json::join_with(airport_items(a).skip(16), seq![',']) + (seq!['}'] + post))),
    ensures
        airport_stage_16(
            t,
            pre.len() as int,
            a.id,
            a.ident,
            a.airport_type,
            a.name,
            a.latitude_deg,
            a.longitude_deg,
            a.elevation_ft,
            a.continent,
            a.iso_country,
            a.iso_region,
            a.municipality,
            a.scheduled_service,
            a.gps_code,
            a.iata_code,
            a.local_code,
            a.home_link,
        ) == Some(
            (
                AirportView {
                    id: a.id,
                    ident: a.ident,
                    airport_type: a.airport_type,
                    name: a.name,
                    latitude_deg: a.latitude_deg,
                    longitude_deg: a.longitude_deg,
                    elevation_ft: a.elevation_ft,
                    continent: a.continent,
                    iso_country: a.iso_country,
                    iso_region: a.iso_region,
                    municipality: a.municipality,
                    scheduled_service: a.scheduled_service,
                    gps_code: a.gps_code,
                    iata_code: a.iata_code,
                    local_code: a.local_code,
                    home_link: a.home_link,
                    wikipedia_link: a.wikipedia_link,
                    keywords: a.keywords,
                },
                (pre.len() + 1 + crate::json::join_with(airport_items(a).skip(16), seq![',']).len() + 1) as int,
            ),
        ),
{
    let fc = |p: (Seq<char>, Seq<char>)| jstr(p.0) + seq![':'] + p.1;
    let pairs = crate::records::airport::airport_pairs(a, false);
    let items = airport_items(a);
    assert(items == pairs.map_values(fc)) by {
        assert(fc == (|p: (Seq<char>, Seq<char>)| jstr(p.0) + seq![':'] + p.1));
    }
    let sep = seq![','];
    assert(items.len() == 18);
    let kl16 = jstr("wikipedia_link"@) + seq![':'];
    let v16 = jstr(a.wikipedia_link);
    assert(items[16] == kl16 + v16);
    let kl17 = jstr("keywords"@) + seq![':'];
    let v17 = crate::json::jlist(a.keywords, false);
    assert(items[17] == kl17 + v17);
    let jt16 = crate::json::join_with(items.skip(16), sep);
    let jt17 = crate::json::join_with(items.skip(17), sep);
    assert(items.skip(16).len() == 2);
    assert(items.skip(16)[0] == items[16]);
    assert(items.skip(16).drop_first() =~= items.skip(17));
    assert(jt16 == items[16] + sep + jt17);
    assert(items.skip(17).len() == 1);
    assert(items.skip(17)[0] == items[17]);
    assert(jt17 == items[17]);
    let ccb = seq!['}'] + post;
    assert(t == pre + (sep + (jt16 + ccb)));
    // field wikipedia_link
    assert(sep + (jt16 + ccb) == (sep + kl16) + (v16 + (sep + (jt17 + ccb)))) by {
        lemma_assoc((kl16 + v16) + sep, jt17, ccb);
        lemma_assoc(kl16 + v16, sep, jt17 + ccb);
        lemma_assoc(kl16, v16, sep + (jt17 + ccb));
        lemma_assoc(sep, kl16, v16 + (sep + (jt17 + ccb)));
    }
    assert(klit("wikipedia_link"@, false) == sep + kl16) by {
        lemma_assoc(sep, jstr("wikipedia_link"@), seq![':']);
    }
    lemma_assoc(pre, sep + kl16, v16 + (sep + (jt17 + ccb)));
    assert(t == pre + klit("wikipedia_link"@, false) + (v16 + (sep + (jt17 + ccb))));
    lemma_field_str(t, pre, "wikipedia_link"@, false, a.wikipedia_link, sep + (jt17 + ccb));
    let w17 = (pre + klit("wikipedia_link"@, false)) + v16;
    // field keywords
    assert(sep + (jt17 + ccb) == (sep + kl17) + (v17 + ccb)) by {
        lemma_assoc(kl17, v17, ccb);
        lemma_assoc(sep, kl17, v17 + ccb);
    }
    assert(klit("keywords"@, false) == sep + kl17) by {
        lemma_assoc(sep, jstr("keywords"@), seq![':']);
    }
    lemma_assoc(w17, sep + kl17, v17 + (ccb));
    assert(t == w17 + klit("keywords"@, false) + (v17 + (ccb)));
    lemma_field_list(t, w17, "keywords"@, false, a.keywords, ccb);
    let w18 = (w17 + klit("keywords"@, false)) + v17;
    let parsed = AirportView {
        id: a.id,
        ident: a.ident,
        airport_type: a.airport_type,
        name: a.name,
        latitude_deg: a.latitude_deg,
        longitude_deg: a.longitude_deg,
        elevation_ft: a.elevation_ft,
        continent: a.continent,
        iso_country: a.iso_country,
        iso_region: a.iso_region,
        municipality: a.municipality,
        scheduled_service: a.scheduled_service,
        gps_code: a.gps_code,
        iata_code: a.iata_code,
        local_code: a.local_code,
        home_link: a.home_link,
        wikipedia_link: a.wikipedia_link,
        keywords: a.keywords,
    };
    lemma_assoc(w18, seq!['}'], post);
    assert(t == w18 + seq!['}'] + post);
    lemma_step_expect(t, w18, seq!['}'], post);
    let fin = (w18.len() + 1) as int;
    assert(airport_stage_18(t, w18.len() as int, a.id, a.ident, a.airport_type, a.name, a.latitude_deg, a.longitude_deg, a.elevation_ft, a.continent, a.iso_country, a.iso_region, a.municipality, a.scheduled_service, a.gps_code, a.iata_code, a.local_code, a.home_link, a.wikipedia_link, a.keywords) == Some((parsed, fin)));
    assert(airport_stage_17(t, w17.len() as int, a.id, a.ident, a.airport_type, a.name, a.latitude_deg, a.longitude_deg, a.elevation_ft, a.continent, a.iso_country, a.iso_region, a.municipality, a.scheduled_service, a.gps_code, a.iata_code, a.local_code, a.home_link, a.wikipedia_link) == Some((parsed, fin)));
    assert(airport_stage_16(t, pre.len() as int, a.id, a.ident, a.airport_type, a.name, a.latitude_deg, a.longitude_deg, a.elevation_ft, a.continent, a.iso_country, a.iso_region, a.municipality, a.scheduled_service, a.gps_code, a.iata_code, a.local_code, a.home_link) == Some((parsed, fin)));
    assert(fin == (pre.len() + 1 + jt16.len() + 1) as int);
}

/// Reading airport fields 14 and 15, given the text from the
/// cursor on is their rendering followed by the rest of the object.
#[verifier::rlimit(100)]
#[verifier::spinoff_prover]
proof fn lemma_airport_seg14(t: Seq<char>, pre: Seq<char>, a: AirportView, post: Seq<char>)
    requires
        crate::records::airport::airport_wf(a),
        t == pre + (seq![','] + (crate::json::join_with(airport_items(a).skip(14), seq![',']) + (seq!['}'] + post))),
    ensures
        airport_stage_14(
            t,
            pre.len() as int,
            a.id,
            a.ident,
            a.airport_type,
            a.name,
            a.latitude_deg,
            a.longitude_deg,
            a.elevation_ft,
            a.continent,
            a.iso_country,
            a.iso_region,
            a.municipality,
            a.scheduled_service,
            a.gps_code,
            a.iata_code,
        ) == Some(
            (
                AirportView {
                    id: a.id,
                    ident: a.ident,
                    airport_type: a.airport_type,
                    name: a.name,
                    latitude_deg: a.latitude_deg,
                    longitude_deg: a.longitude_deg,
                    elevation_ft: a.elevation_ft,
                    continent: a.continent,
                    iso_country: a.iso_country,
                    iso_region: a.iso_region,
                    municipality: a.municipality,
                    scheduled_service: a.scheduled_service,
                    gps_code: a.gps_code,
                    iata_code: a.iata_code,
                    local_code: a.local_code,
                    home_link: a.home_link,
                    wikipedia_link: a.wikipedia_link,
                    keywords: a.keywords,
                },
                (pre.len() + 1 + crate::json::join_with(airport_items(a).skip(14), seq![',']).len() + 1) as int,
            ),
        ),
{
    let fc = |p: (Seq<char>, Seq<char>)| jstr(p.0) + seq![':'] + p.1;
    let pairs = crate::records::airport::airport_pairs(a, false);
    let items = airport_items(a);
    assert(items == pairs.map_values(fc)) by {
        assert(fc == (|p: (Seq<char>, Seq<char>)| jstr(p.0) + seq![':'] + p.1));
    }
    let sep = seq![','];
    assert(items.len() == 18);
    let kl14 = jstr("local_code"@) + seq![':'];
    let v14 = jstr(a.local_code);
    assert(items[14] == kl14 + v14);
    let kl15 = jstr("home_link"@) + seq![':'];
    let v15 = jstr(a.home_link);
    assert(items[15] == kl15 + v15);
    let jt14 = crate::json::join_with(items.skip(14), sep);
    let jt15 = crate::json::join_with(items.skip(15), sep);
    let jt16 = crate::json::join_with(items.skip(16), sep);
    assert(items.skip(14).len() == 4);
    assert(items.skip(14)[0] == items[14]);
    assert(items.skip(14).drop_first() =~= items.skip(15));
    assert(jt14 == items[14] + sep + jt15);
    assert(items.skip(15).len() == 3);
    assert(items.skip(15)[0] == items[15]);
    assert(items.skip(15).drop_first() =~= items.skip(16));
    assert(jt15 == items[15] + sep + jt16);
    let ccb = seq!['}'] + post;
    assert(t == pre + (sep + (jt14 + ccb)));
    // field local_code
    assert(sep + (jt14 + ccb) == (sep + kl14) + (v14 + (sep + (jt15 + ccb)))) by {
        lemma_assoc((kl14 + v14) + sep, jt15, ccb);
        lemma_assoc(kl14 + v14, sep, jt15 + ccb);
        lemma_assoc(kl14, v14, sep + (jt15 + ccb));
        lemma_assoc(sep, kl14, v14 + (sep + (jt15 + ccb)));
    }
    assert(klit("local_code"@, false) == sep + kl14) by {
        lemma_assoc(sep, jstr("local_code"@), seq![':']);
    }
    lemma_assoc(pre, sep + kl14, v14 + (sep + (jt15 + ccb)));
    assert(t == pre + klit("local_code"@, false) + (v14 + (sep + (jt15 + ccb))));
    lemma_field_str(t, pre, "local_code"@, false, a.local_code, sep + (jt15 + ccb));
    let w15 = (pre + klit("local_code"@, false)) + v14;
    // field home_link
    assert(sep + (jt15 + ccb) == (sep + kl15) + (v15 + (sep + (jt16 + ccb)))) by {
        lemma_assoc((kl15 + v15) + sep, jt16, ccb);
        lemma_assoc(kl15 + v15, sep, jt16 + ccb);
        lemma_assoc(kl15, v15, sep + (jt16 + ccb));
        lemma_assoc(sep, kl15, v15 + (sep + (jt16 + ccb)));
    }
    assert(klit("home_link"@, false) == sep + kl15) by {
        lemma_assoc(sep, jstr("home_link"@), seq![':']);
    }
    lemma_assoc(w15, sep + kl15, v15 + (sep + (jt16 + ccb)));
    assert(t == w15 + klit("home_link"@, false) + (v15 + (sep + (jt16 + ccb))));
    lemma_field_str(t, w15, "home_link"@, false, a.home_link, sep + (jt16 + ccb));
    let w16 = (w15 + klit("home_link"@, false)) + v15;
    let parsed = AirportView {
        id: a.id,
        ident: a.ident,
        airport_type: a.airport_type,
        name: a.name,
        latitude_deg: a.latitude_deg,
        longitude_deg: a.longitude_deg,
        elevation_ft: a.elevation_ft,
        continent: a.continent,
        iso_country: a.iso_country,
        iso_region: a.iso_region,
        municipality: a.municipality,
        scheduled_service: a.scheduled_service,
        gps_code: a.gps_code,
        iata_code: a.iata_code,
        local_code: a.local_code,
        home_link: a.home_link,
        wikipedia_link: a.wikipedia_link,
        keywords: a.keywords,
    };
    assert(t == w16 + (sep + (jt16 + ccb)));
    lemma_airport_seg16(t, w16, a, post);
    let fin = (w16.len() + 1 + jt16.len() + 1) as int;
    assert(airport_stage_15(t, w15.len() as int, a.id, a.ident, a.airport_type, a.name, a.latitude_deg, a.longitude_deg, a.elevation_ft, a.continent, a.iso_country, a.iso_region, a.municipality, a.scheduled_service, a.gps_code, a.iata_code, a.local_code) == Some((parsed, fin)));
    assert(airport_stage_14(t, pre.len() as int, a.id, a.ident, a.airport_type, a.name, a.latitude_deg, a.longitude_deg, a.elevation_ft, a.continent, a.iso_country, a.iso_region, a.municipality, a.scheduled_service, a.gps_code, a.iata_code) == Some((parsed, fin)));
    assert(fin == (pre.len() + 1 + jt14.len() + 1) as int);
}

/// Reading airport fields 12 and 13, given the text from the
/// cursor on is their rendering followed by the rest of the object.
#[verifier::rlimit(100)]
#[verifier::spinoff_prover]
proof fn lemma_airport_seg12(t: Seq<char>, pre: Seq<char>, a: AirportView, post: Seq<char>)
    requires
        crate::records::airport::airport_wf(a),
        t == pre + (seq![','] + (crate::json::join_with(airport_items(a).skip(12), seq![',']) + (seq!['}'] + post))),
    ensures
        airport_stage_12(
            t,
            pre.len() as int,
            a.id,
            a.ident,
            a.airport_type,
            a.name,
            a.latitude_deg,
            a.longitude_deg,
            a.elevation_ft,
            a.continent,
            a.iso_country,
            a.iso_region,
            a.municipality,
            a.scheduled_service,
        ) == Some(
            (
                AirportView {
                    id: a.id,
                    ident: a.ident,
                    airport_type: a.airport_type,
                    name: a.name,
                    latitude_deg: a.latitude_deg,
                    longitude_deg: a.longitude_deg,
                    elevation_ft: a.elevation_ft,
                    continent: a.continent,
                    iso_country: a.iso_country,
                    iso_region: a.iso_region,
                    municipality: a.municipality,
                    scheduled_service: a.scheduled_service,
                    gps_code: a.gps_code,
                    iata_code: a.iata_code,
                    local_code: a.local_code,
                    home_link: a.home_link,
                    wikipedia_link: a.wikipedia_link,
                    keywords: a.keywords,
                },
                (pre.len() + 1 + crate::json::join_with(airport_items(a).skip(12), seq![',']).len() + 1) as int,
            ),
        ),
{
    let fc = |p: (Seq<char>, Seq<char>)| jstr(p.0) + seq![':'] + p.1;
    let pairs = crate::records::airport::airport_pairs(a, false);
    let items = airport_items(a);
    assert(items == pairs.map_values(fc)) by {
        assert(fc == (|p: (Seq<char>, Seq<char>)| jstr(p.0) + seq![':'] + p.1));
    }
    let sep = seq![','];
    assert(items.len() == 18);
    let kl12 = jstr("gps_code"@) + seq![':'];
    let v12 = jstr(a.gps_code);
    assert(items[12] == kl12 + v12);
    let kl13 = jstr("iata_code"@) + seq![':'];
    let v13 = jstr(a.iata_code);
    assert(items[13] == kl13 + v13);
    let jt12 = crate::json::join_with(items.skip(12), sep);
    let jt13 = crate::json::join_with(items.skip(13), sep);
    let jt14 = crate::json::join_with(items.skip(14), sep);
    assert(items.skip(12).len() == 6);
    assert(items.skip(12)[0] == items[12]);
    assert(items.skip(12).drop_first() =~= items.skip(13));
    assert(jt12 == items[12] + sep + jt13);
    assert(items.skip(13).len() == 5);
    assert(items.skip(13)[0] == items[13]);
    assert(items.skip(13).drop_first() =~= items.skip(14));
    assert(jt13 == items[13] + sep + jt14);
    let ccb = seq!['}'] + post;
    assert(t == pre + (sep + (jt12 + ccb)));
    // field gps_code
    assert(sep + (jt12 + ccb) == (sep + kl12) + (v12 + (sep + (jt13 + ccb)))) by {
        lemma_assoc((kl12 + v12) + sep, jt13, ccb);
        lemma_assoc(kl12 + v12, sep, jt13 + ccb);
        lemma_assoc(kl12, v12, sep + (jt13 + ccb));
        lemma_assoc(sep, kl12, v12 + (sep + (jt13 + ccb)));
    }
    assert(klit("gps_code"@, false) == sep + kl12) by {
        lemma_assoc(sep, jstr("gps_code"@), seq![':']);
    }
    lemma_assoc(pre, sep + kl12, v12 + (sep + (jt13 + ccb)));
    assert(t == pre + klit("gps_code"@, false) + (v12 + (sep + (jt13 + ccb))));
    lemma_field_str(t, pre, "gps_code"@, false, a.gps_code, sep + (jt13 + ccb));
    let w13 = (pre + klit("gps_code"@, false)) + v12;
    // field iata_code
    assert(sep + (jt13 + ccb) == (sep + kl13) + (v13 + (sep + (jt14 + ccb)))) by {
        lemma_assoc((kl13 + v13) + sep, jt14, ccb);
        lemma_assoc(kl13 + v13, sep, jt14 + ccb);
        lemma_assoc(kl13, v13, sep + (jt14 + ccb));
        lemma_assoc(sep, kl13, v13 + (sep + (jt14 + ccb)));
    }
    assert(klit("iata_code"@, false) == sep + kl13) by {
        lemma_assoc(sep, jstr("iata_code"@), seq![':']);
    }
    lemma_assoc(w13, sep + kl13, v13 + (sep + (jt14 + ccb)));
    assert(t == w13 + klit("iata_code"@, false) + (v13 + (sep + (jt14 + ccb))));
    lemma_field_str(t, w13, "iata_code"@, false, a.iata_code, sep + (jt14 + ccb));
    let w14 = (w13 + klit("iata_code"@, false)) + v13;
    let parsed = AirportView {
        id: a.id,
        ident: a.ident,
        airport_type: a.airport_type,
        name: a.name,
        latitude_deg: a.latitude_deg,
        longitude_deg: a.longitude_deg,
        elevation_ft: a.elevation_ft,
        continent: a.continent,
        iso_country: a.iso_country,
        iso_region: a.iso_region,
        municipality: a.municipality,
        scheduled_service: a.scheduled_service,
        gps_code: a.gps_code,
        iata_code: a.iata_code,
        local_code: a.local_code,
        home_link: a.home_link,
        wikipedia_link: a.wikipedia_link,
        keywords: a.keywords,
    };
    assert(t == w14 + (sep + (jt14 + ccb)));
    lemma_airport_seg14(t, w14, a, post);
    let fin = (w14.len() + 1 + jt14.len() + 1) as int;
    assert(airport_stage_13(t, w13.len() as int, a.id, a.ident, a.airport_type, a.name, a.latitude_deg, a.longitude_deg, a.elevation_ft, a.continent, a.iso_country, a.iso_region, a.municipality, a.scheduled_service, a.gps_code) == Some((parsed, fin)));
    assert(airport_stage_12(t, pre.len() as int, a.id, a.ident, a.airport_type, a.name, a.latitude_deg, a.longitude_deg, a.elevation_ft, a.continent, a.iso_country, a.iso_region, a.municipality, a.scheduled_service) == Some((parsed, fin)));
    assert(fin == (pre.len() + 1 + jt12.len() + 1) as int);
}

/// Reading airport fields 10 and 11, given the text from the
/// cursor on is their rendering followed by the rest of the object.
#[verifier::rlimit(100)]
#[verifier::spinoff_prover]
proof fn lemma_airport_seg10(t: Seq<char>, pre: Seq<char>, a: AirportView, post: Seq<char>)
    requires
        crate::records::airport::airport_wf(a),
        t == pre + (seq![','] + (crate::json::join_with(airport_items(a).skip(10), seq![',']) + (seq!['}'] + post))),
    ensures
        airport_stage_10(
            t,
            pre.len() as int,
            a.id,
            a.ident,
            a.airport_type,
            a.name,
            a.latitude_deg,
            a.longitude_deg,
            a.elevation_ft,
            a.continent,
            a.iso_country,
            a.iso_region,
        ) == Some(
            (
                AirportView {
                    id: a.id,
                    ident: a.ident,
                    airport_type: a.airport_type,
                    name: a.name,
                    latitude_deg: a.latitude_deg,
                    longitude_deg: a.longitude_deg,
                    elevation_ft: a.elevation_ft,
                    continent: a.continent,
                    iso_country: a.iso_country,
                    iso_region: a.iso_region,
                    municipality: a.municipality,
                    scheduled_service: a.scheduled_service,
                    gps_code: a.gps_code,
                    iata_code: a.iata_code,
                    local_code: a.local_code,
                    home_link: a.home_link,
                    wikipedia_link: a.wikipedia_link,
                    keywords: a.keywords,
                },
                (pre.len() + 1 + crate::json::join_with(airport_items(a).skip(10), seq![',']).len() + 1) as int,
            ),
        ),
{
    let fc = |p: (Seq<char>, Seq<char>)| jstr(p.0) + seq![':'] + p.1;
    let pairs = crate::records::airport::airport_pairs(a, false);
    let items = airport_items(a);
    assert(items == pairs.map_values(fc)) by {
        assert(fc == (|p: (Seq<char>, Seq<char>)| jstr(p.0) + seq![':'] + p.1));
    }
    let sep = seq![','];
    assert(items.len() == 18);
    let kl10 = jstr("municipality"@) + seq![':'];
    let v10 = jstr(a.municipality);
    assert(items[10] == kl10 + v10);
    let kl11 = jstr("scheduled_service"@) + seq![':'];
    let v11 = crate::json::jbool(a.scheduled_service);
    assert(items[11] == kl11 + v11);
    let jt10 = crate::json::join_with(items.skip(10), sep);
    let jt11 = crate::json::join_with(items.skip(11), sep);
    let jt12 = crate::json::join_with(items.skip(12), sep);
    assert(items.skip(10).len() == 8);
    assert(items.skip(10)[0] == items[10]);
    assert(items.skip(10).drop_first() =~= items.skip(11));
    assert(jt10 == items[10] + sep + jt11);
    assert(items.skip(11).len() == 7);
    assert(items.skip(11)[0] == items[11]);
    assert(items.skip(11).drop_first() =~= items.skip(12));
    assert(jt11 == items[11] + sep + jt12);
    let ccb = seq!['}'] + post;
    assert(t == pre + (sep + (jt10 + ccb)));
    // field municipality
    assert(sep + (jt10 + ccb) == (sep + kl10) + (v10 + (sep + (jt11 + ccb)))) by {
        lemma_assoc((kl10 + v10) + sep, jt11, ccb);
        lemma_assoc(kl10 + v10, sep, jt11 + ccb);
        lemma_assoc(kl10, v10, sep + (jt11 + ccb));
        lemma_assoc(sep, kl10, v10 + (sep + (jt11 + ccb)));
    }
    assert(klit("municipality"@, false) == sep + kl10) by {
        lemma_assoc(sep, jstr("municipality"@), seq![':']);
    }
    lemma_assoc(pre, sep + kl10, v10 + (sep + (jt11 + ccb)));
    assert(t == pre + klit("municipality"@, false) + (v10 + (sep + (jt11 + ccb))));
    lemma_field_str(t, pre, "municipality"@, false, a.municipality, sep + (jt11 + ccb));
    let w11 = (pre + klit("municipality"@, false)) + v10;
    // field scheduled_service
    assert(sep + (jt11 + ccb) == (sep + kl11) + (v11 + (sep + (jt12 + ccb)))) by {
        lemma_assoc((kl11 + v11) + sep, jt12, ccb);
        lemma_assoc(kl11 + v11, sep, jt12 + ccb);
        lemma_assoc(kl11, v11, sep + (jt12 + ccb));
        lemma_assoc(sep, kl11, v11 + (sep + (jt12 + ccb)));
    }
    assert(klit("scheduled_service"@, false) == sep + kl11) by {
        lemma_assoc(sep, jstr("scheduled_service"@), seq![':']);
    }
    lemma_assoc(w11, sep + kl11, v11 + (sep + (jt12 + ccb)));
    assert(t == w11 + klit("scheduled_service"@, false) + (v11 + (sep + (jt12 + ccb))));
    lemma_field_bool(t, w11, "scheduled_service"@, false, a.scheduled_service, sep + (jt12 + ccb));
    let w12 = (w11 + klit("scheduled_service"@, false)) + v11;
    let parsed = AirportView {
        id: a.id,
        ident: a.ident,
        airport_type: a.airport_type,
        name: a.name,
        latitude_deg: a.latitude_deg,
        longitude_deg: a.longitude_deg,
        elevation_ft: a.elevation_ft,
        continent: a.continent,
        iso_country: a.iso_country,
        iso_region: a.iso_region,
        municipality: a.municipality,
        scheduled_service: a.scheduled_service,
        gps_code: a.gps_code,
        iata_code: a.iata_code,
        local_code: a.local_code,
        home_link: a.home_link,
        wikipedia_link: a.wikipedia_link,
        keywords: a.keywords,
    };
    assert(t == w12 + (sep + (jt12 + ccb)));
    lemma_airport_seg12(t, w12, a, post);
    let fin = (w12.len() + 1 + jt12.len() + 1) as int;
    assert(airport_stage_11(t, w11.len() as int, a.id, a.ident, a.airport_type, a.name, a.latitude_deg, a.longitude_deg, a.elevation_ft, a.continent, a.iso_country, a.iso_region, a.municipality) == Some((parsed, fin)));
    assert(airport_stage_10(t, pre.len() as int, a.id, a.ident, a.airport_type, a.name, a.latitude_deg, a.longitude_deg, a.elevation_ft, a.continent, a.iso_country, a.iso_region) == Some((parsed, fin)));
    assert(fin == (pre.len() + 1 + jt10.len() + 1) as int);
}

/// Reading airport fields 8 and 9, given the text from the
/// cursor on is their rendering followed by the rest of the object.
#[verifier::rlimit(100)]
#[verifier::spinoff_prover]
proof fn lemma_airport_seg8(t: Seq<char>, pre: Seq<char>, a: AirportView, post: Seq<char>)
    requires
        crate::records::airport::airport_wf(a),
        t == pre + (seq![','] + (crate::json::join_with(airport_items(a).skip(8), seq![',']) + (seq!['}'] + post))),
    ensures
        airport_stage_8(
            t,
            pre.len() as int,
            a.id,
            a.ident,
            a.airport_type,
            a.name,
            a.latitude_deg,
            a.longitude_deg,
            a.elevation_ft,
            a.continent,
        ) == Some(
            (
                AirportView {
                    id: a.id,
                    ident: a.ident,
                    airport_type: a.airport_type,
                    name: a.name,
                    latitude_deg: a.latitude_deg,
                    longitude_deg: a.longitude_deg,
                    elevation_ft: a.elevation_ft,
                    continent: a.continent,
                    iso_country: a.iso_country,
                    iso_region: a.iso_region,
                    municipality: a.municipality,
                    scheduled_service: a.scheduled_service,
                    gps_code: a.gps_code,
                    iata_code: a.iata_code,
                    local_code: a.local_code,
                    home_link: a.home_link,
                    wikipedia_link: a.wikipedia_link,
                    keywords: a.keywords,
                },
                (pre.len() + 1 + crate::json::join_with(airport_items(a).skip(8), seq![',']).len() + 1) as int,
            ),
        ),
{
    let fc = |p: (Seq<char>, Seq<char>)| jstr(p.0) + seq![':'] + p.1;
    let pairs = crate::records::airport::airport_pairs(a, false);
    let items = airport_items(a);
    assert(items == pairs.map_values(fc)) by {
        assert(fc == (|p: (Seq<char>, Seq<char>)| jstr(p.0) + seq![':'] + p.1));
    }
    let sep = seq![','];
    assert(items.len() == 18);
    let kl8 = jstr("iso_country"@) + seq![':'];
    let v8 = jstr(a.iso_country);
    assert(items[8] == kl8 + v8);
    let kl9 = jstr("iso_region"@) + seq![':'];
    let v9 = jstr(a.iso_region);
    assert(items[9] == kl9 + v9);
    let jt8 = crate::json::join_with(items.skip(8), sep);
    let jt9 = crate::json::join_with(items.skip(9), sep);
    let jt10 = crate::json::join_with(items.skip(10), sep);
    assert(items.skip(8).len() == 10);
    assert(items.skip(8)[0] == items[8]);
    assert(items.skip(8).drop_first() =~= items.skip(9));
    assert(jt8 == items[8] + sep + jt9);
    assert(items.skip(9).len() == 9);
    assert(items.skip(9)[0] == items[9]);
    assert(items.skip(9).drop_first() =~= items.skip(10));
    assert(jt9 == items[9] + sep + jt10);
    let ccb = seq!['}'] + post;
    assert(t == pre + (sep + (jt8 + ccb)));
    // field iso_country
    assert(sep + (jt8 + ccb) == (sep + kl8) + (v8 + (sep + (jt9 + ccb)))) by {
        lemma_assoc((kl8 + v8) + sep, jt9, ccb);
        lemma_assoc(kl8 + v8, sep, jt9 + ccb);
        lemma_assoc(kl8, v8, sep + (jt9 + ccb));
        lemma_assoc(sep, kl8, v8 + (sep + (jt9 + ccb)));
    }
    assert(klit("iso_country"@, false) == sep + kl8) by {
        lemma_assoc(sep, jstr("iso_country"@), seq![':']);
    }
    lemma_assoc(pre, sep + kl8, v8 + (sep + (jt9 + ccb)));
    assert(t == pre + klit("iso_country"@, false) + (v8 + (sep + (jt9 + ccb))));
    lemma_field_str(t, pre, "iso_country"@, false, a.iso_country, sep + (jt9 + ccb));
    let w9 = (pre + klit("iso_country"@, false)) + v8;
    // field iso_region
    assert(sep + (jt9 + ccb) == (sep + kl9) + (v9 + (sep + (jt10 + ccb)))) by {
        lemma_assoc((kl9 + v9) + sep, jt10, ccb);
        lemma_assoc(kl9 + v9, sep, jt10 + ccb);
        lemma_assoc(kl9, v9, sep + (jt10 + ccb));
        lemma_assoc(sep, kl9, v9 + (sep + (jt10 + ccb)));
    }
    assert(klit("iso_region"@, false) == sep + kl9) by {
        lemma_assoc(sep, jstr("iso_region"@), seq![':']);
    }
    lemma_assoc(w9, sep + kl9, v9 + (sep + (jt10 + ccb)));
    assert(t == w9 + klit("iso_region"@, false) + (v9 + (sep + (jt10 + ccb))));
    lemma_field_str(t, w9, "iso_region"@, false, a.iso_region, sep + (jt10 + ccb));
    let w10 = (w9 + klit("iso_region"@, false)) + v9;
    let parsed = AirportView {
        id: a.id,
        ident: a.ident,
        airport_type: a.airport_type,
        name: a.name,
        latitude_deg: a.latitude_deg,
        longitude_deg: a.longitude_deg,
        elevation_ft: a.elevation_ft,
        continent: a.continent,
        iso_country: a.iso_country,
        iso_region: a.iso_region,
        municipality: a.municipality,
        scheduled_service: a.scheduled_service,
        gps_code: a.gps_code,
        iata_code: a.iata_code,
        local_code: a.local_code,
        home_link: a.home_link,
        wikipedia_link: a.wikipedia_link,
        keywords: a.keywords,
    };
    assert(t == w10 + (sep + (jt10 + ccb)));
    lemma_airport_seg10(t, w10, a, post);
    let fin = (w10.len() + 1 + jt10.len() + 1) as int;
    assert(airport_stage_9(t, w9.len() as int, a.id, a.ident, a.airport_type, a.name, a.latitude_deg, a.longitude_deg, a.elevation_ft, a.continent, a.iso_country) == Some((parsed, fin)));
    assert(airport_stage_8(t, pre.len() as int, a.id, a.ident, a.airport_type, a.name, a.latitude_deg, a.longitude_deg, a.elevation_ft, a.continent) == Some((parsed, fin)));
    assert(fin == (pre.len() + 1 + jt8.len() + 1) as int);
}

/// Reading airport fields 6 and 7, given the text from the
/// cursor on is their rendering followed by the rest of the object.
#[verifier::rlimit(100)]
#[verifier::spinoff_prover]
proof fn lemma_airport_seg6(t: Seq<char>, pre: Seq<char>, a: AirportView, post: Seq<char>)
    requires
        crate::records::airport::airport_wf(a),
        t == pre + (seq![','] + (crate::json::join_with(airport_items(a).skip(6), seq![',']) + (seq!['}'] + post))),
    ensures
        airport_stage_6(
            t,
            pre.len() as int,
            a.id,
            a.ident,
            a.airport_type,
            a.name,
            a.latitude_deg,
            a.longitude_deg,
        ) == Some(
            (
                AirportView {
                    id: a.id,
                    ident: a.ident,
                    airport_type: a.airport_type,
                    name: a.name,
                    latitude_deg: a.latitude_deg,
                    longitude_deg: a.longitude_deg,
                    elevation_ft: a.elevation_ft,
                    continent: a.continent,
                    iso_country: a.iso_country,
                    iso_region: a.iso_region,
                    municipality: a.municipality,
                    scheduled_service: a.scheduled_service,
                    gps_code: a.gps_code,
                    iata_code: a.iata_code,
                    local_code: a.local_code,
                    home_link: a.home_link,
                    wikipedia_link: a.wikipedia_link,
                    keywords: a.keywords,
                },
                (pre.len() + 1 + crate::json::join_with(airport_items(a).skip(6), seq![',']).len() + 1) as int,
            ),
        ),
{
    let fc = |p: (Seq<char>, Seq<char>)| jstr(p.0) + seq![':'] + p.1;
    let pairs = crate::records::airport::airport_pairs(a, false);
    let items = airport_items(a);
    assert(items == pairs.map_values(fc)) by {
        assert(fc == (|p: (Seq<char>, Seq<char>)| jstr(p.0) + seq![':'] + p.1));
    }
    let sep = seq![','];
    assert(items.len() == 18);
    let kl6 = jstr("elevation_ft"@) + seq![':'];
    let v6 = crate::json::jopt_int(a.elevation_ft);
    assert(items[6] == kl6 + v6);
    let kl7 = jstr("continent"@) + seq![':'];
    let v7 = jstr(a.continent);
    assert(items[7] == kl7 + v7);
    let jt6 = crate::json::join_with(items.skip(6), sep);
    let jt7 = crate::json::join_with(items.skip(7), sep);
    let jt8 = crate::json::join_with(items.skip(8), sep);
    assert(items.skip(6).len() == 12);
    assert(items.skip(6)[0] == items[6]);
    assert(items.skip(6).drop_first() =~= items.skip(7));
    assert(jt6 == items[6] + sep + jt7);
    assert(items.skip(7).len() == 11);
    assert(items.skip(7)[0] == items[7]);
    assert(items.skip(7).drop_first() =~= items.skip(8));
    assert(jt7 == items[7] + sep + jt8);
    let ccb = seq!['}'] + post;
    assert(t == pre + (sep + (jt6 + ccb)));
    // field elevation_ft
    assert(sep + (jt6 + ccb) == (sep + kl6) + (v6 + (sep + (jt7 + ccb)))) by {
        lemma_assoc((kl6 + v6) + sep, jt7, ccb);
        lemma_assoc(kl6 + v6, sep, jt7 + ccb);
        lemma_assoc(kl6, v6, sep + (jt7 + ccb));
        lemma_assoc(sep, kl6, v6 + (sep + (jt7 + ccb)));
    }
    assert(klit("elevation_ft"@, false) == sep + kl6) by {
        lemma_assoc(sep, jstr("elevation_ft"@), seq![':']);
    }
    lemma_assoc(pre, sep + kl6, v6 + (sep + (jt7 + ccb)));
    assert(t == pre + klit("elevation_ft"@, false) + (v6 + (sep + (jt7 + ccb))));
    assert((sep + (jt7 + ccb))[0] == ',');
    assert((sep + (jt7 + ccb)).len() > 0);
    lemma_field_opt_int(t, pre, "elevation_ft"@, false, a.elevation_ft, sep + (jt7 + ccb));
    let w7 = (pre + klit("elevation_ft"@, false)) + v6;
    // field continent
    assert(sep + (jt7 + ccb) == (sep + kl7) + (v7 + (sep + (jt8 + ccb)))) by {
        lemma_assoc((kl7 + v7) + sep, jt8, ccb);
        lemma_assoc(kl7 + v7, sep, jt8 + ccb);
        lemma_assoc(kl7, v7, sep + (jt8 + ccb));
        lemma_assoc(sep, kl7, v7 + (sep + (jt8 + ccb)));
    }
    assert(klit("continent"@, false) == sep + kl7) by {
        lemma_assoc(sep, jstr("continent"@), seq![':']);
    }
    lemma_assoc(w7, sep + kl7, v7 + (sep + (jt8 + ccb)));
    assert(t == w7 + klit("continent"@, false) + (v7 + (sep + (jt8 + ccb))));
    lemma_field_str(t, w7, "continent"@, false, a.continent, sep + (jt8 + ccb));
    let w8 = (w7 + klit("continent"@, false)) + v7;
    let parsed = AirportView {
        id: a.id,
        ident: a.ident,
        airport_type: a.airport_type,
        name: a.name,
        latitude_deg: a.latitude_deg,
        longitude_deg: a.longitude_deg,
        elevation_ft: a.elevation_ft,
        continent: a.continent,
        iso_country: a.iso_country,
        iso_region: a.iso_region,
        municipality: a.municipality,
        scheduled_service: a.scheduled_service,
        gps_code: a.gps_code,
        iata_code: a.iata_code,
        local_code: a.local_code,
        home_link: a.home_link,
        wikipedia_link: a.wikipedia_link,
        keywords: a.keywords,
    };
    assert(t == w8 + (sep + (jt8 + ccb)));
    lemma_airport_seg8(t, w8, a, post);
    let fin = (w8.len() + 1 + jt8.len() + 1) as int;
    assert(airport_stage_7(t, w7.len() as int, a.id, a.ident, a.airport_type, a.name, a.latitude_deg, a.longitude_deg, a.elevation_ft) == Some((parsed, fin)));
    assert(airport_stage_6(t, pre.len() as int, a.id, a.ident, a.airport_type, a.name, a.latitude_deg, a.longitude_deg) == Some((parsed, fin)));
    assert(fin == (pre.len() + 1 + jt6.len() + 1) as int);
}

/// Reading airport fields 4 and 5, given the text from the
/// cursor on is their rendering followed by the rest of the object.
#[verifier::rlimit(100)]
#[verifier::spinoff_prover]
proof fn lemma_airport_seg4(t: Seq<char>, pre: Seq<char>, a: AirportView, post: Seq<char>)
    requires
        crate::records::airport::airport_wf(a),
        t == pre + (seq![','] + (crate::json::join_with(airport_items(a).skip(4), seq![',']) + (seq!['}'] + post))),
    ensures
        airport_stage_4(
            t,
            pre.len() as int,
            a.id,
            a.ident,
            a.airport_type,
            a.name,
        ) == Some(
            (
                AirportView {
                    id: a.id,
                    ident: a.ident,
                    airport_type: a.airport_type,
                    name: a.name,
                    latitude_deg: a.latitude_deg,
                    longitude_deg: a.longitude_deg,
                    elevation_ft: a.elevation_ft,
                    continent: a.continent,
                    iso_country: a.iso_country,
                    iso_region: a.iso_region,
                    municipality: a.municipality,
                    scheduled_service: a.scheduled_service,
                    gps_code: a.gps_code,
                    iata_code: a.iata_code,
                    local_code: a.local_code,
                    home_link: a.home_link,
                    wikipedia_link: a.wikipedia_link,
                    keywords: a.keywords,
                },
                (pre.len() + 1 + crate::json::join_with(airport_items(a).skip(4), seq![',']).len() + 1) as int,
            ),
        ),
{
    let fc = |p: (Seq<char>, Seq<char>)| jstr(p.0) + seq![':'] + p.1;
    let pairs = crate::records::airport::airport_pairs(a, false);
    let items = airport_items(a);
    assert(items == pairs.map_values(fc)) by {
        assert(fc == (|p: (Seq<char>, Seq<char>)| jstr(p.0) + seq![':'] + p.1));
    }
    let sep = seq![','];
    assert(items.len() == 18);
    let kl4 = jstr("latitude_deg"@) + seq![':'];
    let v4 = a.latitude_deg;
    assert(items[4] == kl4 + v4);
    let kl5 = jstr("longitude_deg"@) + seq![':'];
    let v5 = a.longitude_deg;
    assert(items[5] == kl5 + v5);
    let jt4 = crate::json::join_with(items.skip(4), sep);
    let jt5 = crate::json::join_with(items.skip(5), sep);
    let jt6 = crate::json::join_with(items.skip(6), sep);
    assert(items.skip(4).len() == 14);
    assert(items.skip(4)[0] == items[4]);
    assert(items.skip(4).drop_first() =~= items.skip(5));
    assert(jt4 == items[4] + sep + jt5);
    assert(items.skip(5).len() == 13);
    assert(items.skip(5)[0] == items[5]);
    assert(items.skip(5).drop_first() =~= items.skip(6));
    assert(jt5 == items[5] + sep + jt6);
    let ccb = seq!['}'] + post;
    assert(t == pre + (sep + (jt4 + ccb)));
    // field latitude_deg
    assert(sep + (jt4 + ccb) == (sep + kl4) + (v4 + (sep + (jt5 + ccb)))) by {
        lemma_assoc((kl4 + v4) + sep, jt5, ccb);
        lemma_assoc(kl4 + v4, sep, jt5 + ccb);
        lemma_assoc(kl4, v4, sep + (jt5 + ccb));
        lemma_assoc(sep, kl4, v4 + (sep + (jt5 + ccb)));
    }
    assert(klit("latitude_deg"@, false) == sep + kl4) by {
        lemma_assoc(sep, jstr("latitude_deg"@), seq![':']);
    }
    lemma_assoc(pre, sep + kl4, v4 + (sep + (jt5 + ccb)));
    assert(t == pre + klit("latitude_deg"@, false) + (v4 + (sep + (jt5 + ccb))));
    assert((sep + (jt5 + ccb))[0] == ',');
    assert((sep + (jt5 + ccb)).len() > 0);
    lemma_field_num(t, pre, "latitude_deg"@, false, a.latitude_deg, sep + (jt5 + ccb));
    let w5 = (pre + klit("latitude_deg"@, false)) + v4;
    // field longitude_deg
    assert(sep + (jt5 + ccb) == (sep + kl5) + (v5 + (sep + (jt6 + ccb)))) by {
        lemma_assoc((kl5 + v5) + sep, jt6, ccb);
        lemma_assoc(kl5 + v5, sep, jt6 + ccb);
        lemma_assoc(kl5, v5, sep + (jt6 + ccb));
        lemma_assoc(sep, kl5, v5 + (sep + (jt6 + ccb)));
    }
    assert(klit("longitude_deg"@, false) == sep + kl5) by {
        lemma_assoc(sep, jstr("longitude_deg"@), seq![':']);
    }
    lemma_assoc(w5, sep + kl5, v5 + (sep + (jt6 + ccb)));
    assert(t == w5 + klit("longitude_deg"@, false) + (v5 + (sep + (jt6 + ccb))));
    assert((sep + (jt6 + ccb))[0] == ',');
    assert((sep + (jt6 + ccb)).len() > 0);
    lemma_field_num(t, w5, "longitude_deg"@, false, a.longitude_deg, sep + (jt6 + ccb));
    let w6 = (w5 + klit("longitude_deg"@, false)) + v5;
    let parsed = AirportView {
        id: a.id,
        ident: a.ident,
        airport_type: a.airport_type,
        name: a.name,
        latitude_deg: a.latitude_deg,
        longitude_deg: a.longitude_deg,
        elevation_ft: a.elevation_ft,
        continent: a.continent,
        iso_country: a.iso_country,
        iso_region: a.iso_region,
        municipality: a.municipality,
        scheduled_service: a.scheduled_service,
        gps_code: a.gps_code,
        iata_code: a.iata_code,
        local_code: a.local_code,
        home_link: a.home_link,
        wikipedia_link: a.wikipedia_link,
        keywords: a.keywords,
    };
    assert(t == w6 + (sep + (jt6 + ccb)));
    lemma_airport_seg6(t, w6, a, post);
    let fin = (w6.len() + 1 + jt6.len() + 1) as int;
    assert(airport_stage_5(t, w5.len() as int, a.id, a.ident, a.airport_type, a.name, a.latitude_deg) == Some((parsed, fin)));
    assert(airport_stage_4(t, pre.len() as int, a.id, a.ident, a.airport_type, a.name) == Some((parsed, fin)));
    assert(fin == (pre.len() + 1 + jt4.len() + 1) as int);
}

/// Reading airport fields 2 and 3, given the text from the
/// cursor on is their rendering followed by the rest of the object.
#[verifier::rlimit(100)]
#[verifier::spinoff_prover]
proof fn lemma_airport_seg2(t: Seq<char>, pre: Seq<char>, a: AirportView, post: Seq<char>)
    requires
        crate::records::airport::airport_wf(a),
        t == pre + (seq![','] + (crate::json::join_with(airport_items(a).skip(2), seq![',']) + (seq!['}'] + post))),
    ensures
        airport_stage_2(
            t,
            pre.len() as int,
            a.id,
            a.ident,
        ) == Some(
            (
                AirportView {
                    id: a.id,
                    ident: a.ident,
                    airport_type: a.airport_type,
                    name: a.name,
                    latitude_deg: a.latitude_deg,
                    longitude_deg: a.longitude_deg,
                    elevation_ft: a.elevation_ft,
                    continent: a.continent,
                    iso_country: a.iso_country,
                    iso_region: a.iso_region,
                    municipality: a.municipality,
                    scheduled_service: a.scheduled_service,
                    gps_code: a.gps_code,
                    iata_code: a.iata_code,
                    local_code: a.local_code,
                    home_link: a.home_link,
                    wikipedia_link: a.wikipedia_link,
                    keywords: a.keywords,
                },
                (pre.len() + 1 + crate::json::join_with(airport_items(a).skip(2), seq![',']).len() + 1) as int,
            ),
        ),
{
    let fc = |p: (Seq<char>, Seq<char>)| jstr(p.0) + seq![':'] + p.1;
    let pairs = crate::records::airport::airport_pairs(a, false);
    let items = airport_items(a);
    assert(items == pairs.map_values(fc)) by {
        assert(fc == (|p: (Seq<char>, Seq<char>)| jstr(p.0) + seq![':'] + p.1));
    }
    let sep = seq![','];
    assert(items.len() == 18);
    let kl2 = jstr("type"@) + seq![':'];
    let v2 = jstr(a.airport_type);
    assert(items[2] == kl2 + v2);
    let kl3 = jstr("name"@) + seq![':'];
    let v3 = jstr(a.name);
    assert(items[3] == kl3 + v3);
    let jt2 = crate::json::join_with(items.skip(2), sep);
    let jt3 = crate::json::join_with(items.skip(3), sep);
    let jt4 = crate::json::join_with(items.skip(4), sep);
    assert(items.skip(2).len() == 16);
    assert(items.skip(2)[0] == items[2]);
    assert(items.skip(2).drop_first() =~= items.skip(3));
    assert(jt2 == items[2] + sep + jt3);
    assert(items.skip(3).len() == 15);
    assert(items.skip(3)[0] == items[3]);
    assert(items.skip(3).drop_first() =~= items.skip(4));
    assert(jt3 == items[3] + sep + jt4);
    let ccb = seq!['}'] + post;
    assert(t == pre + (sep + (jt2 + ccb)));
    // field type
    assert(sep + (jt2 + ccb) == (sep + kl2) + (v2 + (sep + (jt3 + ccb)))) by {
        lemma_assoc((kl2 + v2) + sep, jt3, ccb);
        lemma_assoc(kl2 + v2, sep, jt3 + ccb);
        lemma_assoc(kl2, v2, sep + (jt3 + ccb));
        lemma_assoc(sep, kl2, v2 + (sep + (jt3 + ccb)));
    }
    assert(klit("type"@, false) == sep + kl2) by {
        lemma_assoc(sep, jstr("type"@), seq![':']);
    }
    lemma_assoc(pre, sep + kl2, v2 + (sep + (jt3 + ccb)));
    assert(t == pre + klit("type"@, false) + (v2 + (sep + (jt3 + ccb))));
    lemma_field_str(t, pre, "type"@, false, a.airport_type, sep + (jt3 + ccb));
    let w3 = (pre + klit("type"@, false)) + v2;
    // field name
    assert(sep + (jt3 + ccb) == (sep + kl3) + (v3 + (sep + (jt4 + ccb)))) by {
        lemma_assoc((kl3 + v3) + sep, jt4, ccb);
        lemma_assoc(kl3 + v3, sep, jt4 + ccb);
        lemma_assoc(kl3, v3, sep + (jt4 + ccb));
        lemma_assoc(sep, kl3, v3 + (sep + (jt4 + ccb)));
    }
    assert(klit("name"@, false) == sep + kl3) by {
        lemma_assoc(sep, jstr("name"@), seq![':']);
    }
    lemma_assoc(w3, sep + kl3, v3 + (sep + (jt4 + ccb)));
    assert(t == w3 + klit("name"@, false) + (v3 + (sep + (jt4 + ccb))));
    lemma_field_str(t, w3, "name"@, false, a.name, sep + (jt4 + ccb));
    let w4 = (w3 + klit("name"@, false)) + v3;
    let parsed = AirportView {
        id: a.id,
        ident: a.ident,
        airport_type: a.airport_type,
        name: a.name,
        latitude_deg: a.latitude_deg,
        longitude_deg: a.longitude_deg,
        elevation_ft: a.elevation_ft,
        continent: a.continent,
        iso_country: a.iso_country,
        iso_region: a.iso_region,
        municipality: a.municipality,
        scheduled_service: a.scheduled_service,
        gps_code: a.gps_code,
        iata_code: a.iata_code,
        local_code: a.local_code,
        home_link: a.home_link,
        wikipedia_link: a.wikipedia_link,
        keywords: a.keywords,
    };
    assert(t == w4 + (sep + (jt4 + ccb)));
    lemma_airport_seg4(t, w4, a, post);
    let fin = (w4.len() + 1 + jt4.len() + 1) as int;
    assert(airport_stage_3(t, w3.len() as int, a.id, a.ident, a.airport_type) == Some((parsed, fin)));
    assert(airport_stage_2(t, pre.len() as int, a.id, a.ident) == Some((parsed, fin)));
    assert(fin == (pre.len() + 1 + jt2.len() + 1) as int);
}

/// Reading airport fields 0 and 1, given the text from the
/// cursor on is their rendering followed by the rest of the object.
#[verifier::rlimit(100)]
#[verifier::spinoff_prover]
proof fn lemma_airport_seg0(t: Seq<char>, pre: Seq<char>, a: AirportView, post: Seq<char>)
    requires
        crate::records::airport::airport_wf(a),
        t == pre + (crate::json::join_with(airport_items(a).skip(0), seq![',']) + (seq!['}'] + post)),
    ensures
        airport_stage_0(
            t,
            pre.len() as int,
        ) == Some(
            (
                AirportView {
                    id: a.id,
                    ident: a.ident,
                    airport_type: a.airport_type,
                    name: a.name,
                    latitude_deg: a.latitude_deg,
                    longitude_deg: a.longitude_deg,
                    elevation_ft: a.elevation_ft,
                    continent: a.continent,
                    iso_country: a.iso_country,
                    iso_region: a.iso_region,
                    municipality: a.municipality,
                    scheduled_service: a.scheduled_service,
                    gps_code: a.gps_code,
                    iata_code: a.iata_code,
                    local_code: a.local_code,
                    home_link: a.home_link,
                    wikipedia_link: a.wikipedia_link,
                    keywords: a.keywords,
                },
                (pre.len() + 0 + crate::json::join_with(airport_items(a).skip(0), seq![',']).len() + 1) as int,
            ),
        ),
{
    let fc = |p: (Seq<char>, Seq<char>)| jstr(p.0) + seq![':'] + p.1;
    let pairs = crate::records::airport::airport_pairs(a, false);
    let items = airport_items(a);
    assert(items == pairs.map_values(fc)) by {
        assert(fc == (|p: (Seq<char>, Seq<char>)| jstr(p.0) + seq![':'] + p.1));
    }
    let sep = seq![','];
    assert(items.len() == 18);
    let kl0 = jstr("id"@) + seq![':'];
    let v0 = jstr(a.id);
    assert(items[0] == kl0 + v0);
    let kl1 = jstr("ident"@) + seq![':'];
    let v1 = jstr(a.ident);
    assert(items[1] == kl1 + v1);
    let jt0 = crate::json::join_with(items.skip(0), sep);
    let jt1 = crate::json::join_with(items.skip(1), sep);
    let jt2 = crate::json::join_with(items.skip(2), sep);
    assert(items.skip(0).len() == 18);
    assert(items.skip(0)[0] == items[0]);
    assert(items.skip(0).drop_first() =~= items.skip(1));
    assert(jt0 == items[0] + sep + jt1);
    assert(items.skip(1).len() == 17);
    assert(items.skip(1)[0] == items[1]);
    assert(items.skip(1).drop_first() =~= items.skip(2));
    assert(jt1 == items[1] + sep + jt2);
    let ccb = seq!['}'] + post;
    assert(t == pre + (jt0 + ccb));
    // field id
    assert(jt0 + ccb == kl0 + (v0 + (sep + (jt1 + ccb)))) by {
        lemma_assoc((kl0 + v0) + sep, jt1, ccb);
        lemma_assoc(kl0 + v0, sep, jt1 + ccb);
        lemma_assoc(kl0, v0, sep + (jt1 + ccb));
    }
    lemma_assoc(pre, kl0, v0 + (sep + (jt1 + ccb)));
    assert(t == pre + klit("id"@, true) + (v0 + (sep + (jt1 + ccb))));
    lemma_field_str(t, pre, "id"@, true, a.id, sep + (jt1 + ccb));
    let w1 = (pre + klit("id"@, true)) + v0;
    // field ident
    assert(sep + (jt1 + ccb) == (sep + kl1) + (v1 + (sep + (jt2 + ccb)))) by {
        lemma_assoc((kl1 + v1) + sep, jt2, ccb);
        lemma_assoc(kl1 + v1, sep, jt2 + ccb);
        lemma_assoc(kl1, v1, sep + (jt2 + ccb));
        lemma_assoc(sep, kl1, v1 + (sep + (jt2 + ccb)));
    }
    assert(klit("ident"@, false) == sep + kl1) by {
        lemma_assoc(sep, jstr("ident"@), seq![':']);
    }
    lemma_assoc(w1, sep + kl1, v1 + (sep + (jt2 + ccb)));
    assert(t == w1 + klit("ident"@, false) + (v1 + (sep + (jt2 + ccb))));
    lemma_field_str(t, w1, "ident"@, false, a.ident, sep + (jt2 + ccb));
    let w2 = (w1 + klit("ident"@, false)) + v1;
    let parsed = AirportView {
        id: a.id,
        ident: a.ident,
        airport_type: a.airport_type,
        name: a.name,
        latitude_deg: a.latitude_deg,
        longitude_deg: a.longitude_deg,
        elevation_ft: a.elevation_ft,
        continent: a.continent,
        iso_country: a.iso_country,
        iso_region: a.iso_region,
        municipality: a.municipality,
        scheduled_service: a.scheduled_service,
        gps_code: a.gps_code,
        iata_code: a.iata_code,
        local_code: a.local_code,
        home_link: a.home_link,
        wikipedia_link: a.wikipedia_link,
        keywords: a.keywords,
    };
    assert(t == w2 + (sep + (jt2 + ccb)));
    lemma_airport_seg2(t, w2, a, post);
    let fin = (w2.len() + 1 + jt2.len() + 1) as int;
    assert(airport_stage_1(t, w1.len() as int, a.id) == Some((parsed, fin)));
    assert(airport_stage_0(t, pre.len() as int) == Some((parsed, fin)));
    assert(fin == (pre.len() + 0 + jt0.len() + 1) as int);
}

/// Serializing any well-formed airport record as a single-record
/// compact document and reading that document back gives a record
/// equal in all fields.
#[verifier::rlimit(100)]
#[verifier::spinoff_prover]
pub proof fn lemma_airport_doc_round_trip(a: AirportView)
    requires
        crate::records::airport::airport_wf(a),
    ensures
        parse_airport_doc(crate::convert::airport_list_json(seq![a], false)) == Some(a),
{
    let t = crate::convert::airport_list_json(seq![a], false);
    let ob = seq!['['];
    let oc = seq!['{'];
    let cc = seq!['}'];
    let cb = seq![']'];
    let sep = seq![','];
    let aj = crate::records::airport::airport_json(a, false);
    let fc = |p: (Seq<char>, Seq<char>)| jstr(p.0) + seq![':'] + p.1;
    let pairs = crate::records::airport::airport_pairs(a, false);
    let items = airport_items(a);
    assert(items == pairs.map_values(fc)) by {
        assert(fc == (|p: (Seq<char>, Seq<char>)| jstr(p.0) + seq![':'] + p.1));
    }
    assert(aj == seq!['{'] + crate::json::join_with(items, sep) + seq!['}']) by {
        assert(fc == (|p: (Seq<char>, Seq<char>)| jstr(p.0) + seq![':'] + p.1));
    }
    let one = Seq::new(1nat, |i: int| crate::records::airport::airport_json(seq![a][i], false));
    assert(one.len() == 1);
    assert(one[0] == aj);
    assert(crate::json::join_with(one, sep) == one[0]);
    assert(t == ob + aj + cb);
    let jt0 = crate::json::join_with(items.skip(0), sep);
    assert(items.skip(0) =~= items);
    assert(crate::json::join_with(items, sep) == jt0);
    let p0 = Seq::<char>::empty();
    let p1 = p0 + ob;
    let p2 = p1 + oc;
    let ccb = cc + cb;
    lemma_assoc(ob, aj, cb);
    assert(aj + cb == oc + (jt0 + ccb)) by {
        lemma_assoc(oc + jt0, cc, cb);
        lemma_assoc(oc, jt0, cc);
        lemma_assoc(oc, jt0, ccb);
    }
    assert(p0 + ob =~= ob);
    assert(t == p0 + ob + (oc + (jt0 + ccb)));
    lemma_step_expect(t, p0, ob, oc + (jt0 + ccb));
    lemma_assoc(p1, oc, jt0 + ccb);
    assert(t == p1 + oc + (jt0 + ccb));
    lemma_step_expect(t, p1, oc, jt0 + ccb);
    assert(t == p2 + (jt0 + ccb));
    lemma_airport_seg0(t, p2, a, cb);
    let parsed = AirportView {
        id: a.id,
        ident: a.ident,
        airport_type: a.airport_type,
        name: a.name,
        latitude_deg: a.latitude_deg,
        longitude_deg: a.longitude_deg,
        elevation_ft: a.elevation_ft,
        continent: a.continent,
        iso_country: a.iso_country,
        iso_region: a.iso_region,
        municipality: a.municipality,
        scheduled_service: a.scheduled_service,
        gps_code: a.gps_code,
        iata_code: a.iata_code,
        local_code: a.local_code,
        home_link: a.home_link,
        wikipedia_link: a.wikipedia_link,
        keywords: a.keywords,
    };
    let fin = (p2.len() + 0 + jt0.len() + 1) as int;
    assert(airport_stage_0(t, p2.len() as int) == Some((parsed, fin)));
    assert(parse_airport_obj(t, p1.len() as int) == Some((parsed, fin)));
    assert(t.len() == fin + 1);
    assert(t == t.subrange(0, fin) + cb + Seq::<char>::empty()) by {
        assert(t == ((p1 + oc) + jt0) + (cc + cb)) by {
            lemma_assoc(p1 + oc, jt0, ccb);
        }
        assert(t.subrange(0, fin) =~= ((p1 + oc) + jt0) + cc);
        assert((((p1 + oc) + jt0) + cc) + cb + Seq::<char>::empty() =~= (((p1 + oc) + jt0) + cc) + cb);
        assert(t =~= (((p1 + oc) + jt0) + cc) + cb);
    }
    lemma_step_expect(t, t.subrange(0, fin), cb, Seq::empty());
    assert(t.subrange(0, fin).len() == fin);
    assert(expect(t, fin, cb) == Some(t.len() as int));
    assert(parsed == a);
}

/// The region-object reader is staged one field at a time, like the
/// airport reader.
pub open spec fn region_stage_0(t: Seq<char>, j: int) -> Option<(RegionView, int)> {
    match field_str(t, j, "id"@, true) {
        None => None,
        Some((id, j2)) => region_stage_1(t, j2, id),
    }
}

pub open spec fn region_stage_1(t: Seq<char>, j: int, id: Seq<char>) -> Option<(RegionView, int)> {
    match field_str(t, j, "code"@, false) {
        None => None,
        Some((code, j2)) => region_stage_2(t, j2, id, code),
    }
}

pub open spec fn region_stage_2(t: Seq<char>, j: int, id: Seq<char>, code: Seq<char>) -> Option<(RegionView, int)> {
    match field_str(t, j, "local_code"@, false) {
        None => None,
        Some((local_code, j2)) => region_stage_3(t, j2, id, code, local_code),
    }
}

pub open spec fn region_stage_3(t: Seq<char>, j: int, id: Seq<char>, code: Seq<char>, local_code: Seq<char>) -> Option<(RegionView, int)> {
    match field_str(t, j, "name"@, false) {
        None => None,
        Some((name, j2)) => region_stage_4(t, j2, id, code, local_code, name),
    }
}

pub open spec fn region_stage_4(t: Seq<char>, j: int, id: Seq<char>, code: Seq<char>, local_code: Seq<char>, name: Seq<char>) -> Option<(RegionView, int)> {
    match field_str(t, j, "continent"@, false) {
        None => None,
        Some((continent, j2)) => region_stage_5(t, j2, id, code, local_code, name, continent),
    }
}

pub open spec fn region_stage_5(t: Seq<char>, j: int, id: Seq<char>, code: Seq<char>, local_code: Seq<char>, name: Seq<char>, continent: Seq<char>) -> Option<(RegionView, int)> {
    match field_str(t, j, "iso_country"@, false) {
        None => None,
        Some((iso_country, j2)) => region_stage_6(t, j2, id, code, local_code, name, continent, iso_country),
    }
}

pub open spec fn region_stage_6(t: Seq<char>, j: int, id: Seq<char>, code: Seq<char>, local_code: Seq<char>, name: Seq<char>, continent: Seq<char>, iso_country: Seq<char>) -> Option<(RegionView, int)> {
    match field_str(t, j, "wikipedia_link"@, false) {
        None => None,
        Some((wikipedia_link, j2)) => region_stage_7(t, j2, id, code, local_code, name, continent, iso_country, wikipedia_link),
    }
}

pub open spec fn region_stage_7(t: Seq<char>, j: int, id: Seq<char>, code: Seq<char>, local_code: Seq<char>, name: Seq<char>, continent: Seq<char>, iso_country: Seq<char>, wikipedia_link: Seq<char>) -> Option<(RegionView, int)> {
    match field_list(t, j, "keywords"@, false) {
        None => None,
        Some((keywords, j2)) => region_stage_8(t, j2, id, code, local_code, name, continent, iso_country, wikipedia_link, keywords),
    }
}

pub open spec fn region_stage_8(t: Seq<char>, j: int, id: Seq<char>, code: Seq<char>, local_code: Seq<char>, name: Seq<char>, continent: Seq<char>, iso_country: Seq<char>, wikipedia_link: Seq<char>, keywords: Seq<Seq<char>>) -> Option<(RegionView, int)> {
    match expect(t, j, seq!['}']) {
        None => None,
        Some(j2) => Some(
            (RegionView { id, code, local_code, name, continent, iso_country, wikipedia_link, keywords }, j2),
        ),
    }
}

/// Reads one region record object in the canonical compact form.
pub open spec fn parse_region_obj(t: Seq<char>, i: int) -> Option<(RegionView, int)> {
    match expect(t, i, seq!['{']) {
        None => None,
        Some(j0) => region_stage_0(t, j0),
    }
}

/// Reads a whole single-record region document in the canonical
/// compact form.
pub open spec fn parse_region_doc(t: Seq<char>) -> Option<RegionView> {
    match expect(t, 0, seq!['[']) {
        None => None,
        Some(i) => match parse_region_obj(t, i) {
            None => None,
            Some((a, j)) => if expect(t, j, seq![']']) == Some(t.len() as int) {
                Some(a)
            } else {
                None
            },
        },
    }
}

/// The rendered field items of a region object, in field order.
pub open spec fn region_items(a: RegionView) -> Seq<Seq<char>> {
    crate::records::region::region_pairs(a, false).map_values(
        |p: (Seq<char>, Seq<char>)| jstr(p.0) + seq![':'] + p.1,
    )
}


/// Reading region fields 6 to 7, and the closing brace.
#[verifier::rlimit(100)]
#[verifier::spinoff_prover]
proof fn lemma_region_seg6(t: Seq<char>, pre: Seq<char>, a: RegionView, post: Seq<char>)
    requires
        t == pre + (seq![','] + (crate::json::join_with(region_items(a).skip(6), seq![',']) + (seq!['}'] + post))),
    ensures
        region_stage_6(
            t,
            pre.len() as int,
            a.id,
            a.code,
            a.local_code,
            a.name,
            a.continent,
            a.iso_country,
        ) == Some(
            (
                RegionView {
                    id: a.id,
                    code: a.code,
                    local_code: a.local_code,
                    name: a.name,
                    continent: a.continent,
                    iso_country: a.iso_country,
                    wikipedia_link: a.wikipedia_link,
                    keywords: a.keywords,
                },
                (pre.len() + 1 + crate::json::join_with(region_items(a).skip(6), seq![',']).len() + 1) as int,
            ),
        ),
{
    let fc = |p: (Seq<char>, Seq<char>)| jstr(p.0) + seq![':'] + p.1;
    let pairs = crate::records::region::region_pairs(a, false);
    let items = region_items(a);
    assert(items == pairs.map_values(fc)) by {
        assert(fc == (|p: (Seq<char>, Seq<char>)| jstr(p.0) + seq![':'] + p.1));
    }
    let sep = seq![','];
    assert(items.len() == 8);
    let kl6 = jstr("wikipedia_link"@) + seq![':'];
    let v6 = jstr(a.wikipedia_link);
    assert(items[6] == kl6 + v6);
    let kl7 = jstr("keywords"@) + seq![':'];
    let v7 = crate::json::jlist(a.keywords, false);
    assert(items[7] == kl7 + v7);
    let jt6 = crate::json::join_with(items.skip(6), sep);
    let jt7 = crate::json::join_with(items.skip(7), sep);
    assert(items.skip(6).len() == 2);
    assert(items.skip(6)[0] == items[6]);
    assert(items.skip(6).drop_first() =~= items.skip(7));
    assert(jt6 == items[6] + sep + jt7);
    assert(items.skip(7).len() == 1);
    assert(items.skip(7)[0] == items[7]);
    assert(jt7 == items[7]);
    let ccb = seq!['}'] + post;
    assert(t == pre + (sep + (jt6 + ccb)));
    // field wikipedia_link
    assert(sep + (jt6 + ccb) == (sep + kl6) + (v6 + (sep + (jt7 + ccb)))) by {
        lemma_assoc((kl6 + v6) + sep, jt7, ccb);
        lemma_assoc(kl6 + v6, sep, jt7 + ccb);
        lemma_assoc(kl6, v6, sep + (jt7 + ccb));
        lemma_assoc(sep, kl6, v6 + (sep + (jt7 + ccb)));
    }
    assert(klit("wikipedia_link"@, false) == sep + kl6) by {
        lemma_assoc(sep, jstr("wikipedia_link"@), seq![':']);
    }
    lemma_assoc(pre, sep + kl6, v6 + (sep + (jt7 + ccb)));
    assert(t == pre + klit("wikipedia_link"@, false) + (v6 + (sep + (jt7 + ccb))));
    lemma_field_str(t, pre, "wikipedia_link"@, false, a.wikipedia_link, sep + (jt7 + ccb));
    let w7 = (pre + klit("wikipedia_link"@, false)) + v6;
    // field keywords
    assert(sep + (jt7 + ccb) == (sep + kl7) + (v7 + ccb)) by {
        lemma_assoc(kl7, v7, ccb);
        lemma_assoc(sep, kl7, v7 + ccb);
    }
    assert(klit("keywords"@, false) == sep + kl7) by {
        lemma_assoc(sep, jstr("keywords"@), seq![':']);
    }
    lemma_assoc(w7, sep + kl7, v7 + (ccb));
    assert(t == w7 + klit("keywords"@, false) + (v7 + (ccb)));
    lemma_field_list(t, w7, "keywords"@, false, a.keywords, ccb);
    let w8 = (w7 + klit("keywords"@, false)) + v7;
    let parsed = RegionView {
        id: a.id,
        code: a.code,
        local_code: a.local_code,
        name: a.name,
        continent: a.continent,
        iso_country: a.iso_country,
        wikipedia_link: a.wikipedia_link,
        keywords: a.keywords,
    };
    lemma_assoc(w8, seq!['}'], post);
    assert(t == w8 + seq!['}'] + post);
    lemma_step_expect(t, w8, seq!['}'], post);
    let fin = (w8.len() + 1) as int;
    assert(region_stage_8(t, w8.len() as int, a.id, a.code, a.local_code, a.name, a.continent, a.iso_country, a.wikipedia_link, a.keywords) == Some((parsed, fin)));
    assert(region_stage_7(t, w7.len() as int, a.id, a.code, a.local_code, a.name, a.continent, a.iso_country, a.wikipedia_link) == Some((parsed, fin)));
    assert(region_stage_6(t, pre.len() as int, a.id, a.code, a.local_code, a.name, a.continent, a.iso_country) == Some((parsed, fin)));
    assert(fin == (pre.len() + 1 + jt6.len() + 1) as int);
}

/// Reading region fields 4 to 5.
#[verifier::rlimit(100)]
#[verifier::spinoff_prover]
proof fn lemma_region_seg4(t: Seq<char>, pre: Seq<char>, a: RegionView, post: Seq<char>)
    requires
        t == pre + (seq![','] + (crate::json::join_with(region_items(a).skip(4), seq![',']) + (seq!['}'] + post))),
    ensures
        region_stage_4(
            t,
            pre.len() as int,
            a.id,
            a.code,
            a.local_code,
            a.name,
        ) == Some(
            (
                RegionView {
                    id: a.id,
                    code: a.code,
                    local_code: a.local_code,
                    name: a.name,
                    continent: a.continent,
                    iso_country: a.iso_country,
                    wikipedia_link: a.wikipedia_link,
                    keywords: a.keywords,
                },
                (pre.len() + 1 + crate::json::join_with(region_items(a).skip(4), seq![',']).len() + 1) as int,
            ),
        ),
{
    let fc = |p: (Seq<char>, Seq<char>)| jstr(p.0) + seq![':'] + p.1;
    let pairs = crate::records::region::region_pairs(a, false);
    let items = region_items(a);
    assert(items == pairs.map_values(fc)) by {
        assert(fc == (|p: (Seq<char>, Seq<char>)| jstr(p.0) + seq![':'] + p.1));
    }
    let sep = seq![','];
    assert(items.len() == 8);
    let kl4 = jstr("continent"@) + seq![':'];
    let v4 = jstr(a.continent);
    assert(items[4] == kl4 + v4);
    let kl5 = jstr("iso_country"@) + seq![':'];
    let v5 = jstr(a.iso_country);
    assert(items[5] == kl5 + v5);
    let jt4 = crate::json::join_with(items.skip(4), sep);
    let jt5 = crate::json::join_with(items.skip(5), sep);
    let jt6 = crate::json::join_with(items.skip(6), sep);
    assert(items.skip(4).len() == 4);
    assert(items.skip(4)[0] == items[4]);
    assert(items.skip(4).drop_first() =~= items.skip(5));
    assert(jt4 == items[4] + sep + jt5);
    assert(items.skip(5).len() == 3);
    assert(items.skip(5)[0] == items[5]);
    assert(items.skip(5).drop_first() =~= items.skip(6));
    assert(jt5 == items[5] + sep + jt6);
    let ccb = seq!['}'] + post;
    assert(t == pre + (sep + (jt4 + ccb)));
    // field continent
    assert(sep + (jt4 + ccb) == (sep + kl4) + (v4 + (sep + (jt5 + ccb)))) by {
        lemma_assoc((kl4 + v4) + sep, jt5, ccb);
        lemma_assoc(kl4 + v4, sep, jt5 + ccb);
        lemma_assoc(kl4, v4, sep + (jt5 + ccb));
        lemma_assoc(sep, kl4, v4 + (sep + (jt5 + ccb)));
    }
    assert(klit("continent"@, false) == sep + kl4) by {
        lemma_assoc(sep, jstr("continent"@), seq![':']);
    }
    lemma_assoc(pre, sep + kl4, v4 + (sep + (jt5 + ccb)));
    assert(t == pre + klit("continent"@, false) + (v4 + (sep + (jt5 + ccb))));
    lemma_field_str(t, pre, "continent"@, false, a.continent, sep + (jt5 + ccb));
    let w5 = (pre + klit("continent"@, false)) + v4;
    // field iso_country
    assert(sep + (jt5 + ccb) == (sep + kl5) + (v5 + (sep + (jt6 + ccb)))) by {
        lemma_assoc((kl5 + v5) + sep, jt6, ccb);
        lemma_assoc(kl5 + v5, sep, jt6 + ccb);
        lemma_assoc(kl5, v5, sep + (jt6 + ccb));
        lemma_assoc(sep, kl5, v5 + (sep + (jt6 + ccb)));
    }
    assert(klit("iso_country"@, false) == sep + kl5) by {
        lemma_assoc(sep, jstr("iso_country"@), seq![':']);
    }
    lemma_assoc(w5, sep + kl5, v5 + (sep + (jt6 + ccb)));
    assert(t == w5 + klit("iso_country"@, false) + (v5 + (sep + (jt6 + ccb))));
    lemma_field_str(t, w5, "iso_country"@, false, a.iso_country, sep + (jt6 + ccb));
    let w6 = (w5 + klit("iso_country"@, false)) + v5;
    let parsed = RegionView {
        id: a.id,
        code: a.code,
        local_code: a.local_code,
        name: a.name,
        continent: a.continent,
        iso_country: a.iso_country,
        wikipedia_link: a.wikipedia_link,
        keywords: a.keywords,
    };
    assert(t == w6 + (sep + (jt6 + ccb)));
    lemma_region_seg6(t, w6, a, post);
    let fin = (w6.len() + 1 + jt6.len() + 1) as int;
    assert(region_stage_5(t, w5.len() as int, a.id, a.code, a.local_code, a.name, a.continent) == Some((parsed, fin)));
    assert(region_stage_4(t, pre.len() as int, a.id, a.code, a.local_code, a.name) == Some((parsed, fin)));
    assert(fin == (pre.len() + 1 + jt4.len() + 1) as int);
}

/// Reading region fields 2 to 3.
#[verifier::rlimit(100)]
#[verifier::spinoff_prover]
proof fn lemma_region_seg2(t: Seq<char>, pre: Seq<char>, a: RegionView, post: Seq<char>)
    requires
        t == pre + (seq![','] + (crate::json::join_with(region_items(a).skip(2), seq![',']) + (seq!['}'] + post))),
    ensures
        region_stage_2(
            t,
            pre.len() as int,
            a.id,
            a.code,
        ) == Some(
            (
                RegionView {
                    id: a.id,
                    code: a.code,
                    local_code: a.local_code,
                    name: a.name,
                    continent: a.continent,
                    iso_country: a.iso_country,
                    wikipedia_link: a.wikipedia_link,
                    keywords: a.keywords,
                },
                (pre.len() + 1 + crate::json::join_with(region_items(a).skip(2), seq![',']).len() + 1) as int,
            ),
        ),
{
    let fc = |p: (Seq<char>, Seq<char>)| jstr(p.0) + seq![':'] + p.1;
    let pairs = crate::records::region::region_pairs(a, false);
    let items = region_items(a);
    assert(items == pairs.map_values(fc)) by {
        assert(fc == (|p: (Seq<char>, Seq<char>)| jstr(p.0) + seq![':'] + p.1));
    }
    let sep = seq![','];
    assert(items.len() == 8);
    let kl2 = jstr("local_code"@) + seq![':'];
    let v2 = jstr(a.local_code);
    assert(items[2] == kl2 + v2);
    let kl3 = jstr("name"@) + seq![':'];
    let v3 = jstr(a.name);
    assert(items[3] == kl3 + v3);
    let jt2 = crate::json::join_with(items.skip(2), sep);
    let jt3 = crate::json::join_with(items.skip(3), sep);
    let jt4 = crate::json::join_with(items.skip(4), sep);
    assert(items.skip(2).len() == 6);
    assert(items.skip(2)[0] == items[2]);
    assert(items.skip(2).drop_first() =~= items.skip(3));
    assert(jt2 == items[2] + sep + jt3);
    assert(items.skip(3).len() == 5);
    assert(items.skip(3)[0] == items[3]);
    assert(items.skip(3).drop_first() =~= items.skip(4));
    assert(jt3 == items[3] + sep + jt4);
    let ccb = seq!['}'] + post;
    assert(t == pre + (sep + (jt2 + ccb)));
    // field local_code
    assert(sep + (jt2 + ccb) == (sep + kl2) + (v2 + (sep + (jt3 + ccb)))) by {
        lemma_assoc((kl2 + v2) + sep, jt3, ccb);
        lemma_assoc(kl2 + v2, sep, jt3 + ccb);
        lemma_assoc(kl2, v2, sep + (jt3 + ccb));
        lemma_assoc(sep, kl2, v2 + (sep + (jt3 + ccb)));
    }
    assert(klit("local_code"@, false) == sep + kl2) by {
        lemma_assoc(sep, jstr("local_code"@), seq![':']);
    }
    lemma_assoc(pre, sep + kl2, v2 + (sep + (jt3 + ccb)));
    assert(t == pre + klit("local_code"@, false) + (v2 + (sep + (jt3 + ccb))));
    lemma_field_str(t, pre, "local_code"@, false, a.local_code, sep + (jt3 + ccb));
    let w3 = (pre + klit("local_code"@, false)) + v2;
    // field name
    assert(sep + (jt3 + ccb) == (sep + kl3) + (v3 + (sep + (jt4 + ccb)))) by {
        lemma_assoc((kl3 + v3) + sep, jt4, ccb);
        lemma_assoc(kl3 + v3, sep, jt4 + ccb);
        lemma_assoc(kl3, v3, sep + (jt4 + ccb));
        lemma_assoc(sep, kl3, v3 + (sep + (jt4 + ccb)));
    }
    assert(klit("name"@, false) == sep + kl3) by {
        lemma_assoc(sep, jstr("name"@), seq![':']);
    }
    lemma_assoc(w3, sep + kl3, v3 + (sep + (jt4 + ccb)));
    assert(t == w3 + klit("name"@, false) + (v3 + (sep + (jt4 + ccb))));
    lemma_field_str(t, w3, "name"@, false, a.name, sep + (jt4 + ccb));
    let w4 = (w3 + klit("name"@, false)) + v3;
    let parsed = RegionView {
        id: a.id,
        code: a.code,
        local_code: a.local_code,
        name: a.name,
        continent: a.continent,
        iso_country: a.iso_country,
        wikipedia_link: a.wikipedia_link,
        keywords: a.keywords,
    };
    assert(t == w4 + (sep + (jt4 + ccb)));
    lemma_region_seg4(t, w4, a, post);
    let fin = (w4.len() + 1 + jt4.len() + 1) as int;
    assert(region_stage_3(t, w3.len() as int, a.id, a.code, a.local_code) == Some((parsed, fin)));
    assert(region_stage_2(t, pre.len() as int, a.id, a.code) == Some((parsed, fin)));
    assert(fin == (pre.len() + 1 + jt2.len() + 1) as int);
}

/// Reading region fields 0 to 1.
#[verifier::rlimit(100)]
#[verifier::spinoff_prover]
proof fn lemma_region_seg0(t: Seq<char>, pre: Seq<char>, a: RegionView, post: Seq<char>)
    requires
        t == pre + (crate::json::join_with(region_items(a).skip(0), seq![',']) + (seq!['}'] + post)),
    ensures
        region_stage_0(
            t,
            pre.len() as int,
        ) == Some(
            (
                RegionView {
                    id: a.id,
                    code: a.code,
                    local_code: a.local_code,
                    name: a.name,
                    continent: a.continent,
                    iso_country: a.iso_country,
                    wikipedia_link: a.wikipedia_link,
                    keywords: a.keywords,
                },
                (pre.len() + 0 + crate::json::join_with(region_items(a).skip(0), seq![',']).len() + 1) as int,
            ),
        ),
{
    let fc = |p: (Seq<char>, Seq<char>)| jstr(p.0) + seq![':'] + p.1;
    let pairs = crate::records::region::region_pairs(a, false);
    let items = region_items(a);
    assert(items == pairs.map_values(fc)) by {
        assert(fc == (|p: (Seq<char>, Seq<char>)| jstr(p.0) + seq![':'] + p.1));
    }
    let sep = seq![','];
    assert(items.len() == 8);
    let kl0 = jstr("id"@) + seq![':'];
    let v0 = jstr(a.id);
    assert(items[0] == kl0 + v0);
    let kl1 = jstr("code"@) + seq![':'];
    let v1 = jstr(a.code);
    assert(items[1] == kl1 + v1);
    let jt0 = crate::json::join_with(items.skip(0), sep);
    let jt1 = crate::json::join_with(items.skip(1), sep);
    let jt2 = crate::json::join_with(items.skip(2), sep);
    assert(items.skip(0).len() == 8);
    assert(items.skip(0)[0] == items[0]);
    assert(items.skip(0).drop_first() =~= items.skip(1));
    assert(jt0 == items[0] + sep + jt1);
    assert(items.skip(1).len() == 7);
    assert(items.skip(1)[0] == items[1]);
    assert(items.skip(1).drop_first() =~= items.skip(2));
    assert(jt1 == items[1] + sep + jt2);
    let ccb = seq!['}'] + post;
    assert(t == pre + (jt0 + ccb));
    // field id
    assert(jt0 + ccb == kl0 + (v0 + (sep + (jt1 + ccb)))) by {
        lemma_assoc((kl0 + v0) + sep, jt1, ccb);
        lemma_assoc(kl0 + v0, sep, jt1 + ccb);
        lemma_assoc(kl0, v0, sep + (jt1 + ccb));
    }
    lemma_assoc(pre, kl0, v0 + (sep + (jt1 + ccb)));
    assert(t == pre + klit("id"@, true) + (v0 + (sep + (jt1 + ccb))));
    lemma_field_str(t, pre, "id"@, true, a.id, sep + (jt1 + ccb));
    let w1 = (pre + klit("id"@, true)) + v0;
    // field code
    assert(sep + (jt1 + ccb) == (sep + kl1) + (v1 + (sep + (jt2 + ccb)))) by {
        lemma_assoc((kl1 + v1) + sep, jt2, ccb);
        lemma_assoc(kl1 + v1, sep, jt2 + ccb);
        lemma_assoc(kl1, v1, sep + (jt2 + ccb));
        lemma_assoc(sep, kl1, v1 + (sep + (jt2 + ccb)));
    }
    assert(klit("code"@, false) == sep + kl1) by {
        lemma_assoc(sep, jstr("code"@), seq![':']);
    }
    lemma_assoc(w1, sep + kl1, v1 + (sep + (jt2 + ccb)));
    assert(t == w1 + klit("code"@, false) + (v1 + (sep + (jt2 + ccb))));
    lemma_field_str(t, w1, "code"@, false, a.code, sep + (jt2 + ccb));
    let w2 = (w1 + klit("code"@, false)) + v1;
    let parsed = RegionView {
        id: a.id,
        code: a.code,
        local_code: a.local_code,
        name: a.name,
        continent: a.continent,
        iso_country: a.iso_country,
        wikipedia_link: a.wikipedia_link,
        keywords: a.keywords,
    };
    assert(t == w2 + (sep + (jt2 + ccb)));
    lemma_region_seg2(t, w2, a, post);
    let fin = (w2.len() + 1 + jt2.len() + 1) as int;
    assert(region_stage_1(t, w1.len() as int, a.id) == Some((parsed, fin)));
    assert(region_stage_0(t, pre.len() as int) == Some((parsed, fin)));
    assert(fin == (pre.len() + 0 + jt0.len() + 1) as int);
}

/// Serializing any region record as a single-record compact
/// document and reading that document back gives a record equal in
/// all fields.
#[verifier::rlimit(100)]
#[verifier::spinoff_prover]
pub proof fn lemma_region_doc_round_trip(a: RegionView)
    ensures
        parse_region_doc(crate::convert::region_list_json(seq![a], false)) == Some(a),
{
    let t = crate::convert::region_list_json(seq![a], false);
    let ob = seq!['['];
    let oc = seq!['{'];
    let cc = seq!['}'];
    let cb = seq![']'];
    let sep = seq![','];
    let aj = crate::records::region::region_json(a, false);
    let fc = |p: (Seq<char>, Seq<char>)| jstr(p.0) + seq![':'] + p.1;
    let pairs = crate::records::region::region_pairs(a, false);
    let items = region_items(a);
    assert(items == pairs.map_values(fc)) by {
        assert(fc == (|p: (Seq<char>, Seq<char>)| jstr(p.0) + seq![':'] + p.1));
    }
    assert(aj == seq!['{'] + crate::json::join_with(items, sep) + seq!['}']) by {
        assert(fc == (|p: (Seq<char>, Seq<char>)| jstr(p.0) + seq![':'] + p.1));
    }
    let one = Seq::new(1nat, |i: int| crate::records::region::region_json(seq![a][i], false));
    assert(one.len() == 1);
    assert(one[0] == aj);
    assert(crate::json::join_with(one, sep) == one[0]);
    assert(t == ob + aj + cb);
    let jt0 = crate::json::join_with(items.skip(0), sep);
    assert(items.skip(0) =~= items);
    assert(crate::json::join_with(items, sep) == jt0);
    let p0 = Seq::<char>::empty();
    let p1 = p0 + ob;
    let p2 = p1 + oc;
    let ccb = cc + cb;
    lemma_assoc(ob, aj, cb);
    assert(aj + cb == oc + (jt0 + ccb)) by {
        lemma_assoc(oc + jt0, cc, cb);
        lemma_assoc(oc, jt0, cc);
        lemma_assoc(oc, jt0, ccb);
    }
    assert(p0 + ob =~= ob);
    assert(t == p0 + ob + (oc + (jt0 + ccb)));
    lemma_step_expect(t, p0, ob, oc + (jt0 + ccb));
    lemma_assoc(p1, oc, jt0 + ccb);
    assert(t == p1 + oc + (jt0 + ccb));
    lemma_step_expect(t, p1, oc, jt0 + ccb);
    assert(t == p2 + (jt0 + ccb));
    lemma_region_seg0(t, p2, a, cb);
    let parsed = RegionView {
        id: a.id,
        code: a.code,
        local_code: a.local_code,
        name: a.name,
        continent: a.continent,
        iso_country: a.iso_country,
        wikipedia_link: a.wikipedia_link,
        keywords: a.keywords,
    };
    let fin = (p2.len() + 0 + jt0.len() + 1) as int;
    assert(region_stage_0(t, p2.len() as int) == Some((parsed, fin)));
    assert(parse_region_obj(t, p1.len() as int) == Some((parsed, fin)));
    assert(t.len() == fin + 1);
    assert(t == t.subrange(0, fin) + cb + Seq::<char>::empty()) by {
        assert(t == ((p1 + oc) + jt0) + (cc + cb)) by {
            lemma_assoc(p1 + oc, jt0, ccb);
        }
        assert(t.subrange(0, fin) =~= ((p1 + oc) + jt0) + cc);
        assert((((p1 + oc) + jt0) + cc) + cb + Seq::<char>::empty() =~= (((p1 + oc) + jt0) + cc) + cb);
        assert(t =~= (((p1 + oc) + jt0) + cc) + cb);
    }
    lemma_step_expect(t, t.subrange(0, fin), cb, Seq::empty());
    assert(t.subrange(0, fin).len() == fin);
    assert(expect(t, fin, cb) == Some(t.len() as int));
    assert(parsed == a);
}

/// The runway-object reader is staged one field at a time, like the
/// airport reader.
pub open spec fn runway_stage_0(t: Seq<char>, j: int) -> Option<(RunwayView, int)> {
    match field_str(t, j, "id"@, true) {
        None => None,
        Some((id, j2)) => runway_stage_1(t, j2, id),
    }
}

pub open spec fn runway_stage_1(t: Seq<char>, j: int, id: Seq<char>) -> Option<(RunwayView, int)> {
    match field_str(t, j, "airport_ref"@, false) {
        None => None,
        Some((airport_ref, j2)) => runway_stage_2(t, j2, id, airport_ref),
    }
}

pub open spec fn runway_stage_2(t: Seq<char>, j: int, id: Seq<char>, airport_ref: Seq<char>) -> Option<(RunwayView, int)> {
    match field_str(t, j, "airport_ident"@, false) {
        None => None,
        Some((airport_ident, j2)) => runway_stage_3(t, j2, id, airport_ref, airport_ident),
    }
}

pub open spec fn runway_stage_3(t: Seq<char>, j: int, id: Seq<char>, airport_ref: Seq<char>, airport_ident: Seq<char>) -> Option<(RunwayView, int)> {
    match field_opt_int(t, j, "length_ft"@, false) {
        None => None,
        Some((length_ft, j2)) => runway_stage_4(t, j2, id, airport_ref, airport_ident, length_ft),
    }
}

pub open spec fn runway_stage_4(t: Seq<char>, j: int, id: Seq<char>, airport_ref: Seq<char>, airport_ident: Seq<char>, length_ft: Option<int>) -> Option<(RunwayView, int)> {
    match field_opt_int(t, j, "width_ft"@, false) {
        None => None,
        Some((width_ft, j2)) => runway_stage_5(t, j2, id, airport_ref, airport_ident, length_ft, width_ft),
    }
}

pub open spec fn runway_stage_5(t: Seq<char>, j: int, id: Seq<char>, airport_ref: Seq<char>, airport_ident: Seq<char>, length_ft: Option<int>, width_ft: Option<int>) -> Option<(RunwayView, int)> {
    match field_str(t, j, "surface"@, false) {
        None => None,
        Some((surface, j2)) => runway_stage_6(t, j2, id, airport_ref, airport_ident, length_ft, width_ft, surface),
    }
}

pub open spec fn runway_stage_6(t: Seq<char>, j: int, id: Seq<char>, airport_ref: Seq<char>, airport_ident: Seq<char>, length_ft: Option<int>, width_ft: Option<int>, surface: Seq<char>) -> Option<(RunwayView, int)> {
    match field_bool(t, j, "lighted"@, false) {
        None => None,
        Some((lighted, j2)) => runway_stage_7(t, j2, id, airport_ref, airport_ident, length_ft, width_ft, surface, lighted),
    }
}

pub open spec fn runway_stage_7(t: Seq<char>, j: int, id: Seq<char>, airport_ref: Seq<char>, airport_ident: Seq<char>, length_ft: Option<int>, width_ft: Option<int>, surface: Seq<char>, lighted: bool) -> Option<(RunwayView, int)> {
    match field_bool(t, j, "closed"@, false) {
        None => None,
        Some((closed, j2)) => runway_stage_8(t, j2, id, airport_ref, airport_ident, length_ft, width_ft, surface, lighted, closed),
    }
}

pub open spec fn runway_stage_8(t: Seq<char>, j: int, id: Seq<char>, airport_ref: Seq<char>, airport_ident: Seq<char>, length_ft: Option<int>, width_ft: Option<int>, surface: Seq<char>, lighted: bool, closed: bool) -> Option<(RunwayView, int)> {
    match field_str(t, j, "le_ident"@, false) {
        None => None,
        Some((le_ident, j2)) => runway_stage_9(t, j2, id, airport_ref, airport_ident, length_ft, width_ft, surface, lighted, closed, le_ident),
    }
}

pub open spec fn runway_stage_9(t: Seq<char>, j: int, id: Seq<char>, airport_ref: Seq<char>, airport_ident: Seq<char>, length_ft: Option<int>, width_ft: Option<int>, surface: Seq<char>, lighted: bool, closed: bool, le_ident: Seq<char>) -> Option<(RunwayView, int)> {
    match field_opt_num(t, j, "le_latitude_deg"@, false) {
        None => None,
        Some((le_latitude_deg, j2)) => runway_stage_10(t, j2, id, airport_ref, airport_ident, length_ft, width_ft, surface, lighted, closed, le_ident, le_latitude_deg),
    }
}

pub open spec fn runway_stage_10(t: Seq<char>, j: int, id: Seq<char>, airport_ref: Seq<char>, airport_ident: Seq<char>, length_ft: Option<int>, width_ft: Option<int>, surface: Seq<char>, lighted: bool, closed: bool, le_ident: Seq<char>, le_latitude_deg: Option<Seq<char>>) -> Option<(RunwayView, int)> {
    match field_opt_num(t, j, "le_longitude_deg"@, false) {
        None => None,
        Some((le_longitude_deg, j2)) => runway_stage_11(t, j2, id, airport_ref, airport_ident, length_ft, width_ft, surface, lighted, closed, le_ident, le_latitude_deg, le_longitude_deg),
    }
}

pub open spec fn runway_stage_11(t: Seq<char>, j: int, id: Seq<char>, airport_ref: Seq<char>, airport_ident: Seq<char>, length_ft: Option<int>, width_ft: Option<int>, surface: Seq<char>, lighted: bool, closed: bool, le_ident: Seq<char>, le_latitude_deg: Option<Seq<char>>, le_longitude_deg: Option<Seq<char>>) -> Option<(RunwayView, int)> {
    match field_opt_int(t, j, "le_elevation_ft"@, false) {
        None => None,
        Some((le_elevation_ft, j2)) => runway_stage_12(t, j2, id, airport_ref, airport_ident, length_ft, width_ft, surface, lighted, closed, le_ident, le_latitude_deg, le_longitude_deg, le_elevation_ft),
    }
}

pub open spec fn runway_stage_12(t: Seq<char>, j: int, id: Seq<char>, airport_ref: Seq<char>, airport_ident: Seq<char>, length_ft: Option<int>, width_ft: Option<int>, surface: Seq<char>, lighted: bool, closed: bool, le_ident: Seq<char>, le_latitude_deg: Option<Seq<char>>, le_longitude_deg: Option<Seq<char>>, le_elevation_ft: Option<int>) -> Option<(RunwayView, int)> {
    match field_opt_num(t, j, "le_heading_degT"@, false) {
        None => None,
        Some((le_heading_deg_true, j2)) => runway_stage_13(t, j2, id, airport_ref, airport_ident, length_ft, width_ft, surface, lighted, closed, le_ident, le_latitude_deg, le_longitude_deg, le_elevation_ft, le_heading_deg_true),
    }
}

pub open spec fn runway_stage_13(t: Seq<char>, j: int, id: Seq<char>, airport_ref: Seq<char>, airport_ident: Seq<char>, length_ft: Option<int>, width_ft: Option<int>, surface: Seq<char>, lighted: bool, closed: bool, le_ident: Seq<char>, le_latitude_deg: Option<Seq<char>>, le_longitude_deg: Option<Seq<char>>, le_elevation_ft: Option<int>, le_heading_deg_true: Option<Seq<char>>) -> Option<(RunwayView, int)> {
    match field_opt_int(t, j, "le_displaced_threshold_ft"@, false) {
        None => None,
        Some((le_displaced_threshold_ft, j2)) => runway_stage_14(t, j2, id, airport_ref, airport_ident, length_ft, width_ft, surface, lighted, closed, le_ident, le_latitude_deg, le_longitude_deg, le_elevation_ft, le_heading_deg_true, le_displaced_threshold_ft),
    }
}

pub open spec fn runway_stage_14(t: Seq<char>, j: int, id: Seq<char>, airport_ref: Seq<char>, airport_ident: Seq<char>, length_ft: Option<int>, width_ft: Option<int>, surface: Seq<char>, lighted: bool, closed: bool, le_ident: Seq<char>, le_latitude_deg: Option<Seq<char>>, le_longitude_deg: Option<Seq<char>>, le_elevation_ft: Option<int>, le_heading_deg_true: Option<Seq<char>>, le_displaced_threshold_ft: Option<int>) -> Option<(RunwayView, int)> {
    match field_str(t, j, "he_ident"@, false) {
        None => None,
        Some((he_ident, j2)) => runway_stage_15(t, j2, id, airport_ref, airport_ident, length_ft, width_ft, surface, lighted, closed, le_ident, le_latitude_deg, le_longitude_deg, le_elevation_ft, le_heading_deg_true, le_displaced_threshold_ft, he_ident),
    }
}

pub open spec fn runway_stage_15(t: Seq<char>, j: int, id: Seq<char>, airport_ref: Seq<char>, airport_ident: Seq<char>, length_ft: Option<int>, width_ft: Option<int>, surface: Seq<char>, lighted: bool, closed: bool, le_ident: Seq<char>, le_latitude_deg: Option<Seq<char>>, le_longitude_deg: Option<Seq<char>>, le_elevation_ft: Option<int>, le_heading_deg_true: Option<Seq<char>>, le_displaced_threshold_ft: Option<int>, he_ident: Seq<char>) -> Option<(RunwayView, int)> {
    match field_opt_num(t, j, "he_latitude_deg"@, false) {
        None => None,
        Some((he_latitude_deg, j2)) => runway_stage_16(t, j2, id, airport_ref, airport_ident, length_ft, width_ft, surface, lighted, closed, le_ident, le_latitude_deg, le_longitude_deg, le_elevation_ft, le_heading_deg_true, le_displaced_threshold_ft, he_ident, he_latitude_deg),
    }
}

pub open spec fn runway_stage_16(t: Seq<char>, j: int, id: Seq<char>, airport_ref: Seq<char>, airport_ident: Seq<char>, length_ft: Option<int>, width_ft: Option<int>, surface: Seq<char>, lighted: bool, closed: bool, le_ident: Seq<char>, le_latitude_deg: Option<Seq<char>>, le_longitude_deg: Option<Seq<char>>, le_elevation_ft: Option<int>, le_heading_deg_true: Option<Seq<char>>, le_displaced_threshold_ft: Option<int>, he_ident: Seq<char>, he_latitude_deg: Option<Seq<char>>) -> Option<(RunwayView, int)> {
    match field_opt_num(t, j, "he_longitude_deg"@, false) {
        None => None,
        Some((he_longitude_deg, j2)) => runway_stage_17(t, j2, id, airport_ref, airport_ident, length_ft, width_ft, surface, lighted, closed, le_ident, le_latitude_deg, le_longitude_deg, le_elevation_ft, le_heading_deg_true, le_displaced_threshold_ft, he_ident, he_latitude_deg, he_longitude_deg),
    }
}

pub open spec fn runway_stage_17(t: Seq<char>, j: int, id: Seq<char>, airport_ref: Seq<char>, airport_ident: Seq<char>, length_ft: Option<int>, width_ft: Option<int>, surface: Seq<char>, lighted: bool, closed: bool, le_ident: Seq<char>, le_latitude_deg: Option<Seq<char>>, le_longitude_deg: Option<Seq<char>>, le_elevation_ft: Option<int>, le_heading_deg_true: Option<Seq<char>>, le_displaced_threshold_ft: Option<int>, he_ident: Seq<char>, he_latitude_deg: Option<Seq<char>>, he_longitude_deg: Option<Seq<char>>) -> Option<(RunwayView, int)> {
    match field_opt_int(t, j, "he_elevation_ft"@, false) {
        None => None,
        Some((he_elevation_ft, j2)) => runway_stage_18(t, j2, id, airport_ref, airport_ident, length_ft, width_ft, surface, lighted, closed, le_ident, le_latitude_deg, le_longitude_deg, le_elevation_ft, le_heading_deg_true, le_displaced_threshold_ft, he_ident, he_latitude_deg, he_longitude_deg, he_elevation_ft),
    }
}

pub open spec fn runway_stage_18(t: Seq<char>, j: int, id: Seq<char>, airport_ref: Seq<char>, airport_ident: Seq<char>, length_ft: Option<int>, width_ft: Option<int>, surface: Seq<char>, lighted: bool, closed: bool, le_ident: Seq<char>, le_latitude_deg: Option<Seq<char>>, le_longitude_deg: Option<Seq<char>>, le_elevation_ft: Option<int>, le_heading_deg_true: Option<Seq<char>>, le_displaced_threshold_ft: Option<int>, he_ident: Seq<char>, he_latitude_deg: Option<Seq<char>>, he_longitude_deg: Option<Seq<char>>, he_elevation_ft: Option<int>) -> Option<(RunwayView, int)> {
    match field_opt_num(t, j, "he_heading_degT"@, false) {
        None => None,
        Some((he_heading_deg_true, j2)) => runway_stage_19(t, j2, id, airport_ref, airport_ident, length_ft, width_ft, surface, lighted, closed, le_ident, le_latitude_deg, le_longitude_deg, le_elevation_ft, le_heading_deg_true, le_displaced_threshold_ft, he_ident, he_latitude_deg, he_longitude_deg, he_elevation_ft, he_heading_deg_true),
    }
}

pub open spec fn runway_stage_19(t: Seq<char>, j: int, id: Seq<char>, airport_ref: Seq<char>, airport_ident: Seq<char>, length_ft: Option<int>, width_ft: Option<int>, surface: Seq<char>, lighted: bool, closed: bool, le_ident: Seq<char>, le_latitude_deg: Option<Seq<char>>, le_longitude_deg: Option<Seq<char>>, le_elevation_ft: Option<int>, le_heading_deg_true: Option<Seq<char>>, le_displaced_threshold_ft: Option<int>, he_ident: Seq<char>, he_latitude_deg: Option<Seq<char>>, he_longitude_deg: Option<Seq<char>>, he_elevation_ft: Option<int>, he_heading_deg_true: Option<Seq<char>>) -> Option<(RunwayView, int)> {
    match field_opt_int(t, j, "he_displaced_threshold_ft"@, false) {
        None => None,
        Some((he_displaced_threshold_ft, j2)) => runway_stage_20(t, j2, id, airport_ref, airport_ident, length_ft, width_ft, surface, lighted, closed, le_ident, le_latitude_deg, le_longitude_deg, le_elevation_ft, le_heading_deg_true, le_displaced_threshold_ft, he_ident, he_latitude_deg, he_longitude_deg, he_elevation_ft, he_heading_deg_true, he_displaced_threshold_ft),
    }
}

pub open spec fn runway_stage_20(t: Seq<char>, j: int, id: Seq<char>, airport_ref: Seq<char>, airport_ident: Seq<char>, length_ft: Option<int>, width_ft: Option<int>, surface: Seq<char>, lighted: bool, closed: bool, le_ident: Seq<char>, le_latitude_deg: Option<Seq<char>>, le_longitude_deg: Option<Seq<char>>, le_elevation_ft: Option<int>, le_heading_deg_true: Option<Seq<char>>, le_displaced_threshold_ft: Option<int>, he_ident: Seq<char>, he_latitude_deg: Option<Seq<char>>, he_longitude_deg: Option<Seq<char>>, he_elevation_ft: Option<int>, he_heading_deg_true: Option<Seq<char>>, he_displaced_threshold_ft: Option<int>) -> Option<(RunwayView, int)> {
    match expect(t, j, seq!['}']) {
        None => None,
        Some(j2) => Some(
            (RunwayView { id, airport_ref, airport_ident, length_ft, width_ft, surface, lighted, closed, le_ident, le_latitude_deg, le_longitude_deg, le_elevation_ft, le_heading_deg_true, le_displaced_threshold_ft, he_ident, he_latitude_deg, he_longitude_deg, he_elevation_ft, he_heading_deg_true, he_displaced_threshold_ft }, j2),
        ),
    }
}

/// Reads one runway record object in the canonical compact form.
pub open spec fn parse_runway_obj(t: Seq<char>, i: int) -> Option<(RunwayView, int)> {
    match expect(t, i, seq!['{']) {
        None => None,
        Some(j0) => runway_stage_0(t, j0),
    }
}

/// Reads a whole single-record runway document in the canonical
/// compact form.
pub open spec fn parse_runway_doc(t: Seq<char>) -> Option<RunwayView> {
    match expect(t, 0, seq!['[']) {
        None => None,
        Some(i) => match parse_runway_obj(t, i) {
            None => None,
            Some((a, j)) => if expect(t, j, seq![']']) == Some(t.len() as int) {
                Some(a)
            } else {
                None
            },
        },
    }
}

/// The rendered field items of a runway object, in field order.
pub open spec fn runway_items(a: RunwayView) -> Seq<Seq<char>> {
    crate::records::runway::runway_pairs(a).map_values(
        |p: (Seq<char>, Seq<char>)| jstr(p.0) + seq![':'] + p.1,
    )
}


/// Reading runway fields 18 to 19, and the closing brace.
#[verifier::rlimit(100)]
#[verifier::spinoff_prover]
proof fn lemma_runway_seg18(t: Seq<char>, pre: Seq<char>, a: RunwayView, post: Seq<char>)
    requires
        crate::records::runway::runway_wf(a),
        t == pre + (seq![','] + (crate::json::join_with(runway_items(a).skip(18), seq![',']) + (seq!['}'] + post))),
    ensures
        runway_stage_18(
            t,
            pre.len() as int,
            a.id,
            a.airport_ref,
            a.airport_ident,
            a.length_ft,
            a.width_ft,
            a.surface,
            a.lighted,
            a.closed,
            a.le_ident,
            a.le_latitude_deg,
            a.le_longitude_deg,
            a.le_elevation_ft,
            a.le_heading_deg_true,
            a.le_displaced_threshold_ft,
            a.he_ident,
            a.he_latitude_deg,
            a.he_longitude_deg,
            a.he_elevation_ft,
        ) == Some(
            (
                RunwayView {
                    id: a.id,
                    airport_ref: a.airport_ref,
                    airport_ident: a.airport_ident,
                    length_ft: a.length_ft,
                    width_ft: a.width_ft,
                    surface: a.surface,
                    lighted: a.lighted,
                    closed: a.closed,
                    le_ident: a.le_ident,
                    le_latitude_deg: a.le_latitude_deg,
                    le_longitude_deg: a.le_longitude_deg,
                    le_elevation_ft: a.le_elevation_ft,
                    le_heading_deg_true: a.le_heading_deg_true,
                    le_displaced_threshold_ft: a.le_displaced_threshold_ft,
                    he_ident: a.he_ident,
                    he_latitude_deg: a.he_latitude_deg,
                    he_longitude_deg: a.he_longitude_deg,
                    he_elevation_ft: a.he_elevation_ft,
                    he_heading_deg_true: a.he_heading_deg_true,
                    he_displaced_threshold_ft: a.he_displaced_threshold_ft,
                },
                (pre.len() + 1 + crate::json::join_with(runway_items(a).skip(18), seq![',']).len() + 1) as int,
            ),
        ),
{
    let fc = |p: (Seq<char>, Seq<char>)| jstr(p.0) + seq![':'] + p.1;
    let pairs = crate::records::runway::runway_pairs(a);
    let items = runway_items(a);
    assert(items == pairs.map_values(fc)) by {
        assert(fc == (|p: (Seq<char>, Seq<char>)| jstr(p.0) + seq![':'] + p.1));
    }
    let sep = seq![','];
    assert(items.len() == 20);
    let kl18 = jstr("he_heading_degT"@) + seq![':'];
    let v18 = crate::json::jopt_num(a.he_heading_deg_true);
    assert(items[18] == kl18 + v18);
    let kl19 = jstr("he_displaced_threshold_ft"@) + seq![':'];
    let v19 = crate::json::jopt_int(a.he_displaced_threshold_ft);
    assert(items[19] == kl19 + v19);
    let jt18 = crate::json::join_with(items.skip(18), sep);
    let jt19 = crate::json::join_with(items.skip(19), sep);
    assert(items.skip(18).len() == 2);
    assert(items.skip(18)[0] == items[18]);
    assert(items.skip(18).drop_first() =~= items.skip(19));
    assert(jt18 == items[18] + sep + jt19);
    assert(items.skip(19).len() == 1);
    assert(items.skip(19)[0] == items[19]);
    assert(jt19 == items[19]);
    let ccb = seq!['}'] + post;
    assert(t == pre + (sep + (jt18 + ccb)));
    // field he_heading_degT
    assert(sep + (jt18 + ccb) == (sep + kl18) + (v18 + (sep + (jt19 + ccb)))) by {
        lemma_assoc((kl18 + v18) + sep, jt19, ccb);
        lemma_assoc(kl18 + v18, sep, jt19 + ccb);
        lemma_assoc(kl18, v18, sep + (jt19 + ccb));
        lemma_assoc(sep, kl18, v18 + (sep + (jt19 + ccb)));
    }
    assert(klit("he_heading_degT"@, false) == sep + kl18) by {
        lemma_assoc(sep, jstr("he_heading_degT"@), seq![':']);
    }
    lemma_assoc(pre, sep + kl18, v18 + (sep + (jt19 + ccb)));
    assert(t == pre + klit("he_heading_degT"@, false) + (v18 + (sep + (jt19 + ccb))));
    assert((sep + (jt19 + ccb))[0] == ',');
    assert((sep + (jt19 + ccb)).len() > 0);
    lemma_field_opt_num(t, pre, "he_heading_degT"@, false, a.he_heading_deg_true, sep + (jt19 + ccb));
    let w19 = (pre + klit("he_heading_degT"@, false)) + v18;
    // field he_displaced_threshold_ft
    assert(sep + (jt19 + ccb) == (sep + kl19) + (v19 + ccb)) by {
        lemma_assoc(kl19, v19, ccb);
        lemma_assoc(sep, kl19, v19 + ccb);
    }
    assert(klit("he_displaced_threshold_ft"@, false) == sep + kl19) by {
        lemma_assoc(sep, jstr("he_displaced_threshold_ft"@), seq![':']);
    }
    lemma_assoc(w19, sep + kl19, v19 + (ccb));
    assert(t == w19 + klit("he_displaced_threshold_ft"@, false) + (v19 + (ccb)));
    assert((ccb)[0] == '}');
    assert((ccb).len() > 0);
    lemma_field_opt_int(t, w19, "he_displaced_threshold_ft"@, false, a.he_displaced_threshold_ft, ccb);
    let w20 = (w19 + klit("he_displaced_threshold_ft"@, false)) + v19;
    let parsed = RunwayView {
        id: a.id,
        airport_ref: a.airport_ref,
        airport_ident: a.airport_ident,
        length_ft: a.length_ft,
        width_ft: a.width_ft,
        surface: a.surface,
        lighted: a.lighted,
        closed: a.closed,
        le_ident: a.le_ident,
        le_latitude_deg: a.le_latitude_deg,
        le_longitude_deg: a.le_longitude_deg,
        le_elevation_ft: a.le_elevation_ft,
        le_heading_deg_true: a.le_heading_deg_true,
        le_displaced_threshold_ft: a.le_displaced_threshold_ft,
        he_ident: a.he_ident,
        he_latitude_deg: a.he_latitude_deg,
        he_longitude_deg: a.he_longitude_deg,
        he_elevation_ft: a.he_elevation_ft,
        he_heading_deg_true: a.he_heading_deg_true,
        he_displaced_threshold_ft: a.he_displaced_threshold_ft,
    };
    lemma_assoc(w20, seq!['}'], post);
    assert(t == w20 + seq!['}'] + post);
    lemma_step_expect(t, w20, seq!['}'], post);
    let fin = (w20.len() + 1) as int;
    assert(runway_stage_20(t, w20.len() as int, a.id, a.airport_ref, a.airport_ident, a.length_ft, a.width_ft, a.surface, a.lighted, a.closed, a.le_ident, a.le_latitude_deg, a.le_longitude_deg, a.le_elevation_ft, a.le_heading_deg_true, a.le_displaced_threshold_ft, a.he_ident, a.he_latitude_deg, a.he_longitude_deg, a.he_elevation_ft, a.he_heading_deg_true, a.he_displaced_threshold_ft) == Some((parsed, fin)));
    assert(runway_stage_19(t, w19.len() as int, a.id, a.airport_ref, a.airport_ident, a.length_ft, a.width_ft, a.surface, a.lighted, a.closed, a.le_ident, a.le_latitude_deg, a.le_longitude_deg, a.le_elevation_ft, a.le_heading_deg_true, a.le_displaced_threshold_ft, a.he_ident, a.he_latitude_deg, a.he_longitude_deg, a.he_elevation_ft, a.he_heading_deg_true) == Some((parsed, fin)));
    assert(runway_stage_18(t, pre.len() as int, a.id, a.airport_ref, a.airport_ident, a.length_ft, a.width_ft, a.surface, a.lighted, a.closed, a.le_ident, a.le_latitude_deg, a.le_longitude_deg, a.le_elevation_ft, a.le_heading_deg_true, a.le_displaced_threshold_ft, a.he_ident, a.he_latitude_deg, a.he_longitude_deg, a.he_elevation_ft) == Some((parsed, fin)));
    assert(fin == (pre.len() + 1 + jt18.len() + 1) as int);
}

/// Reading runway fields 16 to 17.
#[verifier::rlimit(100)]
#[verifier::spinoff_prover]
proof fn lemma_runway_seg16(t: Seq<char>, pre: Seq<char>, a: RunwayView, post: Seq<char>)
    requires
        crate::records::runway::runway_wf(a),
        t == pre + (seq![','] + (crate::json::join_with(runway_items(a).skip(16), seq![',']) + (seq!['}'] + post))),
    ensures
        runway_stage_16(
            t,
            pre.len() as int,
            a.id,
            a.airport_ref,
            a.airport_ident,
            a.length_ft,
            a.width_ft,
            a.surface,
            a.lighted,
            a.closed,
            a.le_ident,
            a.le_latitude_deg,
            a.le_longitude_deg,
            a.le_elevation_ft,
            a.le_heading_deg_true,
            a.le_displaced_threshold_ft,
            a.he_ident,
            a.he_latitude_deg,
        ) == Some(
            (
                RunwayView {
                    id: a.id,
                    airport_ref: a.airport_ref,
                    airport_ident: a.airport_ident,
                    length_ft: a.length_ft,
                    width_ft: a.width_ft,
                    surface: a.surface,
                    lighted: a.lighted,
                    closed: a.closed,
                    le_ident: a.le_ident,
                    le_latitude_deg: a.le_latitude_deg,
                    le_longitude_deg: a.le_longitude_deg,
                    le_elevation_ft: a.le_elevation_ft,
                    le_heading_deg_true: a.le_heading_deg_true,
                    le_displaced_threshold_ft: a.le_displaced_threshold_ft,
                    he_ident: a.he_ident,
                    he_latitude_deg: a.he_latitude_deg,
                    he_longitude_deg: a.he_longitude_deg,
                    he_elevation_ft: a.he_elevation_ft,
                    he_heading_deg_true: a.he_heading_deg_true,
                    he_displaced_threshold_ft: a.he_displaced_threshold_ft,
                },
                (pre.len() + 1 + crate::json::join_with(runway_items(a).skip(16), seq![',']).len() + 1) as int,
            ),
        ),
{
    let fc = |p: (Seq<char>, Seq<char>)| jstr(p.0) + seq![':'] + p.1;
    let pairs = crate::records::runway::runway_pairs(a);
    let items = runway_items(a);
    assert(items == pairs.map_values(fc)) by {
        assert(fc == (|p: (Seq<char>, Seq<char>)| jstr(p.0) + seq![':'] + p.1));
    }
    let sep = seq![','];
    assert(items.len() == 20);
    let kl16 = jstr("he_longitude_deg"@) + seq![':'];
    let v16 = crate::json::jopt_num(a.he_longitude_deg);
    assert(items[16] == kl16 + v16);
    let kl17 = jstr("he_elevation_ft"@) + seq![':'];
    let v17 = crate::json::jopt_int(a.he_elevation_ft);
    assert(items[17] == kl17 + v17);
    let jt16 = crate::json::join_with(items.skip(16), sep);
    let jt17 = crate::json::join_with(items.skip(17), sep);
    let jt18 = crate::json::join_with(items.skip(18), sep);
    assert(items.skip(16).len() == 4);
    assert(items.skip(16)[0] == items[16]);
    assert(items.skip(16).drop_first() =~= items.skip(17));
    assert(jt16 == items[16] + sep + jt17);
    assert(items.skip(17).len() == 3);
    assert(items.skip(17)[0] == items[17]);
    assert(items.skip(17).drop_first() =~= items.skip(18));
    assert(jt17 == items[17] + sep + jt18);
    let ccb = seq!['}'] + post;
    assert(t == pre + (sep + (jt16 + ccb)));
    // field he_longitude_deg
    assert(sep + (jt16 + ccb) == (sep + kl16) + (v16 + (sep + (jt17 + ccb)))) by {
        lemma_assoc((kl16 + v16) + sep, jt17, ccb);
        lemma_assoc(kl16 + v16, sep, jt17 + ccb);
        lemma_assoc(kl16, v16, sep + (jt17 + ccb));
        lemma_assoc(sep, kl16, v16 + (sep + (jt17 + ccb)));
    }
    assert(klit("he_longitude_deg"@, false) == sep + kl16) by {
        lemma_assoc(sep, jstr("he_longitude_deg"@), seq![':']);
    }
    lemma_assoc(pre, sep + kl16, v16 + (sep + (jt17 + ccb)));
    assert(t == pre + klit("he_longitude_deg"@, false) + (v16 + (sep + (jt17 + ccb))));
    assert((sep + (jt17 + ccb))[0] == ',');
    assert((sep + (jt17 + ccb)).len() > 0);
    lemma_field_opt_num(t, pre, "he_longitude_deg"@, false, a.he_longitude_deg, sep + (jt17 + ccb));
    let w17 = (pre + klit("he_longitude_deg"@, false)) + v16;
    // field he_elevation_ft
    assert(sep + (jt17 + ccb) == (sep + kl17) + (v17 + (sep + (jt18 + ccb)))) by {
        lemma_assoc((kl17 + v17) + sep, jt18, ccb);
        lemma_assoc(kl17 + v17, sep, jt18 + ccb);
        lemma_assoc(kl17, v17, sep + (jt18 + ccb));
        lemma_assoc(sep, kl17, v17 + (sep + (jt18 + ccb)));
    }
    assert(klit("he_elevation_ft"@, false) == sep + kl17) by {
        lemma_assoc(sep, jstr("he_elevation_ft"@), seq![':']);
    }
    lemma_assoc(w17, sep + kl17, v17 + (sep + (jt18 + ccb)));
    assert(t == w17 + klit("he_elevation_ft"@, false) + (v17 + (sep + (jt18 + ccb))));
    assert((sep + (jt18 + ccb))[0] == ',');
    assert((sep + (jt18 + ccb)).len() > 0);
    lemma_field_opt_int(t, w17, "he_elevation_ft"@, false, a.he_elevation_ft, sep + (jt18 + ccb));
    let w18 = (w17 + klit("he_elevation_ft"@, false)) + v17;
    let parsed = RunwayView {
        id: a.id,
        airport_ref: a.airport_ref,
        airport_ident: a.airport_ident,
        length_ft: a.length_ft,
        width_ft: a.width_ft,
        surface: a.surface,
        lighted: a.lighted,
        closed: a.closed,
        le_ident: a.le_ident,
        le_latitude_deg: a.le_latitude_deg,
        le_longitude_deg: a.le_longitude_deg,
        le_elevation_ft: a.le_elevation_ft,
        le_heading_deg_true: a.le_heading_deg_true,
        le_displaced_threshold_ft: a.le_displaced_threshold_ft,
        he_ident: a.he_ident,
        he_latitude_deg: a.he_latitude_deg,
        he_longitude_deg: a.he_longitude_deg,
        he_elevation_ft: a.he_elevation_ft,
        he_heading_deg_true: a.he_heading_deg_true,
        he_displaced_threshold_ft: a.he_displaced_threshold_ft,
    };
    assert(t == w18 + (sep + (jt18 + ccb)));
    lemma_runway_seg18(t, w18, a, post);
    let fin = (w18.len() + 1 + jt18.len() + 1) as int;
    assert(runway_stage_17(t, w17.len() as int, a.id, a.airport_ref, a.airport_ident, a.length_ft, a.width_ft, a.surface, a.lighted, a.closed, a.le_ident, a.le_latitude_deg, a.le_longitude_deg, a.le_elevation_ft, a.le_heading_deg_true, a.le_displaced_threshold_ft, a.he_ident, a.he_latitude_deg, a.he_longitude_deg) == Some((parsed, fin)));
    assert(runway_stage_16(t, pre.len() as int, a.id, a.airport_ref, a.airport_ident, a.length_ft, a.width_ft, a.surface, a.lighted, a.closed, a.le_ident, a.le_latitude_deg, a.le_longitude_deg, a.le_elevation_ft, a.le_heading_deg_true, a.le_displaced_threshold_ft, a.he_ident, a.he_latitude_deg) == Some((parsed, fin)));
    assert(fin == (pre.len() + 1 + jt16.len() + 1) as int);
}

/// Reading runway fields 14 to 15.
#[verifier::rlimit(100)]
#[verifier::spinoff_prover]
proof fn lemma_runway_seg14(t: Seq<char>, pre: Seq<char>, a: RunwayView, post: Seq<char>)
    requires
        crate::records::runway::runway_wf(a),
        t == pre + (seq![','] + (crate::json::join_with(runway_items(a).skip(14), seq![',']) + (seq!['}'] + post))),
    ensures
        runway_stage_14(
            t,
            pre.len() as int,
            a.id,
            a.airport_ref,
            a.airport_ident,
            a.length_ft,
            a.width_ft,
            a.surface,
            a.lighted,
            a.closed,
            a.le_ident,
            a.le_latitude_deg,
            a.le_longitude_deg,
            a.le_elevation_ft,
            a.le_heading_deg_true,
            a.le_displaced_threshold_ft,
        ) == Some(
            (
                RunwayView {
                    id: a.id,
                    airport_ref: a.airport_ref,
                    airport_ident: a.airport_ident,
                    length_ft: a.length_ft,
                    width_ft: a.width_ft,
                    surface: a.surface,
                    lighted: a.lighted,
                    closed: a.closed,
                    le_ident: a.le_ident,
                    le_latitude_deg: a.le_latitude_deg,
                    le_longitude_deg: a.le_longitude_deg,
                    le_elevation_ft: a.le_elevation_ft,
                    le_heading_deg_true: a.le_heading_deg_true,
                    le_displaced_threshold_ft: a.le_displaced_threshold_ft,
                    he_ident: a.he_ident,
                    he_latitude_deg: a.he_latitude_deg,
                    he_longitude_deg: a.he_longitude_deg,
                    he_elevation_ft: a.he_elevation_ft,
                    he_heading_deg_true: a.he_heading_deg_true,
                    he_displaced_threshold_ft: a.he_displaced_threshold_ft,
                },
                (pre.len() + 1 + crate::json::join_with(runway_items(a).skip(14), seq![',']).len() + 1) as int,
            ),
        ),
{
    let fc = |p: (Seq<char>, Seq<char>)| jstr(p.0) + seq![':'] + p.1;
    let pairs = crate::records::runway::runway_pairs(a);
    let items = runway_items(a);
    assert(items == pairs.map_values(fc)) by {
        assert(fc == (|p: (Seq<char>, Seq<char>)| jstr(p.0) + seq![':'] + p.1));
    }
    let sep = seq![','];
    assert(items.len() == 20);
    let kl14 = jstr("he_ident"@) + seq![':'];
    let v14 = jstr(a.he_ident);
    assert(items[14] == kl14 + v14);
    let kl15 = jstr("he_latitude_deg"@) + seq![':'];
    let v15 = crate::json::jopt_num(a.he_latitude_deg);
    assert(items[15] == kl15 + v15);
    let jt14 = crate::json::join_with(items.skip(14), sep);
    let jt15 = crate::json::join_with(items.skip(15), sep);
    let jt16 = crate::json::join_with(items.skip(16), sep);
    assert(items.skip(14).len() == 6);
    assert(items.skip(14)[0] == items[14]);
    assert(items.skip(14).drop_first() =~= items.skip(15));
    assert(jt14 == items[14] + sep + jt15);
    assert(items.skip(15).len() == 5);
    assert(items.skip(15)[0] == items[15]);
    assert(items.skip(15).drop_first() =~= items.skip(16));
    assert(jt15 == items[15] + sep + jt16);
    let ccb = seq!['}'] + post;
    assert(t == pre + (sep + (jt14 + ccb)));
    // field he_ident
    assert(sep + (jt14 + ccb) == (sep + kl14) + (v14 + (sep + (jt15 + ccb)))) by {
        lemma_assoc((kl14 + v14) + sep, jt15, ccb);
        lemma_assoc(kl14 + v14, sep, jt15 + ccb);
        lemma_assoc(kl14, v14, sep + (jt15 + ccb));
        lemma_assoc(sep, kl14, v14 + (sep + (jt15 + ccb)));
    }
    assert(klit("he_ident"@, false) == sep + kl14) by {
        lemma_assoc(sep, jstr("he_ident"@), seq![':']);
    }
    lemma_assoc(pre, sep + kl14, v14 + (sep + (jt15 + ccb)));
    assert(t == pre + klit("he_ident"@, false) + (v14 + (sep + (jt15 + ccb))));
    lemma_field_str(t, pre, "he_ident"@, false, a.he_ident, sep + (jt15 + ccb));
    let w15 = (pre + klit("he_ident"@, false)) + v14;
    // field he_latitude_deg
    assert(sep + (jt15 + ccb) == (sep + kl15) + (v15 + (sep + (jt16 + ccb)))) by {
        lemma_assoc((kl15 + v15) + sep, jt16, ccb);
        lemma_assoc(kl15 + v15, sep, jt16 + ccb);
        lemma_assoc(kl15, v15, sep + (jt16 + ccb));
        lemma_assoc(sep, kl15, v15 + (sep + (jt16 + ccb)));
    }
    assert(klit("he_latitude_deg"@, false) == sep + kl15) by {
        lemma_assoc(sep, jstr("he_latitude_deg"@), seq![':']);
    }
    lemma_assoc(w15, sep + kl15, v15 + (sep + (jt16 + ccb)));
    assert(t == w15 + klit("he_latitude_deg"@, false) + (v15 + (sep + (jt16 + ccb))));
    assert((sep + (jt16 + ccb))[0] == ',');
    assert((sep + (jt16 + ccb)).len() > 0);
    lemma_field_opt_num(t, w15, "he_latitude_deg"@, false, a.he_latitude_deg, sep + (jt16 + ccb));
    let w16 = (w15 + klit("he_latitude_deg"@, false)) + v15;
    let parsed = RunwayView {
        id: a.id,
        airport_ref: a.airport_ref,
        airport_ident: a.airport_ident,
        length_ft: a.length_ft,
        width_ft: a.width_ft,
        surface: a.surface,
        lighted: a.lighted,
        closed: a.closed,
        le_ident: a.le_ident,
        le_latitude_deg: a.le_latitude_deg,
        le_longitude_deg: a.le_longitude_deg,
        le_elevation_ft: a.le_elevation_ft,
        le_heading_deg_true: a.le_heading_deg_true,
        le_displaced_threshold_ft: a.le_displaced_threshold_ft,
        he_ident: a.he_ident,
        he_latitude_deg: a.he_latitude_deg,
        he_longitude_deg: a.he_longitude_deg,
        he_elevation_ft: a.he_elevation_ft,
        he_heading_deg_true: a.he_heading_deg_true,
        he_displaced_threshold_ft: a.he_displaced_threshold_ft,
    };
    assert(t == w16 + (sep + (jt16 + ccb)));
    lemma_runway_seg16(t, w16, a, post);
    let fin = (w16.len() + 1 + jt16.len() + 1) as int;
    assert(runway_stage_15(t, w15.len() as int, a.id, a.airport_ref, a.airport_ident, a.length_ft, a.width_ft, a.surface, a.lighted, a.closed, a.le_ident, a.le_latitude_deg, a.le_longitude_deg, a.le_elevation_ft, a.le_heading_deg_true, a.le_displaced_threshold_ft, a.he_ident) == Some((parsed, fin)));
    assert(runway_stage_14(t, pre.len() as int, a.id, a.airport_ref, a.airport_ident, a.length_ft, a.width_ft, a.surface, a.lighted, a.closed, a.le_ident, a.le_latitude_deg, a.le_longitude_deg, a.le_elevation_ft, a.le_heading_deg_true, a.le_displaced_threshold_ft) == Some((parsed, fin)));
    assert(fin == (pre.len() + 1 + jt14.len() + 1) as int);
}

/// Reading runway fields 12 to 13.
#[verifier::rlimit(100)]
#[verifier::spinoff_prover]
proof fn lemma_runway_seg12(t: Seq<char>, pre: Seq<char>, a: RunwayView, post: Seq<char>)
    requires
        crate::records::runway::runway_wf(a),
        t == pre + (seq![','] + (crate::json::join_with(runway_items(a).skip(12), seq![',']) + (seq!['}'] + post))),
    ensures
        runway_stage_12(
            t,
            pre.len() as int,
            a.id,
            a.airport_ref,
            a.airport_ident,
            a.length_ft,
            a.width_ft,
            a.surface,
            a.lighted,
            a.closed,
            a.le_ident,
            a.le_latitude_deg,
            a.le_longitude_deg,
            a.le_elevation_ft,
        ) == Some(
            (
                RunwayView {
                    id: a.id,
                    airport_ref: a.airport_ref,
                    airport_ident: a.airport_ident,
                    length_ft: a.length_ft,
                    width_ft: a.width_ft,
                    surface: a.surface,
                    lighted: a.lighted,
                    closed: a.closed,
                    le_ident: a.le_ident,
                    le_latitude_deg: a.le_latitude_deg,
                    le_longitude_deg: a.le_longitude_deg,
                    le_elevation_ft: a.le_elevation_ft,
                    le_heading_deg_true: a.le_heading_deg_true,
                    le_displaced_threshold_ft: a.le_displaced_threshold_ft,
                    he_ident: a.he_ident,
                    he_latitude_deg: a.he_latitude_deg,
                    he_longitude_deg: a.he_longitude_deg,
                    he_elevation_ft: a.he_elevation_ft,
                    he_heading_deg_true: a.he_heading_deg_true,
                    he_displaced_threshold_ft: a.he_displaced_threshold_ft,
                },
                (pre.len() + 1 + crate::json::join_with(runway_items(a).skip(12), seq![',']).len() + 1) as int,
            ),
        ),
{
    let fc = |p: (Seq<char>, Seq<char>)| jstr(p.0) + seq![':'] + p.1;
    let pairs = crate::records::runway::runway_pairs(a);
    let items = runway_items(a);
    assert(items == pairs.map_values(fc)) by {
        assert(fc == (|p: (Seq<char>, Seq<char>)| jstr(p.0) + seq![':'] + p.1));
    }
    let sep = seq![','];
    assert(items.len() == 20);
    let kl12 = jstr("le_heading_degT"@) + seq![':'];
    let v12 = crate::json::jopt_num(a.le_heading_deg_true);
    assert(items[12] == kl12 + v12);
    let kl13 = jstr("le_displaced_threshold_ft"@) + seq![':'];
    let v13 = crate::json::jopt_int(a.le_displaced_threshold_ft);
    assert(items[13] == kl13 + v13);
    let jt12 = crate::json::join_with(items.skip(12), sep);
    let jt13 = crate::json::join_with(items.skip(13), sep);
    let jt14 = crate::json::join_with(items.skip(14), sep);
    assert(items.skip(12).len() == 8);
    assert(items.skip(12)[0] == items[12]);
    assert(items.skip(12).drop_first() =~= items.skip(13));
    assert(jt12 == items[12] + sep + jt13);
    assert(items.skip(13).len() == 7);
    assert(items.skip(13)[0] == items[13]);
    assert(items.skip(13).drop_first() =~= items.skip(14));
    assert(jt13 == items[13] + sep + jt14);
    let ccb = seq!['}'] + post;
    assert(t == pre + (sep + (jt12 + ccb)));
    // field le_heading_degT
    assert(sep + (jt12 + ccb) == (sep + kl12) + (v12 + (sep + (jt13 + ccb)))) by {
        lemma_assoc((kl12 + v12) + sep, jt13, ccb);
        lemma_assoc(kl12 + v12, sep, jt13 + ccb);
        lemma_assoc(kl12, v12, sep + (jt13 + ccb));
        lemma_assoc(sep, kl12, v12 + (sep + (jt13 + ccb)));
    }
    assert(klit("le_heading_degT"@, false) == sep + kl12) by {
        lemma_assoc(sep, jstr("le_heading_degT"@), seq![':']);
    }
    lemma_assoc(pre, sep + kl12, v12 + (sep + (jt13 + ccb)));
    assert(t == pre + klit("le_heading_degT"@, false) + (v12 + (sep + (jt13 + ccb))));
    assert((sep + (jt13 + ccb))[0] == ',');
    assert((sep + (jt13 + ccb)).len() > 0);
    lemma_field_opt_num(t, pre, "le_heading_degT"@, false, a.le_heading_deg_true, sep + (jt13 + ccb));
    let w13 = (pre + klit("le_heading_degT"@, false)) + v12;
    // field le_displaced_threshold_ft
    assert(sep + (jt13 + ccb) == (sep + kl13) + (v13 + (sep + (jt14 + ccb)))) by {
        lemma_assoc((kl13 + v13) + sep, jt14, ccb);
        lemma_assoc(kl13 + v13, sep, jt14 + ccb);
        lemma_assoc(kl13, v13, sep + (jt14 + ccb));
        lemma_assoc(sep, kl13, v13 + (sep + (jt14 + ccb)));
    }
    assert(klit("le_displaced_threshold_ft"@, false) == sep + kl13) by {
        lemma_assoc(sep, jstr("le_displaced_threshold_ft"@), seq![':']);
    }
    lemma_assoc(w13, sep + kl13, v13 + (sep + (jt14 + ccb)));
    assert(t == w13 + klit("le_displaced_threshold_ft"@, false) + (v13 + (sep + (jt14 + ccb))));
    assert((sep + (jt14 + ccb))[0] == ',');
    assert((sep + (jt14 + ccb)).len() > 0);
    lemma_field_opt_int(t, w13, "le_displaced_threshold_ft"@, false, a.le_displaced_threshold_ft, sep + (jt14 + ccb));
    let w14 = (w13 + klit("le_displaced_threshold_ft"@, false)) + v13;
    let parsed = RunwayView {
        id: a.id,
        airport_ref: a.airport_ref,
        airport_ident: a.airport_ident,
        length_ft: a.length_ft,
        width_ft: a.width_ft,
        surface: a.surface,
        lighted: a.lighted,
        closed: a.closed,
        le_ident: a.le_ident,
        le_latitude_deg: a.le_latitude_deg,
        le_longitude_deg: a.le_longitude_deg,
        le_elevation_ft: a.le_elevation_ft,
        le_heading_deg_true: a.le_heading_deg_true,
        le_displaced_threshold_ft: a.le_displaced_threshold_ft,
        he_ident: a.he_ident,
        he_latitude_deg: a.he_latitude_deg,
        he_longitude_deg: a.he_longitude_deg,
        he_elevation_ft: a.he_elevation_ft,
        he_heading_deg_true: a.he_heading_deg_true,
        he_displaced_threshold_ft: a.he_displaced_threshold_ft,
    };
    assert(t == w14 + (sep + (jt14 + ccb)));
    lemma_runway_seg14(t, w14, a, post);
    let fin = (w14.len() + 1 + jt14.len() + 1) as int;
    assert(runway_stage_13(t, w13.len() as int, a.id, a.airport_ref, a.airport_ident, a.length_ft, a.width_ft, a.surface, a.lighted, a.closed, a.le_ident, a.le_latitude_deg, a.le_longitude_deg, a.le_elevation_ft, a.le_heading_deg_true) == Some((parsed, fin)));
    assert(runway_stage_12(t, pre.len() as int, a.id, a.airport_ref, a.airport_ident, a.length_ft, a.width_ft, a.surface, a.lighted, a.closed, a.le_ident, a.le_latitude_deg, a.le_longitude_deg, a.le_elevation_ft) == Some((parsed, fin)));
    assert(fin == (pre.len() + 1 + jt12.len() + 1) as int);
}

/// Reading runway fields 10 to 11.
#[verifier::rlimit(100)]
#[verifier::spinoff_prover]
proof fn lemma_runway_seg10(t: Seq<char>, pre: Seq<char>, a: RunwayView, post: Seq<char>)
    requires
        crate::records::runway::runway_wf(a),
        t == pre + (seq![','] + (crate::json::join_with(runway_items(a).skip(10), seq![',']) + (seq!['}'] + post))),
    ensures
        runway_stage_10(
            t,
            pre.len() as int,
            a.id,
            a.airport_ref,
            a.airport_ident,
            a.length_ft,
            a.width_ft,
            a.surface,
            a.lighted,
            a.closed,
            a.le_ident,
            a.le_latitude_deg,
        ) == Some(
            (
                RunwayView {
                    id: a.id,
                    airport_ref: a.airport_ref,
                    airport_ident: a.airport_ident,
                    length_ft: a.length_ft,
                    width_ft: a.width_ft,
                    surface: a.surface,
                    lighted: a.lighted,
                    closed: a.closed,
                    le_ident: a.le_ident,
                    le_latitude_deg: a.le_latitude_deg,
                    le_longitude_deg: a.le_longitude_deg,
                    le_elevation_ft: a.le_elevation_ft,
                    le_heading_deg_true: a.le_heading_deg_true,
                    le_displaced_threshold_ft: a.le_displaced_threshold_ft,
                    he_ident: a.he_ident,
                    he_latitude_deg: a.he_latitude_deg,
                    he_longitude_deg: a.he_longitude_deg,
                    he_elevation_ft: a.he_elevation_ft,
                    he_heading_deg_true: a.he_heading_deg_true,
                    he_displaced_threshold_ft: a.he_displaced_threshold_ft,
                },
                (pre.len() + 1 + crate::json::join_with(runway_items(a).skip(10), seq![',']).len() + 1) as int,
            ),
        ),
{
    let fc = |p: (Seq<char>, Seq<char>)| jstr(p.0) + seq![':'] + p.1;
    let pairs = crate::records::runway::runway_pairs(a);
    let items = runway_items(a);
    assert(items == pairs.map_values(fc)) by {
        assert(fc == (|p: (Seq<char>, Seq<char>)| jstr(p.0) + seq![':'] + p.1));
    }
    let sep = seq![','];
    assert(items.len() == 20);
    let kl10 = jstr("le_longitude_deg"@) + seq![':'];
    let v10 = crate::json::jopt_num(a.le_longitude_deg);
    assert(items[10] == kl10 + v10);
    let kl11 = jstr("le_elevation_ft"@) + seq![':'];
    let v11 = crate::json::jopt_int(a.le_elevation_ft);
    assert(items[11] == kl11 + v11);
    let jt10 = crate::json::join_with(items.skip(10), sep);
    let jt11 = crate::json::join_with(items.skip(11), sep);
    let jt12 = crate::json::join_with(items.skip(12), sep);
    assert(items.skip(10).len() == 10);
    assert(items.skip(10)[0] == items[10]);
    assert(items.skip(10).drop_first() =~= items.skip(11));
    assert(jt10 == items[10] + sep + jt11);
    assert(items.skip(11).len() == 9);
    assert(items.skip(11)[0] == items[11]);
    assert(items.skip(11).drop_first() =~= items.skip(12));
    assert(jt11 == items[11] + sep + jt12);
    let ccb = seq!['}'] + post;
    assert(t == pre + (sep + (jt10 + ccb)));
    // field le_longitude_deg
    assert(sep + (jt10 + ccb) == (sep + kl10) + (v10 + (sep + (jt11 + ccb)))) by {
        lemma_assoc((kl10 + v10) + sep, jt11, ccb);
        lemma_assoc(kl10 + v10, sep, jt11 + ccb);
        lemma_assoc(kl10, v10, sep + (jt11 + ccb));
        lemma_assoc(sep, kl10, v10 + (sep + (jt11 + ccb)));
    }
    assert(klit("le_longitude_deg"@, false) == sep + kl10) by {
        lemma_assoc(sep, jstr("le_longitude_deg"@), seq![':']);
    }
    lemma_assoc(pre, sep + kl10, v10 + (sep + (jt11 + ccb)));
    assert(t == pre + klit("le_longitude_deg"@, false) + (v10 + (sep + (jt11 + ccb))));
    assert((sep + (jt11 + ccb))[0] == ',');
    assert((sep + (jt11 + ccb)).len() > 0);
    lemma_field_opt_num(t, pre, "le_longitude_deg"@, false, a.le_longitude_deg, sep + (jt11 + ccb));
    let w11 = (pre + klit("le_longitude_deg"@, false)) + v10;
    // field le_elevation_ft
    assert(sep + (jt11 + ccb) == (sep + kl11) + (v11 + (sep + (jt12 + ccb)))) by {
        lemma_assoc((kl11 + v11) + sep, jt12, ccb);
        lemma_assoc(kl11 + v11, sep, jt12 + ccb);
        lemma_assoc(kl11, v11, sep + (jt12 + ccb));
        lemma_assoc(sep, kl11, v11 + (sep + (jt12 + ccb)));
    }
    assert(klit("le_elevation_ft"@, false) == sep + kl11) by {
        lemma_assoc(sep, jstr("le_elevation_ft"@), seq![':']);
    }
    lemma_assoc(w11, sep + kl11, v11 + (sep + (jt12 + ccb)));
    assert(t == w11 + klit("le_elevation_ft"@, false) + (v11 + (sep + (jt12 + ccb))));
    assert((sep + (jt12 + ccb))[0] == ',');
    assert((sep + (jt12 + ccb)).len() > 0);
    lemma_field_opt_int(t, w11, "le_elevation_ft"@, false, a.le_elevation_ft, sep + (jt12 + ccb));
    let w12 = (w11 + klit("le_elevation_ft"@, false)) + v11;
    let parsed = RunwayView {
        id: a.id,
        airport_ref: a.airport_ref,
        airport_ident: a.airport_ident,
        length_ft: a.length_ft,
        width_ft: a.width_ft,
        surface: a.surface,
        lighted: a.lighted,
        closed: a.closed,
        le_ident: a.le_ident,
        le_latitude_deg: a.le_latitude_deg,
        le_longitude_deg: a.le_longitude_deg,
        le_elevation_ft: a.le_elevation_ft,
        le_heading_deg_true: a.le_heading_deg_true,
        le_displaced_threshold_ft: a.le_displaced_threshold_ft,
        he_ident: a.he_ident,
        he_latitude_deg: a.he_latitude_deg,
        he_longitude_deg: a.he_longitude_deg,
        he_elevation_ft: a.he_elevation_ft,
        he_heading_deg_true: a.he_heading_deg_true,
        he_displaced_threshold_ft: a.he_displaced_threshold_ft,
    };
    assert(t == w12 + (sep + (jt12 + ccb)));
    lemma_runway_seg12(t, w12, a, post);
    let fin = (w12.len() + 1 + jt12.len() + 1) as int;
    assert(runway_stage_11(t, w11.len() as int, a.id, a.airport_ref, a.airport_ident, a.length_ft, a.width_ft, a.surface, a.lighted, a.closed, a.le_ident, a.le_latitude_deg, a.le_longitude_deg) == Some((parsed, fin)));
    assert(runway_stage_10(t, pre.len() as int, a.id, a.airport_ref, a.airport_ident, a.length_ft, a.width_ft, a.surface, a.lighted, a.closed, a.le_ident, a.le_latitude_deg) == Some((parsed, fin)));
    assert(fin == (pre.len() + 1 + jt10.len() + 1) as int);
}

/// Reading runway fields 8 to 9.
#[verifier::rlimit(100)]
#[verifier::spinoff_prover]
proof fn lemma_runway_seg8(t: Seq<char>, pre: Seq<char>, a: RunwayView, post: Seq<char>)
    requires
        crate::records::runway::runway_wf(a),
        t == pre + (seq![','] + (crate::json::join_with(runway_items(a).skip(8), seq![',']) + (seq!['}'] + post))),
    ensures
        runway_stage_8(
            t,
            pre.len() as int,
            a.id,
            a.airport_ref,
            a.airport_ident,
            a.length_ft,
            a.width_ft,
            a.surface,
            a.lighted,
            a.closed,
        ) == Some(
            (
                RunwayView {
                    id: a.id,
                    airport_ref: a.airport_ref,
                    airport_ident: a.airport_ident,
                    length_ft: a.length_ft,
                    width_ft: a.width_ft,
                    surface: a.surface,
                    lighted: a.lighted,
                    closed: a.closed,
                    le_ident: a.le_ident,
                    le_latitude_deg: a.le_latitude_deg,
                    le_longitude_deg: a.le_longitude_deg,
                    le_elevation_ft: a.le_elevation_ft,
                    le_heading_deg_true: a.le_heading_deg_true,
                    le_displaced_threshold_ft: a.le_displaced_threshold_ft,
                    he_ident: a.he_ident,
                    he_latitude_deg: a.he_latitude_deg,
                    he_longitude_deg: a.he_longitude_deg,
                    he_elevation_ft: a.he_elevation_ft,
                    he_heading_deg_true: a.he_heading_deg_true,
                    he_displaced_threshold_ft: a.he_displaced_threshold_ft,
                },
                (pre.len() + 1 + crate::json::join_with(runway_items(a).skip(8), seq![',']).len() + 1) as int,
            ),
        ),
{
    let fc = |p: (Seq<char>, Seq<char>)| jstr(p.0) + seq![':'] + p.1;
    let pairs = crate::records::runway::runway_pairs(a);
    let items = runway_items(a);
    assert(items == pairs.map_values(fc)) by {
        assert(fc == (|p: (Seq<char>, Seq<char>)| jstr(p.0) + seq![':'] + p.1));
    }
    let sep = seq![','];
    assert(items.len() == 20);
    let kl8 = jstr("le_ident"@) + seq![':'];
    let v8 = jstr(a.le_ident);
    assert(items[8] == kl8 + v8);
    let kl9 = jstr("le_latitude_deg"@) + seq![':'];
    let v9 = crate::json::jopt_num(a.le_latitude_deg);
    assert(items[9] == kl9 + v9);
    let jt8 = crate::json::join_with(items.skip(8), sep);
    let jt9 = crate::json::join_with(items.skip(9), sep);
    let jt10 = crate::json::join_with(items.skip(10), sep);
    assert(items.skip(8).len() == 12);
    assert(items.skip(8)[0] == items[8]);
    assert(items.skip(8).drop_first() =~= items.skip(9));
    assert(jt8 == items[8] + sep + jt9);
    assert(items.skip(9).len() == 11);
    assert(items.skip(9)[0] == items[9]);
    assert(items.skip(9).drop_first() =~= items.skip(10));
    assert(jt9 == items[9] + sep + jt10);
    let ccb = seq!['}'] + post;
    assert(t == pre + (sep + (jt8 + ccb)));
    // field le_ident
    assert(sep + (jt8 + ccb) == (sep + kl8) + (v8 + (sep + (jt9 + ccb)))) by {
        lemma_assoc((kl8 + v8) + sep, jt9, ccb);
        lemma_assoc(kl8 + v8, sep, jt9 + ccb);
        lemma_assoc(kl8, v8, sep + (jt9 + ccb));
        lemma_assoc(sep, kl8, v8 + (sep + (jt9 + ccb)));
    }
    assert(klit("le_ident"@, false) == sep + kl8) by {
        lemma_assoc(sep, jstr("le_ident"@), seq![':']);
    }
    lemma_assoc(pre, sep + kl8, v8 + (sep + (jt9 + ccb)));
    assert(t == pre + klit("le_ident"@, false) + (v8 + (sep + (jt9 + ccb))));
    lemma_field_str(t, pre, "le_ident"@, false, a.le_ident, sep + (jt9 + ccb));
    let w9 = (pre + klit("le_ident"@, false)) + v8;
    // field le_latitude_deg
    assert(sep + (jt9 + ccb) == (sep + kl9) + (v9 + (sep + (jt10 + ccb)))) by {
        lemma_assoc((kl9 + v9) + sep, jt10, ccb);
        lemma_assoc(kl9 + v9, sep, jt10 + ccb);
        lemma_assoc(kl9, v9, sep + (jt10 + ccb));
        lemma_assoc(sep, kl9, v9 + (sep + (jt10 + ccb)));
    }
    assert(klit("le_latitude_deg"@, false) == sep + kl9) by {
        lemma_assoc(sep, jstr("le_latitude_deg"@), seq![':']);
    }
    lemma_assoc(w9, sep + kl9, v9 + (sep + (jt10 + ccb)));
    assert(t == w9 + klit("le_latitude_deg"@, false) + (v9 + (sep + (jt10 + ccb))));
    assert((sep + (jt10 + ccb))[0] == ',');
    assert((sep + (jt10 + ccb)).len() > 0);
    lemma_field_opt_num(t, w9, "le_latitude_deg"@, false, a.le_latitude_deg, sep + (jt10 + ccb));
    let w10 = (w9 + klit("le_latitude_deg"@, false)) + v9;
    let parsed = RunwayView {
        id: a.id,
        airport_ref: a.airport_ref,
        airport_ident: a.airport_ident,
        length_ft: a.length_ft,
        width_ft: a.width_ft,
        surface: a.surface,
        lighted: a.lighted,
        closed: a.closed,
        le_ident: a.le_ident,
        le_latitude_deg: a.le_latitude_deg,
        le_longitude_deg: a.le_longitude_deg,
        le_elevation_ft: a.le_elevation_ft,
        le_heading_deg_true: a.le_heading_deg_true,
        le_displaced_threshold_ft: a.le_displaced_threshold_ft,
        he_ident: a.he_ident,
        he_latitude_deg: a.he_latitude_deg,
        he_longitude_deg: a.he_longitude_deg,
        he_elevation_ft: a.he_elevation_ft,
        he_heading_deg_true: a.he_heading_deg_true,
        he_displaced_threshold_ft: a.he_displaced_threshold_ft,
    };
    assert(t == w10 + (sep + (jt10 + ccb)));
    lemma_runway_seg10(t, w10, a, post);
    let fin = (w10.len() + 1 + jt10.len() + 1) as int;
    assert(runway_stage_9(t, w9.len() as int, a.id, a.airport_ref, a.airport_ident, a.length_ft, a.width_ft, a.surface, a.lighted, a.closed, a.le_ident) == Some((parsed, fin)));
    assert(runway_stage_8(t, pre.len() as int, a.id, a.airport_ref, a.airport_ident, a.length_ft, a.width_ft, a.surface, a.lighted, a.closed) == Some((parsed, fin)));
    assert(fin == (pre.len() + 1 + jt8.len() + 1) as int);
}

/// Reading runway fields 6 to 7.
#[verifier::rlimit(100)]
#[verifier::spinoff_prover]
proof fn lemma_runway_seg6(t: Seq<char>, pre: Seq<char>, a: RunwayView, post: Seq<char>)
    requires
        crate::records::runway::runway_wf(a),
        t == pre + (seq![','] + (crate::json::join_with(runway_items(a).skip(6), seq![',']) + (seq!['}'] + post))),
    ensures
        runway_stage_6(
            t,
            pre.len() as int,
            a.id,
            a.airport_ref,
            a.airport_ident,
            a.length_ft,
            a.width_ft,
            a.surface,
        ) == Some(
            (
                RunwayView {
                    id: a.id,
                    airport_ref: a.airport_ref,
                    airport_ident: a.airport_ident,
                    length_ft: a.length_ft,
                    width_ft: a.width_ft,
                    surface: a.surface,
                    lighted: a.lighted,
                    closed: a.closed,
                    le_ident: a.le_ident,
                    le_latitude_deg: a.le_latitude_deg,
                    le_longitude_deg: a.le_longitude_deg,
                    le_elevation_ft: a.le_elevation_ft,
                    le_heading_deg_true: a.le_heading_deg_true,
                    le_displaced_threshold_ft: a.le_displaced_threshold_ft,
                    he_ident: a.he_ident,
                    he_latitude_deg: a.he_latitude_deg,
                    he_longitude_deg: a.he_longitude_deg,
                    he_elevation_ft: a.he_elevation_ft,
                    he_heading_deg_true: a.he_heading_deg_true,
                    he_displaced_threshold_ft: a.he_displaced_threshold_ft,
                },
                (pre.len() + 1 + crate::json::join_with(runway_items(a).skip(6), seq![',']).len() + 1) as int,
            ),
        ),
{
    let fc = |p: (Seq<char>, Seq<char>)| jstr(p.0) + seq![':'] + p.1;
    let pairs = crate::records::runway::runway_pairs(a);
    let items = runway_items(a);
    assert(items == pairs.map_values(fc)) by {
        assert(fc == (|p: (Seq<char>, Seq<char>)| jstr(p.0) + seq![':'] + p.1));
    }
    let sep = seq![','];
    assert(items.len() == 20);
    let kl6 = jstr("lighted"@) + seq![':'];
    let v6 = crate::json::jbool(a.lighted);
    assert(items[6] == kl6 + v6);
    let kl7 = jstr("closed"@) + seq![':'];
    let v7 = crate::json::jbool(a.closed);
    assert(items[7] == kl7 + v7);
    let jt6 = crate::json::join_with(items.skip(6), sep);
    let jt7 = crate::json::join_with(items.skip(7), sep);
    let jt8 = crate::json::join_with(items.skip(8), sep);
    assert(items.skip(6).len() == 14);
    assert(items.skip(6)[0] == items[6]);
    assert(items.skip(6).drop_first() =~= items.skip(7));
    assert(jt6 == items[6] + sep + jt7);
    assert(items.skip(7).len() == 13);
    assert(items.skip(7)[0] == items[7]);
    assert(items.skip(7).drop_first() =~= items.skip(8));
    assert(jt7 == items[7] + sep + jt8);
    let ccb = seq!['}'] + post;
    assert(t == pre + (sep + (jt6 + ccb)));
    // field lighted
    assert(sep + (jt6 + ccb) == (sep + kl6) + (v6 + (sep + (jt7 + ccb)))) by {
        lemma_assoc((kl6 + v6) + sep, jt7, ccb);
        lemma_assoc(kl6 + v6, sep, jt7 + ccb);
        lemma_assoc(kl6, v6, sep + (jt7 + ccb));
        lemma_assoc(sep, kl6, v6 + (sep + (jt7 + ccb)));
    }
    assert(klit("lighted"@, false) == sep + kl6) by {
        lemma_assoc(sep, jstr("lighted"@), seq![':']);
    }
    lemma_assoc(pre, sep + kl6, v6 + (sep + (jt7 + ccb)));
    assert(t == pre + klit("lighted"@, false) + (v6 + (sep + (jt7 + ccb))));
    lemma_field_bool(t, pre, "lighted"@, false, a.lighted, sep + (jt7 + ccb));
    let w7 = (pre + klit("lighted"@, false)) + v6;
    // field closed
    assert(sep + (jt7 + ccb) == (sep + kl7) + (v7 + (sep + (jt8 + ccb)))) by {
        lemma_assoc((kl7 + v7) + sep, jt8, ccb);
        lemma_assoc(kl7 + v7, sep, jt8 + ccb);
        lemma_assoc(kl7, v7, sep + (jt8 + ccb));
        lemma_assoc(sep, kl7, v7 + (sep + (jt8 + ccb)));
    }
    assert(klit("closed"@, false) == sep + kl7) by {
        lemma_assoc(sep, jstr("closed"@), seq![':']);
    }
    lemma_assoc(w7, sep + kl7, v7 + (sep + (jt8 + ccb)));
    assert(t == w7 + klit("closed"@, false) + (v7 + (sep + (jt8 + ccb))));
    lemma_field_bool(t, w7, "closed"@, false, a.closed, sep + (jt8 + ccb));
    let w8 = (w7 + klit("closed"@, false)) + v7;
    let parsed = RunwayView {
        id: a.id,
        airport_ref: a.airport_ref,
        airport_ident: a.airport_ident,
        length_ft: a.length_ft,
        width_ft: a.width_ft,
        surface: a.surface,
        lighted: a.lighted,
        closed: a.closed,
        le_ident: a.le_ident,
        le_latitude_deg: a.le_latitude_deg,
        le_longitude_deg: a.le_longitude_deg,
        le_elevation_ft: a.le_elevation_ft,
        le_heading_deg_true: a.le_heading_deg_true,
        le_displaced_threshold_ft: a.le_displaced_threshold_ft,
        he_ident: a.he_ident,
        he_latitude_deg: a.he_latitude_deg,
        he_longitude_deg: a.he_longitude_deg,
        he_elevation_ft: a.he_elevation_ft,
        he_heading_deg_true: a.he_heading_deg_true,
        he_displaced_threshold_ft: a.he_displaced_threshold_ft,
    };
    assert(t == w8 + (sep + (jt8 + ccb)));
    lemma_runway_seg8(t, w8, a, post);
    let fin = (w8.len() + 1 + jt8.len() + 1) as int;
    assert(runway_stage_7(t, w7.len() as int, a.id, a.airport_ref, a.airport_ident, a.length_ft, a.width_ft, a.surface, a.lighted) == Some((parsed, fin)));
    assert(runway_stage_6(t, pre.len() as int, a.id, a.airport_ref, a.airport_ident, a.length_ft, a.width_ft, a.surface) == Some((parsed, fin)));
    assert(fin == (pre.len() + 1 + jt6.len() + 1) as int);
}

/// Reading runway fields 4 to 5.
#[verifier::rlimit(100)]
#[verifier::spinoff_prover]
proof fn lemma_runway_seg4(t: Seq<char>, pre: Seq<char>, a: RunwayView, post: Seq<char>)
    requires
        crate::records::runway::runway_wf(a),
        t == pre + (seq![','] + (crate::json::join_with(runway_items(a).skip(4), seq![',']) + (seq!['}'] + post))),
    ensures
        runway_stage_4(
            t,
            pre.len() as int,
            a.id,
            a.airport_ref,
            a.airport_ident,
            a.length_ft,
        ) == Some(
            (
                RunwayView {
                    id: a.id,
                    airport_ref: a.airport_ref,
                    airport_ident: a.airport_ident,
                    length_ft: a.length_ft,
                    width_ft: a.width_ft,
                    surface: a.surface,
                    lighted: a.lighted,
                    closed: a.closed,
                    le_ident: a.le_ident,
                    le_latitude_deg: a.le_latitude_deg,
                    le_longitude_deg: a.le_longitude_deg,
                    le_elevation_ft: a.le_elevation_ft,
                    le_heading_deg_true: a.le_heading_deg_true,
                    le_displaced_threshold_ft: a.le_displaced_threshold_ft,
                    he_ident: a.he_ident,
                    he_latitude_deg: a.he_latitude_deg,
                    he_longitude_deg: a.he_longitude_deg,
                    he_elevation_ft: a.he_elevation_ft,
                    he_heading_deg_true: a.he_heading_deg_true,
                    he_displaced_threshold_ft: a.he_displaced_threshold_ft,
                },
                (pre.len() + 1 + crate::json::join_with(runway_items(a).skip(4), seq![',']).len() + 1) as int,
            ),
        ),
{
    let fc = |p: (Seq<char>, Seq<char>)| jstr(p.0) + seq![':'] + p.1;
    let pairs = crate::records::runway::runway_pairs(a);
    let items = runway_items(a);
    assert(items == pairs.map_values(fc)) by {
        assert(fc == (|p: (Seq<char>, Seq<char>)| jstr(p.0) + seq![':'] + p.1));
    }
    let sep = seq![','];
    assert(items.len() == 20);
    let kl4 = jstr("width_ft"@) + seq![':'];
    let v4 = crate::json::jopt_int(a.width_ft);
    assert(items[4] == kl4 + v4);
    let kl5 = jstr("surface"@) + seq![':'];
    let v5 = jstr(a.surface);
    assert(items[5] == kl5 + v5);
    let jt4 = crate::json::join_with(items.skip(4), sep);
    let jt5 = crate::json::join_with(items.skip(5), sep);
    let jt6 = crate::json::join_with(items.skip(6), sep);
    assert(items.skip(4).len() == 16);
    assert(items.skip(4)[0] == items[4]);
    assert(items.skip(4).drop_first() =~= items.skip(5));
    assert(jt4 == items[4] + sep + jt5);
    assert(items.skip(5).len() == 15);
    assert(items.skip(5)[0] == items[5]);
    assert(items.skip(5).drop_first() =~= items.skip(6));
    assert(jt5 == items[5] + sep + jt6);
    let ccb = seq!['}'] + post;
    assert(t == pre + (sep + (jt4 + ccb)));
    // field width_ft
    assert(sep + (jt4 + ccb) == (sep + kl4) + (v4 + (sep + (jt5 + ccb)))) by {
        lemma_assoc((kl4 + v4) + sep, jt5, ccb);
        lemma_assoc(kl4 + v4, sep, jt5 + ccb);
        lemma_assoc(kl4, v4, sep + (jt5 + ccb));
        lemma_assoc(sep, kl4, v4 + (sep + (jt5 + ccb)));
    }
    assert(klit("width_ft"@, false) == sep + kl4) by {
        lemma_assoc(sep, jstr("width_ft"@), seq![':']);
    }
    lemma_assoc(pre, sep + kl4, v4 + (sep + (jt5 + ccb)));
    assert(t == pre + klit("width_ft"@, false) + (v4 + (sep + (jt5 + ccb))));
    assert((sep + (jt5 + ccb))[0] == ',');
    assert((sep + (jt5 + ccb)).len() > 0);
    lemma_field_opt_int(t, pre, "width_ft"@, false, a.width_ft, sep + (jt5 + ccb));
    let w5 = (pre + klit("width_ft"@, false)) + v4;
    // field surface
    assert(sep + (jt5 + ccb) == (sep + kl5) + (v5 + (sep + (jt6 + ccb)))) by {
        lemma_assoc((kl5 + v5) + sep, jt6, ccb);
        lemma_assoc(kl5 + v5, sep, jt6 + ccb);
        lemma_assoc(kl5, v5, sep + (jt6 + ccb));
        lemma_assoc(sep, kl5, v5 + (sep + (jt6 + ccb)));
    }
    assert(klit("surface"@, false) == sep + kl5) by {
        lemma_assoc(sep, jstr("surface"@), seq![':']);
    }
    lemma_assoc(w5, sep + kl5, v5 + (sep + (jt6 + ccb)));
    assert(t == w5 + klit("surface"@, false) + (v5 + (sep + (jt6 + ccb))));
    lemma_field_str(t, w5, "surface"@, false, a.surface, sep + (jt6 + ccb));
    let w6 = (w5 + klit("surface"@, false)) + v5;
    let parsed = RunwayView {
        id: a.id,
        airport_ref: a.airport_ref,
        airport_ident: a.airport_ident,
        length_ft: a.length_ft,
        width_ft: a.width_ft,
        surface: a.surface,
        lighted: a.lighted,
        closed: a.closed,
        le_ident: a.le_ident,
        le_latitude_deg: a.le_latitude_deg,
        le_longitude_deg: a.le_longitude_deg,
        le_elevation_ft: a.le_elevation_ft,
        le_heading_deg_true: a.le_heading_deg_true,
        le_displaced_threshold_ft: a.le_displaced_threshold_ft,
        he_ident: a.he_ident,
        he_latitude_deg: a.he_latitude_deg,
        he_longitude_deg: a.he_longitude_deg,
        he_elevation_ft: a.he_elevation_ft,
        he_heading_deg_true: a.he_heading_deg_true,
        he_displaced_threshold_ft: a.he_displaced_threshold_ft,
    };
    assert(t == w6 + (sep + (jt6 + ccb)));
    lemma_runway_seg6(t, w6, a, post);
    let fin = (w6.len() + 1 + jt6.len() + 1) as int;
    assert(runway_stage_5(t, w5.len() as int, a.id, a.airport_ref, a.airport_ident, a.length_ft, a.width_ft) == Some((parsed, fin)));
    assert(runway_stage_4(t, pre.len() as int, a.id, a.airport_ref, a.airport_ident, a.length_ft) == Some((parsed, fin)));
    assert(fin == (pre.len() + 1 + jt4.len() + 1) as int);
}

/// Reading runway fields 2 to 3.
#[verifier::rlimit(100)]
#[verifier::spinoff_prover]
proof fn lemma_runway_seg2(t: Seq<char>, pre: Seq<char>, a: RunwayView, post: Seq<char>)
    requires
        crate::records::runway::runway_wf(a),
        t == pre + (seq![','] + (crate::json::join_with(runway_items(a).skip(2), seq![',']) + (seq!['}'] + post))),
    ensures
        runway_stage_2(
            t,
            pre.len() as int,
            a.id,
            a.airport_ref,
        ) == Some(
            (
                RunwayView {
                    id: a.id,
                    airport_ref: a.airport_ref,
                    airport_ident: a.airport_ident,
                    length_ft: a.length_ft,
                    width_ft: a.width_ft,
                    surface: a.surface,
                    lighted: a.lighted,
                    closed: a.closed,
                    le_ident: a.le_ident,
                    le_latitude_deg: a.le_latitude_deg,
                    le_longitude_deg: a.le_longitude_deg,
                    le_elevation_ft: a.le_elevation_ft,
                    le_heading_deg_true: a.le_heading_deg_true,
                    le_displaced_threshold_ft: a.le_displaced_threshold_ft,
                    he_ident: a.he_ident,
                    he_latitude_deg: a.he_latitude_deg,
                    he_longitude_deg: a.he_longitude_deg,
                    he_elevation_ft: a.he_elevation_ft,
                    he_heading_deg_true: a.he_heading_deg_true,
                    he_displaced_threshold_ft: a.he_displaced_threshold_ft,
                },
                (pre.len() + 1 + crate::json::join_with(runway_items(a).skip(2), seq![',']).len() + 1) as int,
            ),
        ),
{
    let fc = |p: (Seq<char>, Seq<char>)| jstr(p.0) + seq![':'] + p.1;
    let pairs = crate::records::runway::runway_pairs(a);
    let items = runway_items(a);
    assert(items == pairs.map_values(fc)) by {
        assert(fc == (|p: (Seq<char>, Seq<char>)| jstr(p.0) + seq![':'] + p.1));
    }
    let sep = seq![','];
    assert(items.len() == 20);
    let kl2 = jstr("airport_ident"@) + seq![':'];
    let v2 = jstr(a.airport_ident);
    assert(items[2] == kl2 + v2);
    let kl3 = jstr("length_ft"@) + seq![':'];
    let v3 = crate::json::jopt_int(a.length_ft);
    assert(items[3] == kl3 + v3);
    let jt2 = crate::json::join_with(items.skip(2), sep);
    let jt3 = crate::json::join_with(items.skip(3), sep);
    let jt4 = crate::json::join_with(items.skip(4), sep);
    assert(items.skip(2).len() == 18);
    assert(items.skip(2)[0] == items[2]);
    assert(items.skip(2).drop_first() =~= items.skip(3));
    assert(jt2 == items[2] + sep + jt3);
    assert(items.skip(3).len() == 17);
    assert(items.skip(3)[0] == items[3]);
    assert(items.skip(3).drop_first() =~= items.skip(4));
    assert(jt3 == items[3] + sep + jt4);
    let ccb = seq!['}'] + post;
    assert(t == pre + (sep + (jt2 + ccb)));
    // field airport_ident
    assert(sep + (jt2 + ccb) == (sep + kl2) + (v2 + (sep + (jt3 + ccb)))) by {
        lemma_assoc((kl2 + v2) + sep, jt3, ccb);
        lemma_assoc(kl2 + v2, sep, jt3 + ccb);
        lemma_assoc(kl2, v2, sep + (jt3 + ccb));
        lemma_assoc(sep, kl2, v2 + (sep + (jt3 + ccb)));
    }
    assert(klit("airport_ident"@, false) == sep + kl2) by {
        lemma_assoc(sep, jstr("airport_ident"@), seq![':']);
    }
    lemma_assoc(pre, sep + kl2, v2 + (sep + (jt3 + ccb)));
    assert(t == pre + klit("airport_ident"@, false) + (v2 + (sep + (jt3 + ccb))));
    lemma_field_str(t, pre, "airport_ident"@, false, a.airport_ident, sep + (jt3 + ccb));
    let w3 = (pre + klit("airport_ident"@, false)) + v2;
    // field length_ft
    assert(sep + (jt3 + ccb) == (sep + kl3) + (v3 + (sep + (jt4 + ccb)))) by {
        lemma_assoc((kl3 + v3) + sep, jt4, ccb);
        lemma_assoc(kl3 + v3, sep, jt4 + ccb);
        lemma_assoc(kl3, v3, sep + (jt4 + ccb));
        lemma_assoc(sep, kl3, v3 + (sep + (jt4 + ccb)));
    }
    assert(klit("length_ft"@, false) == sep + kl3) by {
        lemma_assoc(sep, jstr("length_ft"@), seq![':']);
    }
    lemma_assoc(w3, sep + kl3, v3 + (sep + (jt4 + ccb)));
    assert(t == w3 + klit("length_ft"@, false) + (v3 + (sep + (jt4 + ccb))));
    assert((sep + (jt4 + ccb))[0] == ',');
    assert((sep + (jt4 + ccb)).len() > 0);
    lemma_field_opt_int(t, w3, "length_ft"@, false, a.length_ft, sep + (jt4 + ccb));
    let w4 = (w3 + klit("length_ft"@, false)) + v3;
    let parsed = RunwayView {
        id: a.id,
        airport_ref: a.airport_ref,
        airport_ident: a.airport_ident,
        length_ft: a.length_ft,
        width_ft: a.width_ft,
        surface: a.surface,
        lighted: a.lighted,
        closed: a.closed,
        le_ident: a.le_ident,
        le_latitude_deg: a.le_latitude_deg,
        le_longitude_deg: a.le_longitude_deg,
        le_elevation_ft: a.le_elevation_ft,
        le_heading_deg_true: a.le_heading_deg_true,
        le_displaced_threshold_ft: a.le_displaced_threshold_ft,
        he_ident: a.he_ident,
        he_latitude_deg: a.he_latitude_deg,
        he_longitude_deg: a.he_longitude_deg,
        he_elevation_ft: a.he_elevation_ft,
        he_heading_deg_true: a.he_heading_deg_true,
        he_displaced_threshold_ft: a.he_displaced_threshold_ft,
    };
    assert(t == w4 + (sep + (jt4 + ccb)));
    lemma_runway_seg4(t, w4, a, post);
    let fin = (w4.len() + 1 + jt4.len() + 1) as int;
    assert(runway_stage_3(t, w3.len() as int, a.id, a.airport_ref, a.airport_ident) == Some((parsed, fin)));
    assert(runway_stage_2(t, pre.len() as int, a.id, a.airport_ref) == Some((parsed, fin)));
    assert(fin == (pre.len() + 1 + jt2.len() + 1) as int);
}

/// Reading runway fields 0 to 1.
#[verifier::rlimit(100)]
#[verifier::spinoff_prover]
proof fn lemma_runway_seg0(t: Seq<char>, pre: Seq<char>, a: RunwayView, post: Seq<char>)
    requires
        crate::records::runway::runway_wf(a),
        t == pre + (crate::json::join_with(runway_items(a).skip(0), seq![',']) + (seq!['}'] + post)),
    ensures
        runway_stage_0(
            t,
            pre.len() as int,
        ) == Some(
            (
                RunwayView {
                    id: a.id,
                    airport_ref: a.airport_ref,
                    airport_ident: a.airport_ident,
                    length_ft: a.length_ft,
                    width_ft: a.width_ft,
                    surface: a.surface,
                    lighted: a.lighted,
                    closed: a.closed,
                    le_ident: a.le_ident,
                    le_latitude_deg: a.le_latitude_deg,
                    le_longitude_deg: a.le_longitude_deg,
                    le_elevation_ft: a.le_elevation_ft,
                    le_heading_deg_true: a.le_heading_deg_true,
                    le_displaced_threshold_ft: a.le_displaced_threshold_ft,
                    he_ident: a.he_ident,
                    he_latitude_deg: a.he_latitude_deg,
                    he_longitude_deg: a.he_longitude_deg,
                    he_elevation_ft: a.he_elevation_ft,
                    he_heading_deg_true: a.he_heading_deg_true,
                    he_displaced_threshold_ft: a.he_displaced_threshold_ft,
                },
                (pre.len() + 0 + crate::json::join_with(runway_items(a).skip(0), seq![',']).len() + 1) as int,
            ),
        ),
{
    let fc = |p: (Seq<char>, Seq<char>)| jstr(p.0) + seq![':'] + p.1;
    let pairs = crate::records::runway::runway_pairs(a);
    let items = runway_items(a);
    assert(items == pairs.map_values(fc)) by {
        assert(fc == (|p: (Seq<char>, Seq<char>)| jstr(p.0) + seq![':'] + p.1));
    }
    let sep = seq![','];
    assert(items.len() == 20);
    let kl0 = jstr("id"@) + seq![':'];
    let v0 = jstr(a.id);
    assert(items[0] == kl0 + v0);
    let kl1 = jstr("airport_ref"@) + seq![':'];
    let v1 = jstr(a.airport_ref);
    assert(items[1] == kl1 + v1);
    let jt0 = crate::json::join_with(items.skip(0), sep);
    let jt1 = crate::json::join_with(items.skip(1), sep);
    let jt2 = crate::json::join_with(items.skip(2), sep);
    assert(items.skip(0).len() == 20);
    assert(items.skip(0)[0] == items[0]);
    assert(items.skip(0).drop_first() =~= items.skip(1));
    assert(jt0 == items[0] + sep + jt1);
    assert(items.skip(1).len() == 19);
    assert(items.skip(1)[0] == items[1]);
    assert(items.skip(1).drop_first() =~= items.skip(2));
    assert(jt1 == items[1] + sep + jt2);
    let ccb = seq!['}'] + post;
    assert(t == pre + (jt0 + ccb));
    // field id
    assert(jt0 + ccb == kl0 + (v0 + (sep + (jt1 + ccb)))) by {
        lemma_assoc((kl0 + v0) + sep, jt1, ccb);
        lemma_assoc(kl0 + v0, sep, jt1 + ccb);
        lemma_assoc(kl0, v0, sep + (jt1 + ccb));
    }
    lemma_assoc(pre, kl0, v0 + (sep + (jt1 + ccb)));
    assert(t == pre + klit("id"@, true) + (v0 + (sep + (jt1 + ccb))));
    lemma_field_str(t, pre, "id"@, true, a.id, sep + (jt1 + ccb));
    let w1 = (pre + klit("id"@, true)) + v0;
    // field airport_ref
    assert(sep + (jt1 + ccb) == (sep + kl1) + (v1 + (sep + (jt2 + ccb)))) by {
        lemma_assoc((kl1 + v1) + sep, jt2, ccb);
        lemma_assoc(kl1 + v1, sep, jt2 + ccb);
        lemma_assoc(kl1, v1, sep + (jt2 + ccb));
        lemma_assoc(sep, kl1, v1 + (sep + (jt2 + ccb)));
    }
    assert(klit("airport_ref"@, false) == sep + kl1) by {
        lemma_assoc(sep, jstr("airport_ref"@), seq![':']);
    }
    lemma_assoc(w1, sep + kl1, v1 + (sep + (jt2 + ccb)));
    assert(t == w1 + klit("airport_ref"@, false) + (v1 + (sep + (jt2 + ccb))));
    lemma_field_str(t, w1, "airport_ref"@, false, a.airport_ref, sep + (jt2 + ccb));
    let w2 = (w1 + klit("airport_ref"@, false)) + v1;
    let parsed = RunwayView {
        id: a.id,
        airport_ref: a.airport_ref,
        airport_ident: a.airport_ident,
        length_ft: a.length_ft,
        width_ft: a.width_ft,
        surface: a.surface,
        lighted: a.lighted,
        closed: a.closed,
        le_ident: a.le_ident,
        le_latitude_deg: a.le_latitude_deg,
        le_longitude_deg: a.le_longitude_deg,
        le_elevation_ft: a.le_elevation_ft,
        le_heading_deg_true: a.le_heading_deg_true,
        le_displaced_threshold_ft: a.le_displaced_threshold_ft,
        he_ident: a.he_ident,
        he_latitude_deg: a.he_latitude_deg,
        he_longitude_deg: a.he_longitude_deg,
        he_elevation_ft: a.he_elevation_ft,
        he_heading_deg_true: a.he_heading_deg_true,
        he_displaced_threshold_ft: a.he_displaced_threshold_ft,
    };
    assert(t == w2 + (sep + (jt2 + ccb)));
    lemma_runway_seg2(t, w2, a, post);
    let fin = (w2.len() + 1 + jt2.len() + 1) as int;
    assert(runway_stage_1(t, w1.len() as int, a.id) == Some((parsed, fin)));
    assert(runway_stage_0(t, pre.len() as int) == Some((parsed, fin)));
    assert(fin == (pre.len() + 0 + jt0.len() + 1) as int);
}

/// Serializing any well-formed runway record as a single-record compact
/// document and reading that document back gives a record equal in
/// all fields.
#[verifier::rlimit(100)]
#[verifier::spinoff_prover]
pub proof fn lemma_runway_doc_round_trip(a: RunwayView)
    requires
        crate::records::runway::runway_wf(a),
    ensures
        parse_runway_doc(crate::convert::runway_list_json(seq![a], false)) == Some(a),
{
    let t = crate::convert::runway_list_json(seq![a], false);
    let ob = seq!['['];
    let oc = seq!['{'];
    let cc = seq!['}'];
    let cb = seq![']'];
    let sep = seq![','];
    let aj = crate::records::runway::runway_json(a, false);
    let fc = |p: (Seq<char>, Seq<char>)| jstr(p.0) + seq![':'] + p.1;
    let pairs = crate::records::runway::runway_pairs(a);
    let items = runway_items(a);
    assert(items == pairs.map_values(fc)) by {
        assert(fc == (|p: (Seq<char>, Seq<char>)| jstr(p.0) + seq![':'] + p.1));
    }
    assert(aj == seq!['{'] + crate::json::join_with(items, sep) + seq!['}']) by {
        assert(fc == (|p: (Seq<char>, Seq<char>)| jstr(p.0) + seq![':'] + p.1));
    }
    let one = Seq::new(1nat, |i: int| crate::records::runway::runway_json(seq![a][i], false));
    assert(one.len() == 1);
    assert(one[0] == aj);
    assert(crate::json::join_with(one, sep) == one[0]);
    assert(t == ob + aj + cb);
    let jt0 = crate::json::join_with(items.skip(0), sep);
    assert(items.skip(0) =~= items);
    assert(crate::json::join_with(items, sep) == jt0);
    let p0 = Seq::<char>::empty();
    let p1 = p0 + ob;
    let p2 = p1 + oc;
    let ccb = cc + cb;
    lemma_assoc(ob, aj, cb);
    assert(aj + cb == oc + (jt0 + ccb)) by {
        lemma_assoc(oc + jt0, cc, cb);
        lemma_assoc(oc, jt0, cc);
        lemma_assoc(oc, jt0, ccb);
    }
    assert(p0 + ob =~= ob);
    assert(t == p0 + ob + (oc + (jt0 + ccb)));
    lemma_step_expect(t, p0, ob, oc + (jt0 + ccb));
    lemma_assoc(p1, oc, jt0 + ccb);
    assert(t == p1 + oc + (jt0 + ccb));
    lemma_step_expect(t, p1, oc, jt0 + ccb);
    assert(t == p2 + (jt0 + ccb));
    lemma_runway_seg0(t, p2, a, cb);
    let parsed = RunwayView {
        id: a.id,
        airport_ref: a.airport_ref,
        airport_ident: a.airport_ident,
        length_ft: a.length_ft,
        width_ft: a.width_ft,
        surface: a.surface,
        lighted: a.lighted,
        closed: a.closed,
        le_ident: a.le_ident,
        le_latitude_deg: a.le_latitude_deg,
        le_longitude_deg: a.le_longitude_deg,
        le_elevation_ft: a.le_elevation_ft,
        le_heading_deg_true: a.le_heading_deg_true,
        le_displaced_threshold_ft: a.le_displaced_threshold_ft,
        he_ident: a.he_ident,
        he_latitude_deg: a.he_latitude_deg,
        he_longitude_deg: a.he_longitude_deg,
        he_elevation_ft: a.he_elevation_ft,
        he_heading_deg_true: a.he_heading_deg_true,
        he_displaced_threshold_ft: a.he_displaced_threshold_ft,
    };
    let fin = (p2.len() + 0 + jt0.len() + 1) as int;
    assert(runway_stage_0(t, p2.len() as int) == Some((parsed, fin)));
    assert(parse_runway_obj(t, p1.len() as int) == Some((parsed, fin)));
    assert(t.len() == fin + 1);
    assert(t == t.subrange(0, fin) + cb + Seq::<char>::empty()) by {
        assert(t == ((p1 + oc) + jt0) + (cc + cb)) by {
            lemma_assoc(p1 + oc, jt0, ccb);
        }
        assert(t.subrange(0, fin) =~= ((p1 + oc) + jt0) + cc);
        assert((((p1 + oc) + jt0) + cc) + cb + Seq::<char>::empty() =~= (((p1 + oc) + jt0) + cc) + cb);
        assert(t =~= (((p1 + oc) + jt0) + cc) + cb);
    }
    lemma_step_expect(t, t.subrange(0, fin), cb, Seq::empty());
    assert(t.subrange(0, fin).len() == fin);
    assert(expect(t, fin, cb) == Some(t.len() as int));
    assert(parsed == a);
}

/// The navaid-object reader is staged one field at a time, like the
/// airport reader.
pub open spec fn navaid_stage_0(t: Seq<char>, j: int) -> Option<(NavaidView, int)> {
    match field_str(t, j, "id"@, true) {
        None => None,
        Some((id, j2)) => navaid_stage_1(t, j2, id),
    }
}

pub open spec fn navaid_stage_1(t: Seq<char>, j: int, id: Seq<char>) -> Option<(NavaidView, int)> {
    match field_str(t, j, "filename"@, false) {
        None => None,
        Some((filename, j2)) => navaid_stage_2(t, j2, id, filename),
    }
}

pub open spec fn navaid_stage_2(t: Seq<char>, j: int, id: Seq<char>, filename: Seq<char>) -> Option<(NavaidView, int)> {
    match field_str(t, j, "ident"@, false) {
        None => None,
        Some((ident, j2)) => navaid_stage_3(t, j2, id, filename, ident),
    }
}

pub open spec fn navaid_stage_3(t: Seq<char>, j: int, id: Seq<char>, filename: Seq<char>, ident: Seq<char>) -> Option<(NavaidView, int)> {
    match field_str(t, j, "name"@, false) {
        None => None,
        Some((name, j2)) => navaid_stage_4(t, j2, id, filename, ident, name),
    }
}

pub open spec fn navaid_stage_4(t: Seq<char>, j: int, id: Seq<char>, filename: Seq<char>, ident: Seq<char>, name: Seq<char>) -> Option<(NavaidView, int)> {
    match field_str(t, j, "type"@, false) {
        None => None,
        Some((navaid_type, j2)) => navaid_stage_5(t, j2, id, filename, ident, name, navaid_type),
    }
}

pub open spec fn navaid_stage_5(t: Seq<char>, j: int, id: Seq<char>, filename: Seq<char>, ident: Seq<char>, name: Seq<char>, navaid_type: Seq<char>) -> Option<(NavaidView, int)> {
    match field_str(t, j, "frequency_khz"@, false) {
        None => None,
        Some((frequency_khz, j2)) => navaid_stage_6(t, j2, id, filename, ident, name, navaid_type, frequency_khz),
    }
}

pub open spec fn navaid_stage_6(t: Seq<char>, j: int, id: Seq<char>, filename: Seq<char>, ident: Seq<char>, name: Seq<char>, navaid_type: Seq<char>, frequency_khz: Seq<char>) -> Option<(NavaidView, int)> {
    match field_opt_num(t, j, "latitude_deg"@, false) {
        None => None,
        Some((latitude_deg, j2)) => navaid_stage_7(t, j2, id, filename, ident, name, navaid_type, frequency_khz, latitude_deg),
    }
}

pub open spec fn navaid_stage_7(t: Seq<char>, j: int, id: Seq<char>, filename: Seq<char>, ident: Seq<char>, name: Seq<char>, navaid_type: Seq<char>, frequency_khz: Seq<char>, latitude_deg: Option<Seq<char>>) -> Option<(NavaidView, int)> {
    match field_opt_num(t, j, "longitude_deg"@, false) {
        None => None,
        Some((longitude_deg, j2)) => navaid_stage_8(t, j2, id, filename, ident, name, navaid_type, frequency_khz, latitude_deg, longitude_deg),
    }
}

pub open spec fn navaid_stage_8(t: Seq<char>, j: int, id: Seq<char>, filename: Seq<char>, ident: Seq<char>, name: Seq<char>, navaid_type: Seq<char>, frequency_khz: Seq<char>, latitude_deg: Option<Seq<char>>, longitude_deg: Option<Seq<char>>) -> Option<(NavaidView, int)> {
    match field_opt_int(t, j, "elevation_ft"@, false) {
        None => None,
        Some((elevation_ft, j2)) => navaid_stage_9(t, j2, id, filename, ident, name, navaid_type, frequency_khz, latitude_deg, longitude_deg, elevation_ft),
    }
}

pub open spec fn navaid_stage_9(t: Seq<char>, j: int, id: Seq<char>, filename: Seq<char>, ident: Seq<char>, name: Seq<char>, navaid_type: Seq<char>, frequency_khz: Seq<char>, latitude_deg: Option<Seq<char>>, longitude_deg: Option<Seq<char>>, elevation_ft: Option<int>) -> Option<(NavaidView, int)> {
    match field_str(t, j, "iso_country"@, false) {
        None => None,
        Some((iso_country, j2)) => navaid_stage_10(t, j2, id, filename, ident, name, navaid_type, frequency_khz, latitude_deg, longitude_deg, elevation_ft, iso_country),
    }
}

pub open spec fn navaid_stage_10(t: Seq<char>, j: int, id: Seq<char>, filename: Seq<char>, ident: Seq<char>, name: Seq<char>, navaid_type: Seq<char>, frequency_khz: Seq<char>, latitude_deg: Option<Seq<char>>, longitude_deg: Option<Seq<char>>, elevation_ft: Option<int>, iso_country: Seq<char>) -> Option<(NavaidView, int)> {
    match field_str(t, j, "dme_frequency_khz"@, false) {
        None => None,
        Some((dme_frequency_khz, j2)) => navaid_stage_11(t, j2, id, filename, ident, name, navaid_type, frequency_khz, latitude_deg, longitude_deg, elevation_ft, iso_country, dme_frequency_khz),
    }
}

pub open spec fn navaid_stage_11(t: Seq<char>, j: int, id: Seq<char>, filename: Seq<char>, ident: Seq<char>, name: Seq<char>, navaid_type: Seq<char>, frequency_khz: Seq<char>, latitude_deg: Option<Seq<char>>, longitude_deg: Option<Seq<char>>, elevation_ft: Option<int>, iso_country: Seq<char>, dme_frequency_khz: Seq<char>) -> Option<(NavaidView, int)> {
    match field_str(t, j, "dme_channel"@, false) {
        None => None,
        Some((dme_channel, j2)) => navaid_stage_12(t, j2, id, filename, ident, name, navaid_type, frequency_khz, latitude_deg, longitude_deg, elevation_ft, iso_country, dme_frequency_khz, dme_channel),
    }
}

pub open spec fn navaid_stage_12(t: Seq<char>, j: int, id: Seq<char>, filename: Seq<char>, ident: Seq<char>, name: Seq<char>, navaid_type: Seq<char>, frequency_khz: Seq<char>, latitude_deg: Option<Seq<char>>, longitude_deg: Option<Seq<char>>, elevation_ft: Option<int>, iso_country: Seq<char>, dme_frequency_khz: Seq<char>, dme_channel: Seq<char>) -> Option<(NavaidView, int)> {
    match field_opt_num(t, j, "dme_latitude_deg"@, false) {
        None => None,
        Some((dme_latitude_deg, j2)) => navaid_stage_13(t, j2, id, filename, ident, name, navaid_type, frequency_khz, latitude_deg, longitude_deg, elevation_ft, iso_country, dme_frequency_khz, dme_channel, dme_latitude_deg),
    }
}

pub open spec fn navaid_stage_13(t: Seq<char>, j: int, id: Seq<char>, filename: Seq<char>, ident: Seq<char>, name: Seq<char>, navaid_type: Seq<char>, frequency_khz: Seq<char>, latitude_deg: Option<Seq<char>>, longitude_deg: Option<Seq<char>>, elevation_ft: Option<int>, iso_country: Seq<char>, dme_frequency_khz: Seq<char>, dme_channel: Seq<char>, dme_latitude_deg: Option<Seq<char>>) -> Option<(NavaidView, int)> {
    match field_opt_num(t, j, "dme_longitude_deg"@, false) {
        None => None,
        Some((dme_longitude_deg, j2)) => navaid_stage_14(t, j2, id, filename, ident, name, navaid_type, frequency_khz, latitude_deg, longitude_deg, elevation_ft, iso_country, dme_frequency_khz, dme_channel, dme_latitude_deg, dme_longitude_deg),
    }
}

pub open spec fn navaid_stage_14(t: Seq<char>, j: int, id: Seq<char>, filename: Seq<char>, ident: Seq<char>, name: Seq<char>, navaid_type: Seq<char>, frequency_khz: Seq<char>, latitude_deg: Option<Seq<char>>, longitude_deg: Option<Seq<char>>, elevation_ft: Option<int>, iso_country: Seq<char>, dme_frequency_khz: Seq<char>, dme_channel: Seq<char>, dme_latitude_deg: Option<Seq<char>>, dme_longitude_deg: Option<Seq<char>>) -> Option<(NavaidView, int)> {
    match field_opt_int(t, j, "dme_elevation_ft"@, false) {
        None => None,
        Some((dme_elevation_ft, j2)) => navaid_stage_15(t, j2, id, filename, ident, name, navaid_type, frequency_khz, latitude_deg, longitude_deg, elevation_ft, iso_country, dme_frequency_khz, dme_channel, dme_latitude_deg, dme_longitude_deg, dme_elevation_ft),
    }
}

pub open spec fn navaid_stage_15(t: Seq<char>, j: int, id: Seq<char>, filename: Seq<char>, ident: Seq<char>, name: Seq<char>, navaid_type: Seq<char>, frequency_khz: Seq<char>, latitude_deg: Option<Seq<char>>, longitude_deg: Option<Seq<char>>, elevation_ft: Option<int>, iso_country: Seq<char>, dme_frequency_khz: Seq<char>, dme_channel: Seq<char>, dme_latitude_deg: Option<Seq<char>>, dme_longitude_deg: Option<Seq<char>>, dme_elevation_ft: Option<int>) -> Option<(NavaidView, int)> {
    match field_opt_num(t, j, "slaved_variation_deg"@, false) {
        None => None,
        Some((slaved_variation_deg, j2)) => navaid_stage_16(t, j2, id, filename, ident, name, navaid_type, frequency_khz, latitude_deg, longitude_deg, elevation_ft, iso_country, dme_frequency_khz, dme_channel, dme_latitude_deg, dme_longitude_deg, dme_elevation_ft, slaved_variation_deg),
    }
}

pub open spec fn navaid_stage_16(t: Seq<char>, j: int, id: Seq<char>, filename: Seq<char>, ident: Seq<char>, name: Seq<char>, navaid_type: Seq<char>, frequency_khz: Seq<char>, latitude_deg: Option<Seq<char>>, longitude_deg: Option<Seq<char>>, elevation_ft: Option<int>, iso_country: Seq<char>, dme_frequency_khz: Seq<char>, dme_channel: Seq<char>, dme_latitude_deg: Option<Seq<char>>, dme_longitude_deg: Option<Seq<char>>, dme_elevation_ft: Option<int>, slaved_variation_deg: Option<Seq<char>>) -> Option<(NavaidView, int)> {
    match field_opt_num(t, j, "magnetic_variation_deg"@, false) {
        None => None,
        Some((magnetic_variation_deg, j2)) => navaid_stage_17(t, j2, id, filename, ident, name, navaid_type, frequency_khz, latitude_deg, longitude_deg, elevation_ft, iso_country, dme_frequency_khz, dme_channel, dme_latitude_deg, dme_longitude_deg, dme_elevation_ft, slaved_variation_deg, magnetic_variation_deg),
    }
}

pub open spec fn navaid_stage_17(t: Seq<char>, j: int, id: Seq<char>, filename: Seq<char>, ident: Seq<char>, name: Seq<char>, navaid_type: Seq<char>, frequency_khz: Seq<char>, latitude_deg: Option<Seq<char>>, longitude_deg: Option<Seq<char>>, elevation_ft: Option<int>, iso_country: Seq<char>, dme_frequency_khz: Seq<char>, dme_channel: Seq<char>, dme_latitude_deg: Option<Seq<char>>, dme_longitude_deg: Option<Seq<char>>, dme_elevation_ft: Option<int>, slaved_variation_deg: Option<Seq<char>>, magnetic_variation_deg: Option<Seq<char>>) -> Option<(NavaidView, int)> {
    match field_str(t, j, "usageType"@, false) {
        None => None,
        Some((usage_type, j2)) => navaid_stage_18(t, j2, id, filename, ident, name, navaid_type, frequency_khz, latitude_deg, longitude_deg, elevation_ft, iso_country, dme_frequency_khz, dme_channel, dme_latitude_deg, dme_longitude_deg, dme_elevation_ft, slaved_variation_deg, magnetic_variation_deg, usage_type),
    }
}

pub open spec fn navaid_stage_18(t: Seq<char>, j: int, id: Seq<char>, filename: Seq<char>, ident: Seq<char>, name: Seq<char>, navaid_type: Seq<char>, frequency_khz: Seq<char>, latitude_deg: Option<Seq<char>>, longitude_deg: Option<Seq<char>>, elevation_ft: Option<int>, iso_country: Seq<char>, dme_frequency_khz: Seq<char>, dme_channel: Seq<char>, dme_latitude_deg: Option<Seq<char>>, dme_longitude_deg: Option<Seq<char>>, dme_elevation_ft: Option<int>, slaved_variation_deg: Option<Seq<char>>, magnetic_variation_deg: Option<Seq<char>>, usage_type: Seq<char>) -> Option<(NavaidView, int)> {
    match field_str(t, j, "power"@, false) {
        None => None,
        Some((power, j2)) => navaid_stage_19(t, j2, id, filename, ident, name, navaid_type, frequency_khz, latitude_deg, longitude_deg, elevation_ft, iso_country, dme_frequency_khz, dme_channel, dme_latitude_deg, dme_longitude_deg, dme_elevation_ft, slaved_variation_deg, magnetic_variation_deg, usage_type, power),
    }
}

pub open spec fn navaid_stage_19(t: Seq<char>, j: int, id: Seq<char>, filename: Seq<char>, ident: Seq<char>, name: Seq<char>, navaid_type: Seq<char>, frequency_khz: Seq<char>, latitude_deg: Option<Seq<char>>, longitude_deg: Option<Seq<char>>, elevation_ft: Option<int>, iso_country: Seq<char>, dme_frequency_khz: Seq<char>, dme_channel: Seq<char>, dme_latitude_deg: Option<Seq<char>>, dme_longitude_deg: Option<Seq<char>>, dme_elevation_ft: Option<int>, slaved_variation_deg: Option<Seq<char>>, magnetic_variation_deg: Option<Seq<char>>, usage_type: Seq<char>, power: Seq<char>) -> Option<(NavaidView, int)> {
    match field_str(t, j, "associated_airport"@, false) {
        None => None,
        Some((associated_airport, j2)) => navaid_stage_20(t, j2, id, filename, ident, name, navaid_type, frequency_khz, latitude_deg, longitude_deg, elevation_ft, iso_country, dme_frequency_khz, dme_channel, dme_latitude_deg, dme_longitude_deg, dme_elevation_ft, slaved_variation_deg, magnetic_variation_deg, usage_type, power, associated_airport),
    }
}

pub open spec fn navaid_stage_20(t: Seq<char>, j: int, id: Seq<char>, filename: Seq<char>, ident: Seq<char>, name: Seq<char>, navaid_type: Seq<char>, frequency_khz: Seq<char>, latitude_deg: Option<Seq<char>>, longitude_deg: Option<Seq<char>>, elevation_ft: Option<int>, iso_country: Seq<char>, dme_frequency_khz: Seq<char>, dme_channel: Seq<char>, dme_latitude_deg: Option<Seq<char>>, dme_longitude_deg: Option<Seq<char>>, dme_elevation_ft: Option<int>, slaved_variation_deg: Option<Seq<char>>, magnetic_variation_deg: Option<Seq<char>>, usage_type: Seq<char>, power: Seq<char>, associated_airport: Seq<char>) -> Option<(NavaidView, int)> {
    match expect(t, j, seq!['}']) {
        None => None,
        Some(j2) => Some(
            (NavaidView { id, filename, ident, name, navaid_type, frequency_khz, latitude_deg, longitude_deg, elevation_ft, iso_country, dme_frequency_khz, dme_channel, dme_latitude_deg, dme_longitude_deg, dme_elevation_ft, slaved_variation_deg, magnetic_variation_deg, usage_type, power, associated_airport }, j2),
        ),
    }
}

/// Reads one navaid record object in the canonical compact form.
pub open spec fn parse_navaid_obj(t: Seq<char>, i: int) -> Option<(NavaidView, int)> {
    match expect(t, i, seq!['{']) {
        None => None,
        Some(j0) => navaid_stage_0(t, j0),
    }
}

/// Reads a whole single-record navaid document in the canonical
/// compact form.
pub open spec fn parse_navaid_doc(t: Seq<char>) -> Option<NavaidView> {
    match expect(t, 0, seq!['[']) {
        None => None,
        Some(i) => match parse_navaid_obj(t, i) {
            None => None,
            Some((a, j)) => if expect(t, j, seq![']']) == Some(t.len() as int) {
                Some(a)
            } else {
                None
            },
        },
    }
}

/// The rendered field items of a navaid object, in field order.
pub open spec fn navaid_items(a: NavaidView) -> Seq<Seq<char>> {
    crate::records::navaid::navaid_pairs(a).map_values(
        |p: (Seq<char>, Seq<char>)| jstr(p.0) + seq![':'] + p.1,
    )
}


/// Reading navaid fields 18 to 19, and the closing brace.
#[verifier::rlimit(100)]
#[verifier::spinoff_prover]
proof fn lemma_navaid_seg18(t: Seq<char>, pre: Seq<char>, a: NavaidView, post: Seq<char>)
    requires
        crate::records::navaid::navaid_wf(a),
        t == pre + (seq![','] + (crate::json::join_with(navaid_items(a).skip(18), seq![',']) + (seq!['}'] + post))),
    ensures
        navaid_stage_18(
            t,
            pre.len() as int,
            a.id,
            a.filename,
            a.ident,
            a.name,
            a.navaid_type,
            a.frequency_khz,
            a.latitude_deg,
            a.longitude_deg,
            a.elevation_ft,
            a.iso_country,
            a.dme_frequency_khz,
            a.dme_channel,
            a.dme_latitude_deg,
            a.dme_longitude_deg,
            a.dme_elevation_ft,
            a.slaved_variation_deg,
            a.magnetic_variation_deg,
            a.usage_type,
        ) == Some(
            (
                NavaidView {
                    id: a.id,
                    filename: a.filename,
                    ident: a.ident,
                    name: a.name,
                    navaid_type: a.navaid_type,
                    frequency_khz: a.frequency_khz,
                    latitude_deg: a.latitude_deg,
                    longitude_deg: a.longitude_deg,
                    elevation_ft: a.elevation_ft,
                    iso_country: a.iso_country,
                    dme_frequency_khz: a.dme_frequency_khz,
                    dme_channel: a.dme_channel,
                    dme_latitude_deg: a.dme_latitude_deg,
                    dme_longitude_deg: a.dme_longitude_deg,
                    dme_elevation_ft: a.dme_elevation_ft,
                    slaved_variation_deg: a.slaved_variation_deg,
                    magnetic_variation_deg: a.magnetic_variation_deg,
                    usage_type: a.usage_type,
                    power: a.power,
                    associated_airport: a.associated_airport,
                },
                (pre.len() + 1 + crate::json::join_with(navaid_items(a).skip(18), seq![',']).len() + 1) as int,
            ),
        ),
{
    let fc = |p: (Seq<char>, Seq<char>)| jstr(p.0) + seq![':'] + p.1;
    let pairs = crate::records::navaid::navaid_pairs(a);
    let items = navaid_items(a);
    assert(items == pairs.map_values(fc)) by {
        assert(fc == (|p: (Seq<char>, Seq<char>)| jstr(p.0) + seq![':'] + p.1));
    }
    let sep = seq![','];
    assert(items.len() == 20);
    let kl18 = jstr("power"@) + seq![':'];
    let v18 = jstr(a.power);
    assert(items[18] == kl18 + v18);
    let kl19 = jstr("associated_airport"@) + seq![':'];
    let v19 = jstr(a.associated_airport);
    assert(items[19] == kl19 + v19);
    let jt18 = crate::json::join_with(items.skip(18), sep);
    let jt19 = crate::json::join_with(items.skip(19), sep);
    assert(items.skip(18).len() == 2);
    assert(items.skip(18)[0] == items[18]);
    assert(items.skip(18).drop_first() =~= items.skip(19));
    assert(jt18 == items[18] + sep + jt19);
    assert(items.skip(19).len() == 1);
    assert(items.skip(19)[0] == items[19]);
    assert(jt19 == items[19]);
    let ccb = seq!['}'] + post;
    assert(t == pre + (sep + (jt18 + ccb)));
    // field power
    assert(sep + (jt18 + ccb) == (sep + kl18) + (v18 + (sep + (jt19 + ccb)))) by {
        lemma_assoc((kl18 + v18) + sep, jt19, ccb);
        lemma_assoc(kl18 + v18, sep, jt19 + ccb);
        lemma_assoc(kl18, v18, sep + (jt19 + ccb));
        lemma_assoc(sep, kl18, v18 + (sep + (jt19 + ccb)));
    }
    assert(klit("power"@, false) == sep + kl18) by {
        lemma_assoc(sep, jstr("power"@), seq![':']);
    }
    lemma_assoc(pre, sep + kl18, v18 + (sep + (jt19 + ccb)));
    assert(t == pre + klit("power"@, false) + (v18 + (sep + (jt19 + ccb))));
    lemma_field_str(t, pre, "power"@, false, a.power, sep + (jt19 + ccb));
    let w19 = (pre + klit("power"@, false)) + v18;
    // field associated_airport
    assert(sep + (jt19 + ccb) == (sep + kl19) + (v19 + ccb)) by {
        lemma_assoc(kl19, v19, ccb);
        lemma_assoc(sep, kl19, v19 + ccb);
    }
    assert(klit("associated_airport"@, false) == sep + kl19) by {
        lemma_assoc(sep, jstr("associated_airport"@), seq![':']);
    }
    lemma_assoc(w19, sep + kl19, v19 + (ccb));
    assert(t == w19 + klit("associated_airport"@, false) + (v19 + (ccb)));
    lemma_field_str(t, w19, "associated_airport"@, false, a.associated_airport, ccb);
    let w20 = (w19 + klit("associated_airport"@, false)) + v19;
    let parsed = NavaidView {
        id: a.id,
        filename: a.filename,
        ident: a.ident,
        name: a.name,
        navaid_type: a.navaid_type,
        frequency_khz: a.frequency_khz,
        latitude_deg: a.latitude_deg,
        longitude_deg: a.longitude_deg,
        elevation_ft: a.elevation_ft,
        iso_country: a.iso_country,
        dme_frequency_khz: a.dme_frequency_khz,
        dme_channel: a.dme_channel,
        dme_latitude_deg: a.dme_latitude_deg,
        dme_longitude_deg: a.dme_longitude_deg,
        dme_elevation_ft: a.dme_elevation_ft,
        slaved_variation_deg: a.slaved_variation_deg,
        magnetic_variation_deg: a.magnetic_variation_deg,
        usage_type: a.usage_type,
        power: a.power,
        associated_airport: a.associated_airport,
    };
    lemma_assoc(w20, seq!['}'], post);
    assert(t == w20 + seq!['}'] + post);
    lemma_step_expect(t, w20, seq!['}'], post);
    let fin = (w20.len() + 1) as int;
    assert(navaid_stage_20(t, w20.len() as int, a.id, a.filename, a.ident, a.name, a.navaid_type, a.frequency_khz, a.latitude_deg, a.longitude_deg, a.elevation_ft, a.iso_country, a.dme_frequency_khz, a.dme_channel, a.dme_latitude_deg, a.dme_longitude_deg, a.dme_elevation_ft, a.slaved_variation_deg, a.magnetic_variation_deg, a.usage_type, a.power, a.associated_airport) == Some((parsed, fin)));
    assert(navaid_stage_19(t, w19.len() as int, a.id, a.filename, a.ident, a.name, a.navaid_type, a.frequency_khz, a.latitude_deg, a.longitude_deg, a.elevation_ft, a.iso_country, a.dme_frequency_khz, a.dme_channel, a.dme_latitude_deg, a.dme_longitude_deg, a.dme_elevation_ft, a.slaved_variation_deg, a.magnetic_variation_deg, a.usage_type, a.power) == Some((parsed, fin)));
    assert(navaid_stage_18(t, pre.len() as int, a.id, a.filename, a.ident, a.name, a.navaid_type, a.frequency_khz, a.latitude_deg, a.longitude_deg, a.elevation_ft, a.iso_country, a.dme_frequency_khz, a.dme_channel, a.dme_latitude_deg, a.dme_longitude_deg, a.dme_elevation_ft, a.slaved_variation_deg, a.magnetic_variation_deg, a.usage_type) == Some((parsed, fin)));
    assert(fin == (pre.len() + 1 + jt18.len() + 1) as int);
}

/// Reading navaid fields 16 to 17.
#[verifier::rlimit(100)]
#[verifier::spinoff_prover]
proof fn lemma_navaid_seg16(t: Seq<char>, pre: Seq<char>, a: NavaidView, post: Seq<char>)
    requires
        crate::records::navaid::navaid_wf(a),
        t == pre + (seq![','] + (crate::json::join_with(navaid_items(a).skip(16), seq![',']) + (seq!['}'] + post))),
    ensures
        navaid_stage_16(
            t,
            pre.len() as int,
            a.id,
            a.filename,
            a.ident,
            a.name,
            a.navaid_type,
            a.frequency_khz,
            a.latitude_deg,
            a.longitude_deg,
            a.elevation_ft,
            a.iso_country,
            a.dme_frequency_khz,
            a.dme_channel,
            a.dme_latitude_deg,
            a.dme_longitude_deg,
            a.dme_elevation_ft,
            a.slaved_variation_deg,
        ) == Some(
            (
                NavaidView {
                    id: a.id,
                    filename: a.filename,
                    ident: a.ident,
                    name: a.name,
                    navaid_type: a.navaid_type,
                    frequency_khz: a.frequency_khz,
                    latitude_deg: a.latitude_deg,
                    longitude_deg: a.longitude_deg,
                    elevation_ft: a.elevation_ft,
                    iso_country: a.iso_country,
                    dme_frequency_khz: a.dme_frequency_khz,
                    dme_channel: a.dme_channel,
                    dme_latitude_deg: a.dme_latitude_deg,
                    dme_longitude_deg: a.dme_longitude_deg,
                    dme_elevation_ft: a.dme_elevation_ft,
                    slaved_variation_deg: a.slaved_variation_deg,
                    magnetic_variation_deg: a.magnetic_variation_deg,
                    usage_type: a.usage_type,
                    power: a.power,
                    associated_airport: a.associated_airport,
                },
                (pre.len() + 1 + crate::json::join_with(navaid_items(a).skip(16), seq![',']).len() + 1) as int,
            ),
        ),
{
    let fc = |p: (Seq<char>, Seq<char>)| jstr(p.0) + seq![':'] + p.1;
    let pairs = crate::records::navaid::navaid_pairs(a);
    let items = navaid_items(a);
    assert(items == pairs.map_values(fc)) by {
        assert(fc == (|p: (Seq<char>, Seq<char>)| jstr(p.0) + seq![':'] + p.1));
    }
    let sep = seq![','];
    assert(items.len() == 20);
    let kl16 = jstr("magnetic_variation_deg"@) + seq![':'];
    let v16 = crate::json::jopt_num(a.magnetic_variation_deg);
    assert(items[16] == kl16 + v16);
    let kl17 = jstr("usageType"@) + seq![':'];
    let v17 = jstr(a.usage_type);
    assert(items[17] == kl17 + v17);
    let jt16 = crate::json::join_with(items.skip(16), sep);
    let jt17 = crate::json::join_with(items.skip(17), sep);
    let jt18 = crate::json::join_with(items.skip(18), sep);
    assert(items.skip(16).len() == 4);
    assert(items.skip(16)[0] == items[16]);
    assert(items.skip(16).drop_first() =~= items.skip(17));
    assert(jt16 == items[16] + sep + jt17);
    assert(items.skip(17).len() == 3);
    assert(items.skip(17)[0] == items[17]);
    assert(items.skip(17).drop_first() =~= items.skip(18));
    assert(jt17 == items[17] + sep + jt18);
    let ccb = seq!['}'] + post;
    assert(t == pre + (sep + (jt16 + ccb)));
    // field magnetic_variation_deg
    assert(sep + (jt16 + ccb) == (sep + kl16) + (v16 + (sep + (jt17 + ccb)))) by {
        lemma_assoc((kl16 + v16) + sep, jt17, ccb);
        lemma_assoc(kl16 + v16, sep, jt17 + ccb);
        lemma_assoc(kl16, v16, sep + (jt17 + ccb));
        lemma_assoc(sep, kl16, v16 + (sep + (jt17 + ccb)));
    }
    assert(klit("magnetic_variation_deg"@, false) == sep + kl16) by {
        lemma_assoc(sep, jstr("magnetic_variation_deg"@), seq![':']);
    }
    lemma_assoc(pre, sep + kl16, v16 + (sep + (jt17 + ccb)));
    assert(t == pre + klit("magnetic_variation_deg"@, false) + (v16 + (sep + (jt17 + ccb))));
    assert((sep + (jt17 + ccb))[0] == ',');
    assert((sep + (jt17 + ccb)).len() > 0);
    lemma_field_opt_num(t, pre, "magnetic_variation_deg"@, false, a.magnetic_variation_deg, sep + (jt17 + ccb));
    let w17 = (pre + klit("magnetic_variation_deg"@, false)) + v16;
    // field usageType
    assert(sep + (jt17 + ccb) == (sep + kl17) + (v17 + (sep + (jt18 + ccb)))) by {
        lemma_assoc((kl17 + v17) + sep, jt18, ccb);
        lemma_assoc(kl17 + v17, sep, jt18 + ccb);
        lemma_assoc(kl17, v17, sep + (jt18 + ccb));
        lemma_assoc(sep, kl17, v17 + (sep + (jt18 + ccb)));
    }
    assert(klit("usageType"@, false) == sep + kl17) by {
        lemma_assoc(sep, jstr("usageType"@), seq![':']);
    }
    lemma_assoc(w17, sep + kl17, v17 + (sep + (jt18 + ccb)));
    assert(t == w17 + klit("usageType"@, false) + (v17 + (sep + (jt18 + ccb))));
    lemma_field_str(t, w17, "usageType"@, false, a.usage_type, sep + (jt18 + ccb));
    let w18 = (w17 + klit("usageType"@, false)) + v17;
    let parsed = NavaidView {
        id: a.id,
        filename: a.filename,
        ident: a.ident,
        name: a.name,
        navaid_type: a.navaid_type,
        frequency_khz: a.frequency_khz,
        latitude_deg: a.latitude_deg,
        longitude_deg: a.longitude_deg,
        elevation_ft: a.elevation_ft,
        iso_country: a.iso_country,
        dme_frequency_khz: a.dme_frequency_khz,
        dme_channel: a.dme_channel,
        dme_latitude_deg: a.dme_latitude_deg,
        dme_longitude_deg: a.dme_longitude_deg,
        dme_elevation_ft: a.dme_elevation_ft,
        slaved_variation_deg: a.slaved_variation_deg,
        magnetic_variation_deg: a.magnetic_variation_deg,
        usage_type: a.usage_type,
        power: a.power,
        associated_airport: a.associated_airport,
    };
    assert(t == w18 + (sep + (jt18 + ccb)));
    lemma_navaid_seg18(t, w18, a, post);
    let fin = (w18.len() + 1 + jt18.len() + 1) as int;
    assert(navaid_stage_17(t, w17.len() as int, a.id, a.filename, a.ident, a.name, a.navaid_type, a.frequency_khz, a.latitude_deg, a.longitude_deg, a.elevation_ft, a.iso_country, a.dme_frequency_khz, a.dme_channel, a.dme_latitude_deg, a.dme_longitude_deg, a.dme_elevation_ft, a.slaved_variation_deg, a.magnetic_variation_deg) == Some((parsed, fin)));
    assert(navaid_stage_16(t, pre.len() as int, a.id, a.filename, a.ident, a.name, a.navaid_type, a.frequency_khz, a.latitude_deg, a.longitude_deg, a.elevation_ft, a.iso_country, a.dme_frequency_khz, a.dme_channel, a.dme_latitude_deg, a.dme_longitude_deg, a.dme_elevation_ft, a.slaved_variation_deg) == Some((parsed, fin)));
    assert(fin == (pre.len() + 1 + jt16.len() + 1) as int);
}

/// Reading navaid fields 14 to 15.
#[verifier::rlimit(100)]
#[verifier::spinoff_prover]
proof fn lemma_navaid_seg14(t: Seq<char>, pre: Seq<char>, a: NavaidView, post: Seq<char>)
    requires
        crate::records::navaid::navaid_wf(a),
        t == pre + (seq![','] + (crate::json::join_with(navaid_items(a).skip(14), seq![',']) + (seq!['}'] + post))),
    ensures
        navaid_stage_14(
            t,
            pre.len() as int,
            a.id,
            a.filename,
            a.ident,
            a.name,
            a.navaid_type,
            a.frequency_khz,
            a.latitude_deg,
            a.longitude_deg,
            a.elevation_ft,
            a.iso_country,
            a.dme_frequency_khz,
            a.dme_channel,
            a.dme_latitude_deg,
            a.dme_longitude_deg,
        ) == Some(
            (
                NavaidView {
                    id: a.id,
                    filename: a.filename,
                    ident: a.ident,
                    name: a.name,
                    navaid_type: a.navaid_type,
                    frequency_khz: a.frequency_khz,
                    latitude_deg: a.latitude_deg,
                    longitude_deg: a.longitude_deg,
                    elevation_ft: a.elevation_ft,
                    iso_country: a.iso_country,
                    dme_frequency_khz: a.dme_frequency_khz,
                    dme_channel: a.dme_channel,
                    dme_latitude_deg: a.dme_latitude_deg,
                    dme_longitude_deg: a.dme_longitude_deg,
                    dme_elevation_ft: a.dme_elevation_ft,
                    slaved_variation_deg: a.slaved_variation_deg,
                    magnetic_variation_deg: a.magnetic_variation_deg,
                    usage_type: a.usage_type,
                    power: a.power,
                    associated_airport: a.associated_airport,
                },
                (pre.len() + 1 + crate::json::join_with(navaid_items(a).skip(14), seq![',']).len() + 1) as int,
            ),
        ),
{
    let fc = |p: (Seq<char>, Seq<char>)| jstr(p.0) + seq![':'] + p.1;
    let pairs = crate::records::navaid::navaid_pairs(a);
    let items = navaid_items(a);
    assert(items == pairs.map_values(fc)) by {
        assert(fc == (|p: (Seq<char>, Seq<char>)| jstr(p.0) + seq![':'] + p.1));
    }
    let sep = seq![','];
    assert(items.len() == 20);
    let kl14 = jstr("dme_elevation_ft"@) + seq![':'];
    let v14 = crate::json::jopt_int(a.dme_elevation_ft);
    assert(items[14] == kl14 + v14);
    let kl15 = jstr("slaved_variation_deg"@) + seq![':'];
    let v15 = crate::json::jopt_num(a.slaved_variation_deg);
    assert(items[15] == kl15 + v15);
    let jt14 = crate::json::join_with(items.skip(14), sep);
    let jt15 = crate::json::join_with(items.skip(15), sep);
    let jt16 = crate::json::join_with(items.skip(16), sep);
    assert(items.skip(14).len() == 6);
    assert(items.skip(14)[0] == items[14]);
    assert(items.skip(14).drop_first() =~= items.skip(15));
    assert(jt14 == items[14] + sep + jt15);
    assert(items.skip(15).len() == 5);
    assert(items.skip(15)[0] == items[15]);
    assert(items.skip(15).drop_first() =~= items.skip(16));
    assert(jt15 == items[15] + sep + jt16);
    let ccb = seq!['}'] + post;
    assert(t == pre + (sep + (jt14 + ccb)));
    // field dme_elevation_ft
    assert(sep + (jt14 + ccb) == (sep + kl14) + (v14 + (sep + (jt15 + ccb)))) by {
        lemma_assoc((kl14 + v14) + sep, jt15, ccb);
        lemma_assoc(kl14 + v14, sep, jt15 + ccb);
        lemma_assoc(kl14, v14, sep + (jt15 + ccb));
        lemma_assoc(sep, kl14, v14 + (sep + (jt15 + ccb)));
    }
    assert(klit("dme_elevation_ft"@, false) == sep + kl14) by {
        lemma_assoc(sep, jstr("dme_elevation_ft"@), seq![':']);
    }
    lemma_assoc(pre, sep + kl14, v14 + (sep + (jt15 + ccb)));
    assert(t == pre + klit("dme_elevation_ft"@, false) + (v14 + (sep + (jt15 + ccb))));
    assert((sep + (jt15 + ccb))[0] == ',');
    assert((sep + (jt15 + ccb)).len() > 0);
    lemma_field_opt_int(t, pre, "dme_elevation_ft"@, false, a.dme_elevation_ft, sep + (jt15 + ccb));
    let w15 = (pre + klit("dme_elevation_ft"@, false)) + v14;
    // field slaved_variation_deg
    assert(sep + (jt15 + ccb) == (sep + kl15) + (v15 + (sep + (jt16 + ccb)))) by {
        lemma_assoc((kl15 + v15) + sep, jt16, ccb);
        lemma_assoc(kl15 + v15, sep, jt16 + ccb);
        lemma_assoc(kl15, v15, sep + (jt16 + ccb));
        lemma_assoc(sep, kl15, v15 + (sep + (jt16 + ccb)));
    }
    assert(klit("slaved_variation_deg"@, false) == sep + kl15) by {
        lemma_assoc(sep, jstr("slaved_variation_deg"@), seq![':']);
    }
    lemma_assoc(w15, sep + kl15, v15 + (sep + (jt16 + ccb)));
    assert(t == w15 + klit("slaved_variation_deg"@, false) + (v15 + (sep + (jt16 + ccb))));
    assert((sep + (jt16 + ccb))[0] == ',');
    assert((sep + (jt16 + ccb)).len() > 0);
    lemma_field_opt_num(t, w15, "slaved_variation_deg"@, false, a.slaved_variation_deg, sep + (jt16 + ccb));
    let w16 = (w15 + klit("slaved_variation_deg"@, false)) + v15;
    let parsed = NavaidView {
        id: a.id,
        filename: a.filename,
        ident: a.ident,
        name: a.name,
        navaid_type: a.navaid_type,
        frequency_khz: a.frequency_khz,
        latitude_deg: a.latitude_deg,
        longitude_deg: a.longitude_deg,
        elevation_ft: a.elevation_ft,
        iso_country: a.iso_country,
        dme_frequency_khz: a.dme_frequency_khz,
        dme_channel: a.dme_channel,
        dme_latitude_deg: a.dme_latitude_deg,
        dme_longitude_deg: a.dme_longitude_deg,
        dme_elevation_ft: a.dme_elevation_ft,
        slaved_variation_deg: a.slaved_variation_deg,
        magnetic_variation_deg: a.magnetic_variation_deg,
        usage_type: a.usage_type,
        power: a.power,
        associated_airport: a.associated_airport,
    };
    assert(t == w16 + (sep + (jt16 + ccb)));
    lemma_navaid_seg16(t, w16, a, post);
    let fin = (w16.len() + 1 + jt16.len() + 1) as int;
    assert(navaid_stage_15(t, w15.len() as int, a.id, a.filename, a.ident, a.name, a.navaid_type, a.frequency_khz, a.latitude_deg, a.longitude_deg, a.elevation_ft, a.iso_country, a.dme_frequency_khz, a.dme_channel, a.dme_latitude_deg, a.dme_longitude_deg, a.dme_elevation_ft) == Some((parsed, fin)));
    assert(navaid_stage_14(t, pre.len() as int, a.id, a.filename, a.ident, a.name, a.navaid_type, a.frequency_khz, a.latitude_deg, a.longitude_deg, a.elevation_ft, a.iso_country, a.dme_frequency_khz, a.dme_channel, a.dme_latitude_deg, a.dme_longitude_deg) == Some((parsed, fin)));
    assert(fin == (pre.len() + 1 + jt14.len() + 1) as int);
}

/// Reading navaid fields 12 to 13.
#[verifier::rlimit(100)]
#[verifier::spinoff_prover]
proof fn lemma_navaid_seg12(t: Seq<char>, pre: Seq<char>, a: NavaidView, post: Seq<char>)
    requires
        crate::records::navaid::navaid_wf(a),
        t == pre + (seq![','] + (crate::json::join_with(navaid_items(a).skip(12), seq![',']) + (seq!['}'] + post))),
    ensures
        navaid_stage_12(
            t,
            pre.len() as int,
            a.id,
            a.filename,
            a.ident,
            a.name,
            a.navaid_type,
            a.frequency_khz,
            a.latitude_deg,
            a.longitude_deg,
            a.elevation_ft,
            a.iso_country,
            a.dme_frequency_khz,
            a.dme_channel,
        ) == Some(
            (
                NavaidView {
                    id: a.id,
                    filename: a.filename,
                    ident: a.ident,
                    name: a.name,
                    navaid_type: a.navaid_type,
                    frequency_khz: a.frequency_khz,
                    latitude_deg: a.latitude_deg,
                    longitude_deg: a.longitude_deg,
                    elevation_ft: a.elevation_ft,
                    iso_country: a.iso_country,
                    dme_frequency_khz: a.dme_frequency_khz,
                    dme_channel: a.dme_channel,
                    dme_latitude_deg: a.dme_latitude_deg,
                    dme_longitude_deg: a.dme_longitude_deg,
                    dme_elevation_ft: a.dme_elevation_ft,
                    slaved_variation_deg: a.slaved_variation_deg,
                    magnetic_variation_deg: a.magnetic_variation_deg,
                    usage_type: a.usage_type,
                    power: a.power,
                    associated_airport: a.associated_airport,
                },
                (pre.len() + 1 + crate::json::join_with(navaid_items(a).skip(12), seq![',']).len() + 1) as int,
            ),
        ),
{
    let fc = |p: (Seq<char>, Seq<char>)| jstr(p.0) + seq![':'] + p.1;
    let pairs = crate::records::navaid::navaid_pairs(a);
    let items = navaid_items(a);
    assert(items == pairs.map_values(fc)) by {
        assert(fc == (|p: (Seq<char>, Seq<char>)| jstr(p.0) + seq![':'] + p.1));
    }
    let sep = seq![','];
    assert(items.len() == 20);
    let kl12 = jstr("dme_latitude_deg"@) + seq![':'];
    let v12 = crate::json::jopt_num(a.dme_latitude_deg);
    assert(items[12] == kl12 + v12);
    let kl13 = jstr("dme_longitude_deg"@) + seq![':'];
    let v13 = crate::json::jopt_num(a.dme_longitude_deg);
    assert(items[13] == kl13 + v13);
    let jt12 = crate::json::join_with(items.skip(12), sep);
    let jt13 = crate::json::join_with(items.skip(13), sep);
    let jt14 = crate::json::join_with(items.skip(14), sep);
    assert(items.skip(12).len() == 8);
    assert(items.skip(12)[0] == items[12]);
    assert(items.skip(12).drop_first() =~= items.skip(13));
    assert(jt12 == items[12] + sep + jt13);
    assert(items.skip(13).len() == 7);
    assert(items.skip(13)[0] == items[13]);
    assert(items.skip(13).drop_first() =~= items.skip(14));
    assert(jt13 == items[13] + sep + jt14);
    let ccb = seq!['}'] + post;
    assert(t == pre + (sep + (jt12 + ccb)));
    // field dme_latitude_deg
    assert(sep + (jt12 + ccb) == (sep + kl12) + (v12 + (sep + (jt13 + ccb)))) by {
        lemma_assoc((kl12 + v12) + sep, jt13, ccb);
        lemma_assoc(kl12 + v12, sep, jt13 + ccb);
        lemma_assoc(kl12, v12, sep + (jt13 + ccb));
        lemma_assoc(sep, kl12, v12 + (sep + (jt13 + ccb)));
    }
    assert(klit("dme_latitude_deg"@, false) == sep + kl12) by {
        lemma_assoc(sep, jstr("dme_latitude_deg"@), seq![':']);
    }
    lemma_assoc(pre, sep + kl12, v12 + (sep + (jt13 + ccb)));
    assert(t == pre + klit("dme_latitude_deg"@, false) + (v12 + (sep + (jt13 + ccb))));
    assert((sep + (jt13 + ccb))[0] == ',');
    assert((sep + (jt13 + ccb)).len() > 0);
    lemma_field_opt_num(t, pre, "dme_latitude_deg"@, false, a.dme_latitude_deg, sep + (jt13 + ccb));
    let w13 = (pre + klit("dme_latitude_deg"@, false)) + v12;
    // field dme_longitude_deg
    assert(sep + (jt13 + ccb) == (sep + kl13) + (v13 + (sep + (jt14 + ccb)))) by {
        lemma_assoc((kl13 + v13) + sep, jt14, ccb);
        lemma_assoc(kl13 + v13, sep, jt14 + ccb);
        lemma_assoc(kl13, v13, sep + (jt14 + ccb));
        lemma_assoc(sep, kl13, v13 + (sep + (jt14 + ccb)));
    }
    assert(klit("dme_longitude_deg"@, false) == sep + kl13) by {
        lemma_assoc(sep, jstr("dme_longitude_deg"@), seq![':']);
    }
    lemma_assoc(w13, sep + kl13, v13 + (sep + (jt14 + ccb)));
    assert(t == w13 + klit("dme_longitude_deg"@, false) + (v13 + (sep + (jt14 + ccb))));
    assert((sep + (jt14 + ccb))[0] == ',');
    assert((sep + (jt14 + ccb)).len() > 0);
    lemma_field_opt_num(t, w13, "dme_longitude_deg"@, false, a.dme_longitude_deg, sep + (jt14 + ccb));
    let w14 = (w13 + klit("dme_longitude_deg"@, false)) + v13;
    let parsed = NavaidView {
        id: a.id,
        filename: a.filename,
        ident: a.ident,
        name: a.name,
        navaid_type: a.navaid_type,
        frequency_khz: a.frequency_khz,
        latitude_deg: a.latitude_deg,
        longitude_deg: a.longitude_deg,
        elevation_ft: a.elevation_ft,
        iso_country: a.iso_country,
        dme_frequency_khz: a.dme_frequency_khz,
        dme_channel: a.dme_channel,
        dme_latitude_deg: a.dme_latitude_deg,
        dme_longitude_deg: a.dme_longitude_deg,
        dme_elevation_ft: a.dme_elevation_ft,
        slaved_variation_deg: a.slaved_variation_deg,
        magnetic_variation_deg: a.magnetic_variation_deg,
        usage_type: a.usage_type,
        power: a.power,
        associated_airport: a.associated_airport,
    };
    assert(t == w14 + (sep + (jt14 + ccb)));
    lemma_navaid_seg14(t, w14, a, post);
    let fin = (w14.len() + 1 + jt14.len() + 1) as int;
    assert(navaid_stage_13(t, w13.len() as int, a.id, a.filename, a.ident, a.name, a.navaid_type, a.frequency_khz, a.latitude_deg, a.longitude_deg, a.elevation_ft, a.iso_country, a.dme_frequency_khz, a.dme_channel, a.dme_latitude_deg) == Some((parsed, fin)));
    assert(navaid_stage_12(t, pre.len() as int, a.id, a.filename, a.ident, a.name, a.navaid_type, a.frequency_khz, a.latitude_deg, a.longitude_deg, a.elevation_ft, a.iso_country, a.dme_frequency_khz, a.dme_channel) == Some((parsed, fin)));
    assert(fin == (pre.len() + 1 + jt12.len() + 1) as int);
}

/// Reading navaid fields 10 to 11.
#[verifier::rlimit(100)]
#[verifier::spinoff_prover]
proof fn lemma_navaid_seg10(t: Seq<char>, pre: Seq<char>, a: NavaidView, post: Seq<char>)
    requires
        crate::records::navaid::navaid_wf(a),
        t == pre + (seq![','] + (crate::json::join_with(navaid_items(a).skip(10), seq![',']) + (seq!['}'] + post))),
    ensures
        navaid_stage_10(
            t,
            pre.len() as int,
            a.id,
            a.filename,
            a.ident,
            a.name,
            a.navaid_type,
            a.frequency_khz,
            a.latitude_deg,
            a.longitude_deg,
            a.elevation_ft,
            a.iso_country,
        ) == Some(
            (
                NavaidView {
                    id: a.id,
                    filename: a.filename,
                    ident: a.ident,
                    name: a.name,
                    navaid_type: a.navaid_type,
                    frequency_khz: a.frequency_khz,
                    latitude_deg: a.latitude_deg,
                    longitude_deg: a.longitude_deg,
                    elevation_ft: a.elevation_ft,
                    iso_country: a.iso_country,
                    dme_frequency_khz: a.dme_frequency_khz,
                    dme_channel: a.dme_channel,
                    dme_latitude_deg: a.dme_latitude_deg,
                    dme_longitude_deg: a.dme_longitude_deg,
                    dme_elevation_ft: a.dme_elevation_ft,
                    slaved_variation_deg: a.slaved_variation_deg,
                    magnetic_variation_deg: a.magnetic_variation_deg,
                    usage_type: a.usage_type,
                    power: a.power,
                    associated_airport: a.associated_airport,
                },
                (pre.len() + 1 + crate::json::join_with(navaid_items(a).skip(10), seq![',']).len() + 1) as int,
            ),
        ),
{
    let fc = |p: (Seq<char>, Seq<char>)| jstr(p.0) + seq![':'] + p.1;
    let pairs = crate::records::navaid::navaid_pairs(a);
    let items = navaid_items(a);
    assert(items == pairs.map_values(fc)) by {
        assert(fc == (|p: (Seq<char>, Seq<char>)| jstr(p.0) + seq![':'] + p.1));
    }
    let sep = seq![','];
    assert(items.len() == 20);
    let kl10 = jstr("dme_frequency_khz"@) + seq![':'];
    let v10 = jstr(a.dme_frequency_khz);
    assert(items[10] == kl10 + v10);
    let kl11 = jstr("dme_channel"@) + seq![':'];
    let v11 = jstr(a.dme_channel);
    assert(items[11] == kl11 + v11);
    let jt10 = crate::json::join_with(items.skip(10), sep);
    let jt11 = crate::json::join_with(items.skip(11), sep);
    let jt12 = crate::json::join_with(items.skip(12), sep);
    assert(items.skip(10).len() == 10);
    assert(items.skip(10)[0] == items[10]);
    assert(items.skip(10).drop_first() =~= items.skip(11));
    assert(jt10 == items[10] + sep + jt11);
    assert(items.skip(11).len() == 9);
    assert(items.skip(11)[0] == items[11]);
    assert(items.skip(11).drop_first() =~= items.skip(12));
    assert(jt11 == items[11] + sep + jt12);
    let ccb = seq!['}'] + post;
    assert(t == pre + (sep + (jt10 + ccb)));
    // field dme_frequency_khz
    assert(sep + (jt10 + ccb) == (sep + kl10) + (v10 + (sep + (jt11 + ccb)))) by {
        lemma_assoc((kl10 + v10) + sep, jt11, ccb);
        lemma_assoc(kl10 + v10, sep, jt11 + ccb);
        lemma_assoc(kl10, v10, sep + (jt11 + ccb));
        lemma_assoc(sep, kl10, v10 + (sep + (jt11 + ccb)));
    }
    assert(klit("dme_frequency_khz"@, false) == sep + kl10) by {
        lemma_assoc(sep, jstr("dme_frequency_khz"@), seq![':']);
    }
    lemma_assoc(pre, sep + kl10, v10 + (sep + (jt11 + ccb)));
    assert(t == pre + klit("dme_frequency_khz"@, false) + (v10 + (sep + (jt11 + ccb))));
    lemma_field_str(t, pre, "dme_frequency_khz"@, false, a.dme_frequency_khz, sep + (jt11 + ccb));
    let w11 = (pre + klit("dme_frequency_khz"@, false)) + v10;
    // field dme_channel
    assert(sep + (jt11 + ccb) == (sep + kl11) + (v11 + (sep + (jt12 + ccb)))) by {
        lemma_assoc((kl11 + v11) + sep, jt12, ccb);
        lemma_assoc(kl11 + v11, sep, jt12 + ccb);
        lemma_assoc(kl11, v11, sep + (jt12 + ccb));
        lemma_assoc(sep, kl11, v11 + (sep + (jt12 + ccb)));
    }
    assert(klit("dme_channel"@, false) == sep + kl11) by {
        lemma_assoc(sep, jstr("dme_channel"@), seq![':']);
    }
    lemma_assoc(w11, sep + kl11, v11 + (sep + (jt12 + ccb)));
    assert(t == w11 + klit("dme_channel"@, false) + (v11 + (sep + (jt12 + ccb))));
    lemma_field_str(t, w11, "dme_channel"@, false, a.dme_channel, sep + (jt12 + ccb));
    let w12 = (w11 + klit("dme_channel"@, false)) + v11;
    let parsed = NavaidView {
        id: a.id,
        filename: a.filename,
        ident: a.ident,
        name: a.name,
        navaid_type: a.navaid_type,
        frequency_khz: a.frequency_khz,
        latitude_deg: a.latitude_deg,
        longitude_deg: a.longitude_deg,
        elevation_ft: a.elevation_ft,
        iso_country: a.iso_country,
        dme_frequency_khz: a.dme_frequency_khz,
        dme_channel: a.dme_channel,
        dme_latitude_deg: a.dme_latitude_deg,
        dme_longitude_deg: a.dme_longitude_deg,
        dme_elevation_ft: a.dme_elevation_ft,
        slaved_variation_deg: a.slaved_variation_deg,
        magnetic_variation_deg: a.magnetic_variation_deg,
        usage_type: a.usage_type,
        power: a.power,
        associated_airport: a.associated_airport,
    };
    assert(t == w12 + (sep + (jt12 + ccb)));
    lemma_navaid_seg12(t, w12, a, post);
    let fin = (w12.len() + 1 + jt12.len() + 1) as int;
    assert(navaid_stage_11(t, w11.len() as int, a.id, a.filename, a.ident, a.name, a.navaid_type, a.frequency_khz, a.latitude_deg, a.longitude_deg, a.elevation_ft, a.iso_country, a.dme_frequency_khz) == Some((parsed, fin)));
    assert(navaid_stage_10(t, pre.len() as int, a.id, a.filename, a.ident, a.name, a.navaid_type, a.frequency_khz, a.latitude_deg, a.longitude_deg, a.elevation_ft, a.iso_country) == Some((parsed, fin)));
    assert(fin == (pre.len() + 1 + jt10.len() + 1) as int);
}

/// Reading navaid fields 8 to 9.
#[verifier::rlimit(100)]
#[verifier::spinoff_prover]
proof fn lemma_navaid_seg8(t: Seq<char>, pre: Seq<char>, a: NavaidView, post: Seq<char>)
    requires
        crate::records::navaid::navaid_wf(a),
        t == pre + (seq![','] + (crate::json::join_with(navaid_items(a).skip(8), seq![',']) + (seq!['}'] + post))),
    ensures
        navaid_stage_8(
            t,
            pre.len() as int,
            a.id,
            a.filename,
            a.ident,
            a.name,
            a.navaid_type,
            a.frequency_khz,
            a.latitude_deg,
            a.longitude_deg,
        ) == Some(
            (
                NavaidView {
                    id: a.id,
                    filename: a.filename,
                    ident: a.ident,
                    name: a.name,
                    navaid_type: a.navaid_type,
                    frequency_khz: a.frequency_khz,
                    latitude_deg: a.latitude_deg,
                    longitude_deg: a.longitude_deg,
                    elevation_ft: a.elevation_ft,
                    iso_country: a.iso_country,
                    dme_frequency_khz: a.dme_frequency_khz,
                    dme_channel: a.dme_channel,
                    dme_latitude_deg: a.dme_latitude_deg,
                    dme_longitude_deg: a.dme_longitude_deg,
                    dme_elevation_ft: a.dme_elevation_ft,
                    slaved_variation_deg: a.slaved_variation_deg,
                    magnetic_variation_deg: a.magnetic_variation_deg,
                    usage_type: a.usage_type,
                    power: a.power,
                    associated_airport: a.associated_airport,
                },
                (pre.len() + 1 + crate::json::join_with(navaid_items(a).skip(8), seq![',']).len() + 1) as int,
            ),
        ),
{
    let fc = |p: (Seq<char>, Seq<char>)| jstr(p.0) + seq![':'] + p.1;
    let pairs = crate::records::navaid::navaid_pairs(a);
    let items = navaid_items(a);
    assert(items == pairs.map_values(fc)) by {
        assert(fc == (|p: (Seq<char>, Seq<char>)| jstr(p.0) + seq![':'] + p.1));
    }
    let sep = seq![','];
    assert(items.len() == 20);
    let kl8 = jstr("elevation_ft"@) + seq![':'];
    let v8 = crate::json::jopt_int(a.elevation_ft);
    assert(items[8] == kl8 + v8);
    let kl9 = jstr("iso_country"@) + seq![':'];
    let v9 = jstr(a.iso_country);
    assert(items[9] == kl9 + v9);
    let jt8 = crate::json::join_with(items.skip(8), sep);
    let jt9 = crate::json::join_with(items.skip(9), sep);
    let jt10 = crate::json::join_with(items.skip(10), sep);
    assert(items.skip(8).len() == 12);
    assert(items.skip(8)[0] == items[8]);
    assert(items.skip(8).drop_first() =~= items.skip(9));
    assert(jt8 == items[8] + sep + jt9);
    assert(items.skip(9).len() == 11);
    assert(items.skip(9)[0] == items[9]);
    assert(items.skip(9).drop_first() =~= items.skip(10));
    assert(jt9 == items[9] + sep + jt10);
    let ccb = seq!['}'] + post;
    assert(t == pre + (sep + (jt8 + ccb)));
    // field elevation_ft
    assert(sep + (jt8 + ccb) == (sep + kl8) + (v8 + (sep + (jt9 + ccb)))) by {
        lemma_assoc((kl8 + v8) + sep, jt9, ccb);
        lemma_assoc(kl8 + v8, sep, jt9 + ccb);
        lemma_assoc(kl8, v8, sep + (jt9 + ccb));
        lemma_assoc(sep, kl8, v8 + (sep + (jt9 + ccb)));
    }
    assert(klit("elevation_ft"@, false) == sep + kl8) by {
        lemma_assoc(sep, jstr("elevation_ft"@), seq![':']);
    }
    lemma_assoc(pre, sep + kl8, v8 + (sep + (jt9 + ccb)));
    assert(t == pre + klit("elevation_ft"@, false) + (v8 + (sep + (jt9 + ccb))));
    assert((sep + (jt9 + ccb))[0] == ',');
    assert((sep + (jt9 + ccb)).len() > 0);
    lemma_field_opt_int(t, pre, "elevation_ft"@, false, a.elevation_ft, sep + (jt9 + ccb));
    let w9 = (pre + klit("elevation_ft"@, false)) + v8;
    // field iso_country
    assert(sep + (jt9 + ccb) == (sep + kl9) + (v9 + (sep + (jt10 + ccb)))) by {
        lemma_assoc((kl9 + v9) + sep, jt10, ccb);
        lemma_assoc(kl9 + v9, sep, jt10 + ccb);
        lemma_assoc(kl9, v9, sep + (jt10 + ccb));
        lemma_assoc(sep, kl9, v9 + (sep + (jt10 + ccb)));
    }
    assert(klit("iso_country"@, false) == sep + kl9) by {
        lemma_assoc(sep, jstr("iso_country"@), seq![':']);
    }
    lemma_assoc(w9, sep + kl9, v9 + (sep + (jt10 + ccb)));
    assert(t == w9 + klit("iso_country"@, false) + (v9 + (sep + (jt10 + ccb))));
    lemma_field_str(t, w9, "iso_country"@, false, a.iso_country, sep + (jt10 + ccb));
    let w10 = (w9 + klit("iso_country"@, false)) + v9;
    let parsed = NavaidView {
        id: a.id,
        filename: a.filename,
        ident: a.ident,
        name: a.name,
        navaid_type: a.navaid_type,
        frequency_khz: a.frequency_khz,
        latitude_deg: a.latitude_deg,
        longitude_deg: a.longitude_deg,
        elevation_ft: a.elevation_ft,
        iso_country: a.iso_country,
        dme_frequency_khz: a.dme_frequency_khz,
        dme_channel: a.dme_channel,
        dme_latitude_deg: a.dme_latitude_deg,
        dme_longitude_deg: a.dme_longitude_deg,
        dme_elevation_ft: a.dme_elevation_ft,
        slaved_variation_deg: a.slaved_variation_deg,
        magnetic_variation_deg: a.magnetic_variation_deg,
        usage_type: a.usage_type,
        power: a.power,
        associated_airport: a.associated_airport,
    };
    assert(t == w10 + (sep + (jt10 + ccb)));
    lemma_navaid_seg10(t, w10, a, post);
    let fin = (w10.len() + 1 + jt10.len() + 1) as int;
    assert(navaid_stage_9(t, w9.len() as int, a.id, a.filename, a.ident, a.name, a.navaid_type, a.frequency_khz, a.latitude_deg, a.longitude_deg, a.elevation_ft) == Some((parsed, fin)));
    assert(navaid_stage_8(t, pre.len() as int, a.id, a.filename, a.ident, a.name, a.navaid_type, a.frequency_khz, a.latitude_deg, a.longitude_deg) == Some((parsed, fin)));
    assert(fin == (pre.len() + 1 + jt8.len() + 1) as int);
}

/// Reading navaid fields 6 to 7.
#[verifier::rlimit(100)]
#[verifier::spinoff_prover]
proof fn lemma_navaid_seg6(t: Seq<char>, pre: Seq<char>, a: NavaidView, post: Seq<char>)
    requires
        crate::records::navaid::navaid_wf(a),
        t == pre + (seq![','] + (crate::json::join_with(navaid_items(a).skip(6), seq![',']) + (seq!['}'] + post))),
    ensures
        navaid_stage_6(
            t,
            pre.len() as int,
            a.id,
            a.filename,
            a.ident,
            a.name,
            a.navaid_type,
            a.frequency_khz,
        ) == Some(
            (
                NavaidView {
                    id: a.id,
                    filename: a.filename,
                    ident: a.ident,
                    name: a.name,
                    navaid_type: a.navaid_type,
                    frequency_khz: a.frequency_khz,
                    latitude_deg: a.latitude_deg,
                    longitude_deg: a.longitude_deg,
                    elevation_ft: a.elevation_ft,
                    iso_country: a.iso_country,
                    dme_frequency_khz: a.dme_frequency_khz,
                    dme_channel: a.dme_channel,
                    dme_latitude_deg: a.dme_latitude_deg,
                    dme_longitude_deg: a.dme_longitude_deg,
                    dme_elevation_ft: a.dme_elevation_ft,
                    slaved_variation_deg: a.slaved_variation_deg,
                    magnetic_variation_deg: a.magnetic_variation_deg,
                    usage_type: a.usage_type,
                    power: a.power,
                    associated_airport: a.associated_airport,
                },
                (pre.len() + 1 + crate::json::join_with(navaid_items(a).skip(6), seq![',']).len() + 1) as int,
            ),
        ),
{
    let fc = |p: (Seq<char>, Seq<char>)| jstr(p.0) + seq![':'] + p.1;
    let pairs = crate::records::navaid::navaid_pairs(a);
    let items = navaid_items(a);
    assert(items == pairs.map_values(fc)) by {
        assert(fc == (|p: (Seq<char>, Seq<char>)| jstr(p.0) + seq![':'] + p.1));
    }
    let sep = seq![','];
    assert(items.len() == 20);
    let kl6 = jstr("latitude_deg"@) + seq![':'];
    let v6 = crate::json::jopt_num(a.latitude_deg);
    assert(items[6] == kl6 + v6);
    let kl7 = jstr("longitude_deg"@) + seq![':'];
    let v7 = crate::json::jopt_num(a.longitude_deg);
    assert(items[7] == kl7 + v7);
    let jt6 = crate::json::join_with(items.skip(6), sep);
    let jt7 = crate::json::join_with(items.skip(7), sep);
    let jt8 = crate::json::join_with(items.skip(8), sep);
    assert(items.skip(6).len() == 14);
    assert(items.skip(6)[0] == items[6]);
    assert(items.skip(6).drop_first() =~= items.skip(7));
    assert(jt6 == items[6] + sep + jt7);
    assert(items.skip(7).len() == 13);
    assert(items.skip(7)[0] == items[7]);
    assert(items.skip(7).drop_first() =~= items.skip(8));
    assert(jt7 == items[7] + sep + jt8);
    let ccb = seq!['}'] + post;
    assert(t == pre + (sep + (jt6 + ccb)));
    // field latitude_deg
    assert(sep + (jt6 + ccb) == (sep + kl6) + (v6 + (sep + (jt7 + ccb)))) by {
        lemma_assoc((kl6 + v6) + sep, jt7, ccb);
        lemma_assoc(kl6 + v6, sep, jt7 + ccb);
        lemma_assoc(kl6, v6, sep + (jt7 + ccb));
        lemma_assoc(sep, kl6, v6 + (sep + (jt7 + ccb)));
    }
    assert(klit("latitude_deg"@, false) == sep + kl6) by {
        lemma_assoc(sep, jstr("latitude_deg"@), seq![':']);
    }
    lemma_assoc(pre, sep + kl6, v6 + (sep + (jt7 + ccb)));
    assert(t == pre + klit("latitude_deg"@, false) + (v6 + (sep + (jt7 + ccb))));
    assert((sep + (jt7 + ccb))[0] == ',');
    assert((sep + (jt7 + ccb)).len() > 0);
    lemma_field_opt_num(t, pre, "latitude_deg"@, false, a.latitude_deg, sep + (jt7 + ccb));
    let w7 = (pre + klit("latitude_deg"@, false)) + v6;
    // field longitude_deg
    assert(sep + (jt7 + ccb) == (sep + kl7) + (v7 + (sep + (jt8 + ccb)))) by {
        lemma_assoc((kl7 + v7) + sep, jt8, ccb);
        lemma_assoc(kl7 + v7, sep, jt8 + ccb);
        lemma_assoc(kl7, v7, sep + (jt8 + ccb));
        lemma_assoc(sep, kl7, v7 + (sep + (jt8 + ccb)));
    }
    assert(klit("longitude_deg"@, false) == sep + kl7) by {
        lemma_assoc(sep, jstr("longitude_deg"@), seq![':']);
    }
    lemma_assoc(w7, sep + kl7, v7 + (sep + (jt8 + ccb)));
    assert(t == w7 + klit("longitude_deg"@, false) + (v7 + (sep + (jt8 + ccb))));
    assert((sep + (jt8 + ccb))[0] == ',');
    assert((sep + (jt8 + ccb)).len() > 0);
    lemma_field_opt_num(t, w7, "longitude_deg"@, false, a.longitude_deg, sep + (jt8 + ccb));
    let w8 = (w7 + klit("longitude_deg"@, false)) + v7;
    let parsed = NavaidView {
        id: a.id,
        filename: a.filename,
        ident: a.ident,
        name: a.name,
        navaid_type: a.navaid_type,
        frequency_khz: a.frequency_khz,
        latitude_deg: a.latitude_deg,
        longitude_deg: a.longitude_deg,
        elevation_ft: a.elevation_ft,
        iso_country: a.iso_country,
        dme_frequency_khz: a.dme_frequency_khz,
        dme_channel: a.dme_channel,
        dme_latitude_deg: a.dme_latitude_deg,
        dme_longitude_deg: a.dme_longitude_deg,
        dme_elevation_ft: a.dme_elevation_ft,
        slaved_variation_deg: a.slaved_variation_deg,
        magnetic_variation_deg: a.magnetic_variation_deg,
        usage_type: a.usage_type,
        power: a.power,
        associated_airport: a.associated_airport,
    };
    assert(t == w8 + (sep + (jt8 + ccb)));
    lemma_navaid_seg8(t, w8, a, post);
    let fin = (w8.len() + 1 + jt8.len() + 1) as int;
    assert(navaid_stage_7(t, w7.len() as int, a.id, a.filename, a.ident, a.name, a.navaid_type, a.frequency_khz, a.latitude_deg) == Some((parsed, fin)));
    assert(navaid_stage_6(t, pre.len() as int, a.id, a.filename, a.ident, a.name, a.navaid_type, a.frequency_khz) == Some((parsed, fin)));
    assert(fin == (pre.len() + 1 + jt6.len() + 1) as int);
}

/// Reading navaid fields 4 to 5.
#[verifier::rlimit(100)]
#[verifier::spinoff_prover]
proof fn lemma_navaid_seg4(t: Seq<char>, pre: Seq<char>, a: NavaidView, post: Seq<char>)
    requires
        crate::records::navaid::navaid_wf(a),
        t == pre + (seq![','] + (crate::json::join_with(navaid_items(a).skip(4), seq![',']) + (seq!['}'] + post))),
    ensures
        navaid_stage_4(
            t,
            pre.len() as int,
            a.id,
            a.filename,
            a.ident,
            a.name,
        ) == Some(
            (
                NavaidView {
                    id: a.id,
                    filename: a.filename,
                    ident: a.ident,
                    name: a.name,
                    navaid_type: a.navaid_type,
                    frequency_khz: a.frequency_khz,
                    latitude_deg: a.latitude_deg,
                    longitude_deg: a.longitude_deg,
                    elevation_ft: a.elevation_ft,
                    iso_country: a.iso_country,
                    dme_frequency_khz: a.dme_frequency_khz,
                    dme_channel: a.dme_channel,
                    dme_latitude_deg: a.dme_latitude_deg,
                    dme_longitude_deg: a.dme_longitude_deg,
                    dme_elevation_ft: a.dme_elevation_ft,
                    slaved_variation_deg: a.slaved_variation_deg,
                    magnetic_variation_deg: a.magnetic_variation_deg,
                    usage_type: a.usage_type,
                    power: a.power,
                    associated_airport: a.associated_airport,
                },
                (pre.len() + 1 + crate::json::join_with(navaid_items(a).skip(4), seq![',']).len() + 1) as int,
            ),
        ),
{
    let fc = |p: (Seq<char>, Seq<char>)| jstr(p.0) + seq![':'] + p.1;
    let pairs = crate::records::navaid::navaid_pairs(a);
    let items = navaid_items(a);
    assert(items == pairs.map_values(fc)) by {
        assert(fc == (|p: (Seq<char>, Seq<char>)| jstr(p.0) + seq![':'] + p.1));
    }
    let sep = seq![','];
    assert(items.len() == 20);
    let kl4 = jstr("type"@) + seq![':'];
    let v4 = jstr(a.navaid_type);
    assert(items[4] == kl4 + v4);
    let kl5 = jstr("frequency_khz"@) + seq![':'];
    let v5 = jstr(a.frequency_khz);
    assert(items[5] == kl5 + v5);
    let jt4 = crate::json::join_with(items.skip(4), sep);
    let jt5 = crate::json::join_with(items.skip(5), sep);
    let jt6 = crate::json::join_with(items.skip(6), sep);
    assert(items.skip(4).len() == 16);
    assert(items.skip(4)[0] == items[4]);
    assert(items.skip(4).drop_first() =~= items.skip(5));
    assert(jt4 == items[4] + sep + jt5);
    assert(items.skip(5).len() == 15);
    assert(items.skip(5)[0] == items[5]);
    assert(items.skip(5).drop_first() =~= items.skip(6));
    assert(jt5 == items[5] + sep + jt6);
    let ccb = seq!['}'] + post;
    assert(t == pre + (sep + (jt4 + ccb)));
    // field type
    assert(sep + (jt4 + ccb) == (sep + kl4) + (v4 + (sep + (jt5 + ccb)))) by {
        lemma_assoc((kl4 + v4) + sep, jt5, ccb);
        lemma_assoc(kl4 + v4, sep, jt5 + ccb);
        lemma_assoc(kl4, v4, sep + (jt5 + ccb));
        lemma_assoc(sep, kl4, v4 + (sep + (jt5 + ccb)));
    }
    assert(klit("type"@, false) == sep + kl4) by {
        lemma_assoc(sep, jstr("type"@), seq![':']);
    }
    lemma_assoc(pre, sep + kl4, v4 + (sep + (jt5 + ccb)));
    assert(t == pre + klit("type"@, false) + (v4 + (sep + (jt5 + ccb))));
    lemma_field_str(t, pre, "type"@, false, a.navaid_type, sep + (jt5 + ccb));
    let w5 = (pre + klit("type"@, false)) + v4;
    // field frequency_khz
    assert(sep + (jt5 + ccb) == (sep + kl5) + (v5 + (sep + (jt6 + ccb)))) by {
        lemma_assoc((kl5 + v5) + sep, jt6, ccb);
        lemma_assoc(kl5 + v5, sep, jt6 + ccb);
        lemma_assoc(kl5, v5, sep + (jt6 + ccb));
        lemma_assoc(sep, kl5, v5 + (sep + (jt6 + ccb)));
    }
    assert(klit("frequency_khz"@, false) == sep + kl5) by {
        lemma_assoc(sep, jstr("frequency_khz"@), seq![':']);
    }
    lemma_assoc(w5, sep + kl5, v5 + (sep + (jt6 + ccb)));
    assert(t == w5 + klit("frequency_khz"@, false) + (v5 + (sep + (jt6 + ccb))));
    lemma_field_str(t, w5, "frequency_khz"@, false, a.frequency_khz, sep + (jt6 + ccb));
    let w6 = (w5 + klit("frequency_khz"@, false)) + v5;
    let parsed = NavaidView {
        id: a.id,
        filename: a.filename,
        ident: a.ident,
        name: a.name,
        navaid_type: a.navaid_type,
        frequency_khz: a.frequency_khz,
        latitude_deg: a.latitude_deg,
        longitude_deg: a.longitude_deg,
        elevation_ft: a.elevation_ft,
        iso_country: a.iso_country,
        dme_frequency_khz: a.dme_frequency_khz,
        dme_channel: a.dme_channel,
        dme_latitude_deg: a.dme_latitude_deg,
        dme_longitude_deg: a.dme_longitude_deg,
        dme_elevation_ft: a.dme_elevation_ft,
        slaved_variation_deg: a.slaved_variation_deg,
        magnetic_variation_deg: a.magnetic_variation_deg,
        usage_type: a.usage_type,
        power: a.power,
        associated_airport: a.associated_airport,
    };
    assert(t == w6 + (sep + (jt6 + ccb)));
    lemma_navaid_seg6(t, w6, a, post);
    let fin = (w6.len() + 1 + jt6.len() + 1) as int;
    assert(navaid_stage_5(t, w5.len() as int, a.id, a.filename, a.ident, a.name, a.navaid_type) == Some((parsed, fin)));
    assert(navaid_stage_4(t, pre.len() as int, a.id, a.filename, a.ident, a.name) == Some((parsed, fin)));
    assert(fin == (pre.len() + 1 + jt4.len() + 1) as int);
}

/// Reading navaid fields 2 to 3.
#[verifier::rlimit(100)]
#[verifier::spinoff_prover]
proof fn lemma_navaid_seg2(t: Seq<char>, pre: Seq<char>, a: NavaidView, post: Seq<char>)
    requires
        crate::records::navaid::navaid_wf(a),
        t == pre + (seq![','] + (crate::json::join_with(navaid_items(a).skip(2), seq![',']) + (seq!['}'] + post))),
    ensures
        navaid_stage_2(
            t,
            pre.len() as int,
            a.id,
            a.filename,
        ) == Some(
            (
                NavaidView {
                    id: a.id,
                    filename: a.filename,
                    ident: a.ident,
                    name: a.name,
                    navaid_type: a.navaid_type,
                    frequency_khz: a.frequency_khz,
                    latitude_deg: a.latitude_deg,
                    longitude_deg: a.longitude_deg,
                    elevation_ft: a.elevation_ft,
                    iso_country: a.iso_country,
                    dme_frequency_khz: a.dme_frequency_khz,
                    dme_channel: a.dme_channel,
                    dme_latitude_deg: a.dme_latitude_deg,
                    dme_longitude_deg: a.dme_longitude_deg,
                    dme_elevation_ft: a.dme_elevation_ft,
                    slaved_variation_deg: a.slaved_variation_deg,
                    magnetic_variation_deg: a.magnetic_variation_deg,
                    usage_type: a.usage_type,
                    power: a.power,
                    associated_airport: a.associated_airport,
                },
                (pre.len() + 1 + crate::json::join_with(navaid_items(a).skip(2), seq![',']).len() + 1) as int,
            ),
        ),
{
    let fc = |p: (Seq<char>, Seq<char>)| jstr(p.0) + seq![':'] + p.1;
    let pairs = crate::records::navaid::navaid_pairs(a);
    let items = navaid_items(a);
    assert(items == pairs.map_values(fc)) by {
        assert(fc == (|p: (Seq<char>, Seq<char>)| jstr(p.0) + seq![':'] + p.1));
    }
    let sep = seq![','];
    assert(items.len() == 20);
    let kl2 = jstr("ident"@) + seq![':'];
    let v2 = jstr(a.ident);
    assert(items[2] == kl2 + v2);
    let kl3 = jstr("name"@) + seq![':'];
    let v3 = jstr(a.name);
    assert(items[3] == kl3 + v3);
    let jt2 = crate::json::join_with(items.skip(2), sep);
    let jt3 = crate::json::join_with(items.skip(3), sep);
    let jt4 = crate::json::join_with(items.skip(4), sep);
    assert(items.skip(2).len() == 18);
    assert(items.skip(2)[0] == items[2]);
    assert(items.skip(2).drop_first() =~= items.skip(3));
    assert(jt2 == items[2] + sep + jt3);
    assert(items.skip(3).len() == 17);
    assert(items.skip(3)[0] == items[3]);
    assert(items.skip(3).drop_first() =~= items.skip(4));
    assert(jt3 == items[3] + sep + jt4);
    let ccb = seq!['}'] + post;
    assert(t == pre + (sep + (jt2 + ccb)));
    // field ident
    assert(sep + (jt2 + ccb) == (sep + kl2) + (v2 + (sep + (jt3 + ccb)))) by {
        lemma_assoc((kl2 + v2) + sep, jt3, ccb);
        lemma_assoc(kl2 + v2, sep, jt3 + ccb);
        lemma_assoc(kl2, v2, sep + (jt3 + ccb));
        lemma_assoc(sep, kl2, v2 + (sep + (jt3 + ccb)));
    }
    assert(klit("ident"@, false) == sep + kl2) by {
        lemma_assoc(sep, jstr("ident"@), seq![':']);
    }
    lemma_assoc(pre, sep + kl2, v2 + (sep + (jt3 + ccb)));
    assert(t == pre + klit("ident"@, false) + (v2 + (sep + (jt3 + ccb))));
    lemma_field_str(t, pre, "ident"@, false, a.ident, sep + (jt3 + ccb));
    let w3 = (pre + klit("ident"@, false)) + v2;
    // field name
    assert(sep + (jt3 + ccb) == (sep + kl3) + (v3 + (sep + (jt4 + ccb)))) by {
        lemma_assoc((kl3 + v3) + sep, jt4, ccb);
        lemma_assoc(kl3 + v3, sep, jt4 + ccb);
        lemma_assoc(kl3, v3, sep + (jt4 + ccb));
        lemma_assoc(sep, kl3, v3 + (sep + (jt4 + ccb)));
    }
    assert(klit("name"@, false) == sep + kl3) by {
        lemma_assoc(sep, jstr("name"@), seq![':']);
    }
    lemma_assoc(w3, sep + kl3, v3 + (sep + (jt4 + ccb)));
    assert(t == w3 + klit("name"@, false) + (v3 + (sep + (jt4 + ccb))));
    lemma_field_str(t, w3, "name"@, false, a.name, sep + (jt4 + ccb));
    let w4 = (w3 + klit("name"@, false)) + v3;
    let parsed = NavaidView {
        id: a.id,
        filename: a.filename,
        ident: a.ident,
        name: a.name,
        navaid_type: a.navaid_type,
        frequency_khz: a.frequency_khz,
        latitude_deg: a.latitude_deg,
        longitude_deg: a.longitude_deg,
        elevation_ft: a.elevation_ft,
        iso_country: a.iso_country,
        dme_frequency_khz: a.dme_frequency_khz,
        dme_channel: a.dme_channel,
        dme_latitude_deg: a.dme_latitude_deg,
        dme_longitude_deg: a.dme_longitude_deg,
        dme_elevation_ft: a.dme_elevation_ft,
        slaved_variation_deg: a.slaved_variation_deg,
        magnetic_variation_deg: a.magnetic_variation_deg,
        usage_type: a.usage_type,
        power: a.power,
        associated_airport: a.associated_airport,
    };
    assert(t == w4 + (sep + (jt4 + ccb)));
    lemma_navaid_seg4(t, w4, a, post);
    let fin = (w4.len() + 1 + jt4.len() + 1) as int;
    assert(navaid_stage_3(t, w3.len() as int, a.id, a.filename, a.ident) == Some((parsed, fin)));
    assert(navaid_stage_2(t, pre.len() as int, a.id, a.filename) == Some((parsed, fin)));
    assert(fin == (pre.len() + 1 + jt2.len() + 1) as int);
}

/// Reading navaid fields 0 to 1.
#[verifier::rlimit(100)]
#[verifier::spinoff_prover]
proof fn lemma_navaid_seg0(t: Seq<char>, pre: Seq<char>, a: NavaidView, post: Seq<char>)
    requires
        crate::records::navaid::navaid_wf(a),
        t == pre + (crate::json::join_with(navaid_items(a).skip(0), seq![',']) + (seq!['}'] + post)),
    ensures
        navaid_stage_0(
            t,
            pre.len() as int,
        ) == Some(
            (
                NavaidView {
                    id: a.id,
                    filename: a.filename,
                    ident: a.ident,
                    name: a.name,
                    navaid_type: a.navaid_type,
                    frequency_khz: a.frequency_khz,
                    latitude_deg: a.latitude_deg,
                    longitude_deg: a.longitude_deg,
                    elevation_ft: a.elevation_ft,
                    iso_country: a.iso_country,
                    dme_frequency_khz: a.dme_frequency_khz,
                    dme_channel: a.dme_channel,
                    dme_latitude_deg: a.dme_latitude_deg,
                    dme_longitude_deg: a.dme_longitude_deg,
                    dme_elevation_ft: a.dme_elevation_ft,
                    slaved_variation_deg: a.slaved_variation_deg,
                    magnetic_variation_deg: a.magnetic_variation_deg,
                    usage_type: a.usage_type,
                    power: a.power,
                    associated_airport: a.associated_airport,
                },
                (pre.len() + 0 + crate::json::join_with(navaid_items(a).skip(0), seq![',']).len() + 1) as int,
            ),
        ),
{
    let fc = |p: (Seq<char>, Seq<char>)| jstr(p.0) + seq![':'] + p.1;
    let pairs = crate::records::navaid::navaid_pairs(a);
    let items = navaid_items(a);
    assert(items == pairs.map_values(fc)) by {
        assert(fc == (|p: (Seq<char>, Seq<char>)| jstr(p.0) + seq![':'] + p.1));
    }
    let sep = seq![','];
    assert(items.len() == 20);
    let kl0 = jstr("id"@) + seq![':'];
    let v0 = jstr(a.id);
    assert(items[0] == kl0 + v0);
    let kl1 = jstr("filename"@) + seq![':'];
    let v1 = jstr(a.filename);
    assert(items[1] == kl1 + v1);
    let jt0 = crate::json::join_with(items.skip(0), sep);
    let jt1 = crate::json::join_with(items.skip(1), sep);
    let jt2 = crate::json::join_with(items.skip(2), sep);
    assert(items.skip(0).len() == 20);
    assert(items.skip(0)[0] == items[0]);
    assert(items.skip(0).drop_first() =~= items.skip(1));
    assert(jt0 == items[0] + sep + jt1);
    assert(items.skip(1).len() == 19);
    assert(items.skip(1)[0] == items[1]);
    assert(items.skip(1).drop_first() =~= items.skip(2));
    assert(jt1 == items[1] + sep + jt2);
    let ccb = seq!['}'] + post;
    assert(t == pre + (jt0 + ccb));
    // field id
    assert(jt0 + ccb == kl0 + (v0 + (sep + (jt1 + ccb)))) by {
        lemma_assoc((kl0 + v0) + sep, jt1, ccb);
        lemma_assoc(kl0 + v0, sep, jt1 + ccb);
        lemma_assoc(kl0, v0, sep + (jt1 + ccb));
    }
    lemma_assoc(pre, kl0, v0 + (sep + (jt1 + ccb)));
    assert(t == pre + klit("id"@, true) + (v0 + (sep + (jt1 + ccb))));
    lemma_field_str(t, pre, "id"@, true, a.id, sep + (jt1 + ccb));
    let w1 = (pre + klit("id"@, true)) + v0;
    // field filename
    assert(sep + (jt1 + ccb) == (sep + kl1) + (v1 + (sep + (jt2 + ccb)))) by {
        lemma_assoc((kl1 + v1) + sep, jt2, ccb);
        lemma_assoc(kl1 + v1, sep, jt2 + ccb);
        lemma_assoc(kl1, v1, sep + (jt2 + ccb));
        lemma_assoc(sep, kl1, v1 + (sep + (jt2 + ccb)));
    }
    assert(klit("filename"@, false) == sep + kl1) by {
        lemma_assoc(sep, jstr("filename"@), seq![':']);
    }
    lemma_assoc(w1, sep + kl1, v1 + (sep + (jt2 + ccb)));
    assert(t == w1 + klit("filename"@, false) + (v1 + (sep + (jt2 + ccb))));
    lemma_field_str(t, w1, "filename"@, false, a.filename, sep + (jt2 + ccb));
    let w2 = (w1 + klit("filename"@, false)) + v1;
    let parsed = NavaidView {
        id: a.id,
        filename: a.filename,
        ident: a.ident,
        name: a.name,
        navaid_type: a.navaid_type,
        frequency_khz: a.frequency_khz,
        latitude_deg: a.latitude_deg,
        longitude_deg: a.longitude_deg,
        elevation_ft: a.elevation_ft,
        iso_country: a.iso_country,
        dme_frequency_khz: a.dme_frequency_khz,
        dme_channel: a.dme_channel,
        dme_latitude_deg: a.dme_latitude_deg,
        dme_longitude_deg: a.dme_longitude_deg,
        dme_elevation_ft: a.dme_elevation_ft,
        slaved_variation_deg: a.slaved_variation_deg,
        magnetic_variation_deg: a.magnetic_variation_deg,
        usage_type: a.usage_type,
        power: a.power,
        associated_airport: a.associated_airport,
    };
    assert(t == w2 + (sep + (jt2 + ccb)));
    lemma_navaid_seg2(t, w2, a, post);
    let fin = (w2.len() + 1 + jt2.len() + 1) as int;
    assert(navaid_stage_1(t, w1.len() as int, a.id) == Some((parsed, fin)));
    assert(navaid_stage_0(t, pre.len() as int) == Some((parsed, fin)));
    assert(fin == (pre.len() + 0 + jt0.len() + 1) as int);
}

/// Serializing any well-formed navaid record as a single-record compact
/// document and reading that document back gives a record equal in
/// all fields.
#[verifier::rlimit(100)]
#[verifier::spinoff_prover]
pub proof fn lemma_navaid_doc_round_trip(a: NavaidView)
    requires
        crate::records::navaid::navaid_wf(a),
    ensures
        parse_navaid_doc(crate::convert::navaid_list_json(seq![a], false)) == Some(a),
{
    let t = crate::convert::navaid_list_json(seq![a], false);
    let ob = seq!['['];
    let oc = seq!['{'];
    let cc = seq!['}'];
    let cb = seq![']'];
    let sep = seq![','];
    let aj = crate::records::navaid::navaid_json(a, false);
    let fc = |p: (Seq<char>, Seq<char>)| jstr(p.0) + seq![':'] + p.1;
    let pairs = crate::records::navaid::navaid_pairs(a);
    let items = navaid_items(a);
    assert(items == pairs.map_values(fc)) by {
        assert(fc == (|p: (Seq<char>, Seq<char>)| jstr(p.0) + seq![':'] + p.1));
    }
    assert(aj == seq!['{'] + crate::json::join_with(items, sep) + seq!['}']) by {
        assert(fc == (|p: (Seq<char>, Seq<char>)| jstr(p.0) + seq![':'] + p.1));
    }
    let one = Seq::new(1nat, |i: int| crate::records::navaid::navaid_json(seq![a][i], false));
    assert(one.len() == 1);
    assert(one[0] == aj);
    assert(crate::json::join_with(one, sep) == one[0]);
    assert(t == ob + aj + cb);
    let jt0 = crate::json::join_with(items.skip(0), sep);
    assert(items.skip(0) =~= items);
    assert(crate::json::join_with(items, sep) == jt0);
    let p0 = Seq::<char>::empty();
    let p1 = p0 + ob;
    let p2 = p1 + oc;
    let ccb = cc + cb;
    lemma_assoc(ob, aj, cb);
    assert(aj + cb == oc + (jt0 + ccb)) by {
        lemma_assoc(oc + jt0, cc, cb);
        lemma_assoc(oc, jt0, cc);
        lemma_assoc(oc, jt0, ccb);
    }
    assert(p0 + ob =~= ob);
    assert(t == p0 + ob + (oc + (jt0 + ccb)));
    lemma_step_expect(t, p0, ob, oc + (jt0 + ccb));
    lemma_assoc(p1, oc, jt0 + ccb);
    assert(t == p1 + oc + (jt0 + ccb));
    lemma_step_expect(t, p1, oc, jt0 + ccb);
    assert(t == p2 + (jt0 + ccb));
    lemma_navaid_seg0(t, p2, a, cb);
    let parsed = NavaidView {
        id: a.id,
        filename: a.filename,
        ident: a.ident,
        name: a.name,
        navaid_type: a.navaid_type,
        frequency_khz: a.frequency_khz,
        latitude_deg: a.latitude_deg,
        longitude_deg: a.longitude_deg,
        elevation_ft: a.elevation_ft,
        iso_country: a.iso_country,
        dme_frequency_khz: a.dme_frequency_khz,
        dme_channel: a.dme_channel,
        dme_latitude_deg: a.dme_latitude_deg,
        dme_longitude_deg: a.dme_longitude_deg,
        dme_elevation_ft: a.dme_elevation_ft,
        slaved_variation_deg: a.slaved_variation_deg,
        magnetic_variation_deg: a.magnetic_variation_deg,
        usage_type: a.usage_type,
        power: a.power,
        associated_airport: a.associated_airport,
    };
    let fin = (p2.len() + 0 + jt0.len() + 1) as int;
    assert(navaid_stage_0(t, p2.len() as int) == Some((parsed, fin)));
    assert(parse_navaid_obj(t, p1.len() as int) == Some((parsed, fin)));
    assert(t.len() == fin + 1);
    assert(t == t.subrange(0, fin) + cb + Seq::<char>::empty()) by {
        assert(t == ((p1 + oc) + jt0) + (cc + cb)) by {
            lemma_assoc(p1 + oc, jt0, ccb);
        }
        assert(t.subrange(0, fin) =~= ((p1 + oc) + jt0) + cc);
        assert((((p1 + oc) + jt0) + cc) + cb + Seq::<char>::empty() =~= (((p1 + oc) + jt0) + cc) + cb);
        assert(t =~= (((p1 + oc) + jt0) + cc) + cb);
    }
    lemma_step_expect(t, t.subrange(0, fin), cb, Seq::empty());
    assert(t.subrange(0, fin).len() == fin);
    assert(expect(t, fin, cb) == Some(t.len() as int));
    assert(parsed == a);
}

} // verus!
