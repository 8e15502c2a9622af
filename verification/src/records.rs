//! The six record kinds and what they share: optional-value views, raw-row
//! encoders, and the cleanliness condition under which a keywords list
//! survives a round trip through its column text.

pub mod airport;
pub mod navaid;
pub mod country;
pub mod region;
pub mod runway;
pub mod frequency;

use vstd::prelude::*;
use crate::chars::string_from_chars;
use crate::json::{join_with, lemma_join_push};
use crate::numbers::{dec_int, fmt_i64, is_decimal};
use crate::tokens::{find_comma, is_ws, keywords_of, lemma_find_comma, split_from, trim,
    trim_back, trim_front};

verus! {

/// An optional `i32` as an optional mathematical integer.
pub open spec fn opt_i32_view(o: Option<i32>) -> Option<int> {
    match o {
        Some(n) => Some(n as int),
        None => None,
    }
}

/// An optional `u32` as an optional mathematical integer.
pub open spec fn opt_u32_view(o: Option<u32>) -> Option<int> {
    match o {
        Some(n) => Some(n as int),
        None => None,
    }
}

/// The column text of a boolean field.
pub open spec fn enc_bool(b: bool) -> Seq<char> {
    if b {
        "yes"@
    } else {
        "no"@
    }
}

/// The column text of an optional integer field: its digits, or empty text
/// when absent.
pub open spec fn enc_opt_int(o: Option<int>) -> Seq<char> {
    match o {
        Some(n) => dec_int(n),
        None => Seq::empty(),
    }
}

/// The column text of an optional text-preserved number: the text itself,
/// or empty text when absent.
pub open spec fn enc_opt_num(o: Option<Seq<char>>) -> Seq<char> {
    match o {
        Some(t) => t,
        None => Seq::empty(),
    }
}

/// The column text of a keywords list: the keywords joined by a comma and
/// a space.
pub open spec fn enc_keywords(ks: Seq<Seq<char>>) -> Seq<char> {
    join_with(ks, seq![',', ' '])
}

/// Renders a boolean field's column text.
pub fn enc_bool_exec(b: bool) -> (r: String)
    ensures
        r@ == enc_bool(b),
{
    if b {
        String::from_str("yes")
    } else {
        String::from_str("no")
    }
}

/// Renders an optional signed integer field's column text.
pub fn enc_opt_i32_exec(o: Option<i32>) -> (r: String)
    ensures
        r@ == enc_opt_int(opt_i32_view(o)),
{
    match o {
        Some(n) => string_from_chars(&fmt_i64(n as i64)),
        None => String::new(),
    }
}

/// Renders an optional unsigned integer field's column text.
pub fn enc_opt_u32_exec(o: Option<u32>) -> (r: String)
    ensures
        r@ == enc_opt_int(opt_u32_view(o)),
{
    match o {
        Some(n) => string_from_chars(&fmt_i64(n as i64)),
        None => String::new(),
    }
}

/// Renders an optional text-preserved number field's column text.
pub fn enc_opt_num_exec(o: &Option<String>) -> (r: String)
    ensures
        r@ == enc_opt_num(o.deep_view()),
{
    match o {
        Some(t) => {
            let mut m = String::new();
            m.append(t.as_str());
            proof {
                assert(m@ =~= t@);
            }
            m
        },
        None => String::new(),
    }
}

/// Renders a keywords list's column text.
pub fn enc_keywords_exec(ks: &Vec<String>) -> (r: String)
    ensures
        r@ == enc_keywords(ks.deep_view()),
{
    let ghost kv = ks.deep_view();
    proof {
        assert(kv.len() == ks@.len());
        assert(forall|j: int| 0 <= j < ks@.len() ==> #[trigger] kv[j] == ks@[j]@);
    }
    let mut out = String::new();
    let mut i: usize = 0;
    while i < ks.len()
        invariant
            0 <= i <= ks@.len(),
            kv == ks.deep_view(),
            kv.len() == ks@.len(),
            forall|j: int| 0 <= j < ks@.len() ==> #[trigger] kv[j] == ks@[j]@,
            out@ == join_with(kv.take(i as int), seq![',', ' ']),
        decreases ks@.len() - i,
    {
        if i > 0 {
            out.append(", ");
        }
        let item = &ks[i];
        out.append(item.as_str());
        proof {
            let pre = kv.take(i as int);
            assert(kv.take(i + 1) =~= pre.push(kv[i as int]));
            lemma_join_push(pre, seq![',', ' '], kv[i as int]);
            if i > 0 {
                assert(out@ =~= join_with(kv.take(i + 1), seq![',', ' '])) by {
                    assert(", "@ =~= seq![',', ' ']) by {
                        reveal_strlit(", ");
                    }
                }
            } else {
                assert(out@ =~= join_with(kv.take(i + 1), seq![',', ' ']));
            }
        }
        i = i + 1;
    }
    proof {
        assert(kv.take(kv.len() as int) =~= kv);
    }
    out
}

/// A keyword that survives the column round trip: non-empty, comma-free,
/// and neither starting nor ending with whitespace.
pub open spec fn keyword_clean(k: Seq<char>) -> bool {
    &&& k.len() > 0
    &&& !is_ws(k[0])
    &&& !is_ws(k.last())
    &&& forall|i: int| 0 <= i < k.len() ==> k[i] != ','
}

/// Whether every keyword of a list is clean.
pub open spec fn keywords_clean(ks: Seq<Seq<char>>) -> bool {
    forall|i: int| 0 <= i < ks.len() ==> keyword_clean(#[trigger] ks[i])
}

/// Trimming strips an all-whitespace prefix and leaves clean text alone.
proof fn lemma_trim_lead(lead: Seq<char>, k: Seq<char>)
    requires
        forall|i: int| 0 <= i < lead.len() ==> is_ws(lead[i]),
        keyword_clean(k),
    ensures
        trim(lead + k) == k,
    decreases lead.len(),
{
    if lead.len() == 0 {
        assert(lead + k =~= k);
        assert(trim_front(k) == k);
        assert(trim_back(k) == k);
    } else {
        assert((lead + k)[0] == lead[0]);
        assert((lead + k).drop_first() =~= lead.drop_first() + k);
        lemma_trim_lead(lead.drop_first(), k);
        assert(trim_front(lead + k) == trim_front(lead.drop_first() + k));
        assert(trim(lead + k) == trim(lead.drop_first() + k)) by {
            assert(trim_front(lead.drop_first() + k) == trim_front((lead + k).drop_first()));
        }
    }
}

/// Splitting and trimming the joined column text of clean keywords gives
/// the keywords back; the text after position `i` is an optional
/// whitespace pad followed by the joined list.
proof fn lemma_split_join(s: Seq<char>, i: int, lead: Seq<char>, ks: Seq<Seq<char>>)
    requires
        0 <= i <= s.len(),
        forall|n: int| 0 <= n < lead.len() ==> is_ws(lead[n]),
        s.skip(i) == lead + enc_keywords(ks),
        ks.len() > 0,
        keywords_clean(ks),
    ensures
        split_from(s, i).map_values(|p: Seq<char>| trim(p)) == ks,
    decreases ks.len(),
{
    let f = |p: Seq<char>| trim(p);
    let suffix = s.skip(i);
    assert(keyword_clean(ks[0]));
    if ks.len() == 1 {
        assert(enc_keywords(ks) == ks[0]);
        assert(suffix =~= lead + ks[0]);
        assert(forall|m: int| i <= m < s.len() ==> s[m] == suffix[m - i]);
        assert forall|n: int| 0 <= n < suffix.len() implies suffix[n] != ',' by {
            if n < lead.len() {
                assert(suffix[n] == lead[n]);
                assert(is_ws(lead[n]));
            } else {
                assert(suffix[n] == ks[0][n - lead.len()]);
            }
        }
        assert(forall|m: int| i <= m < s.len() ==> s[m] != ',');
        lemma_find_comma(s, i);
        assert(find_comma(s, i) == s.len());
        assert(split_from(s, i) == seq![s.subrange(i, s.len() as int)]);
        assert(s.subrange(i, s.len() as int) =~= suffix);
        lemma_trim_lead(lead, ks[0]);
        assert(split_from(s, i).map_values(f) =~= seq![trim(suffix)]);
        assert(seq![trim(suffix)] =~= ks);
    } else {
        let rest = ks.drop_first();
        assert(enc_keywords(ks) == ks[0] + seq![',', ' '] + enc_keywords(rest));
        let p = i + lead.len() + ks[0].len();
        assert(enc_keywords(ks).len() == ks[0].len() + 2 + enc_keywords(rest).len());
        assert(suffix.len() == lead.len() + enc_keywords(ks).len());
        assert(p + 2 <= s.len());
        assert(forall|m: int| i <= m < s.len() ==> s[m] == suffix[m - i]);
        assert forall|m: int| i <= m < p implies s[m] != ',' by {
            let n = m - i;
            assert(s[m] == suffix[n]);
            if n < lead.len() {
                assert(suffix[n] == lead[n]);
                assert(is_ws(lead[n]));
            } else {
                assert(suffix[n] == enc_keywords(ks)[n - lead.len()]);
                assert(enc_keywords(ks)[n - lead.len()] == ks[0][n - lead.len()]);
            }
        }
        assert(s[p] == ',') by {
            assert(s[p] == suffix[p - i]);
            assert(suffix[p - i] == enc_keywords(ks)[ks[0].len() as int]);
            assert(enc_keywords(ks)[ks[0].len() as int] == (ks[0] + seq![',', ' '])[ks[0].len() as int]);
        }
        lemma_find_comma(s, i);
        assert(find_comma(s, i) == p) by {
            if find_comma(s, i) < p {
                assert(s[find_comma(s, i)] == ',');
            }
            if find_comma(s, i) > p {
                assert(s[p] != ',');
            }
        }
        assert(split_from(s, i) == seq![s.subrange(i, p)] + split_from(s, p + 1));
        assert(s.subrange(i, p) =~= lead + ks[0]);
        lemma_trim_lead(lead, ks[0]);
        assert(s.skip(p + 1) =~= seq![' '] + enc_keywords(rest)) by {
            assert(forall|n: int|
                0 <= n < s.len() - p - 1 ==> #[trigger] s.skip(p + 1)[n] == suffix[n + lead.len()
                    + ks[0].len() + 1]);
        }
        assert(forall|n: int| 0 <= n < rest.len() ==> rest[n] == ks[n + 1]);
        assert(keywords_clean(rest));
        lemma_split_join(s, p + 1, seq![' '], rest);
        let lhs = split_from(s, i).map_values(f);
        assert(split_from(s, p + 1).map_values(f) == rest);
        assert(lhs.len() == ks.len());
        assert forall|j: int| 0 <= j < ks.len() implies lhs[j] == ks[j] by {
            assert(lhs[j] == f(split_from(s, i)[j]));
            if j == 0 {
                assert(split_from(s, i)[0] == s.subrange(i, p));
                assert(trim(lead + ks[0]) == ks[0]);
                assert(s.subrange(i, p) == lead + ks[0]);
            } else {
                assert(split_from(s, i)[j] == split_from(s, p + 1)[j - 1]);
                assert(f(split_from(s, i)[j]) == split_from(s, p + 1).map_values(f)[j - 1]);
                assert(rest[j - 1] == ks[j]);
            }
        }
        assert(lhs =~= ks);
    }
}

/// A clean keywords list survives the round trip through its column text.
pub proof fn lemma_keywords_round_trip(ks: Seq<Seq<char>>)
    requires
        keywords_clean(ks),
    ensures
        keywords_of(enc_keywords(ks)) == ks,
{
    if ks.len() == 0 {
        assert(enc_keywords(ks) == Seq::<char>::empty());
        assert(keywords_of(enc_keywords(ks)) =~= ks);
    } else {
        assert(keyword_clean(ks[0]));
        let s = enc_keywords(ks);
        assert(s.len() > 0) by {
            if ks.len() == 1 {
                assert(s == ks[0]);
            } else {
                assert(s == ks[0] + seq![',', ' '] + enc_keywords(ks.drop_first()));
            }
        }
        assert(s.skip(0) =~= Seq::<char>::empty() + s);
        lemma_split_join(s, 0, Seq::empty(), ks);
    }
}

/// An absent optional number never reads back as present: empty text is
/// not decimal-number text.
pub proof fn lemma_empty_not_decimal()
    ensures
        !is_decimal(Seq::<char>::empty()),
{
}

/// Whether an optional mathematical integer lies within `i32` bounds.
pub open spec fn opt_in_i32(o: Option<int>) -> bool {
    match o {
        Some(n) => i32::MIN <= n <= i32::MAX,
        None => true,
    }
}

/// Whether an optional mathematical integer lies within `u32` bounds.
pub open spec fn opt_in_u32(o: Option<int>) -> bool {
    match o {
        Some(n) => 0 <= n <= u32::MAX,
        None => true,
    }
}

/// An optional signed integer within bounds survives the column round trip.
pub proof fn lemma_opt_i32_round(o: Option<int>)
    requires
        opt_in_i32(o),
    ensures
        crate::coerce::spec_opt_i32(enc_opt_int(o)) == o,
{
    match o {
        None => {
        },
        Some(n) => {
            let s = enc_opt_int(o);
            if n >= 0 {
                crate::numbers::lemma_dec_nat_val(n as nat);
                assert(s == crate::numbers::dec_nat(n as nat));
                assert(crate::numbers::spec_parse_int(s) == Some(n));
            } else {
                crate::numbers::lemma_dec_nat_val((-n) as nat);
                let mag = crate::numbers::dec_nat((-n) as nat);
                assert(s == seq!['-'] + mag);
                assert(s[0] == '-');
                assert(s.skip(1) =~= mag);
                assert(crate::numbers::spec_parse_int(s) == Some(n));
            }
        },
    }
}

/// An optional unsigned integer within bounds survives the column round
/// trip.
pub proof fn lemma_opt_u32_round(o: Option<int>)
    requires
        opt_in_u32(o),
    ensures
        crate::coerce::spec_opt_u32(enc_opt_int(o)) == o,
{
    match o {
        None => {
        },
        Some(n) => {
            let s = enc_opt_int(o);
            crate::numbers::lemma_dec_nat_val(n as nat);
            assert(s == crate::numbers::dec_nat(n as nat));
            assert(s[0] != '+');
        },
    }
}

/// A boolean's column text reads back as the same boolean.
pub proof fn lemma_bool_round(b: bool)
    ensures
        crate::tokens::spec_bool_token(enc_bool(b)) == Some(b),
{
    reveal_strlit("yes");
    reveal_strlit("no");
    if b {
        assert(crate::tokens::lower(enc_bool(b)) =~= seq!['y', 'e', 's']);
    } else {
        assert(crate::tokens::lower(enc_bool(b)) =~= seq!['n', 'o']);
        assert(crate::tokens::lower(enc_bool(b)) != seq!['y', 'e', 's']);
        assert(crate::tokens::lower(enc_bool(b)) != seq!['1']);
    }
}

/// An optional text-preserved number survives the column round trip: the
/// text of a present value is decimal-number text and comes back verbatim,
/// and an absent value encodes as empty text, which is not decimal.
pub proof fn lemma_opt_num_round(o: Option<Seq<char>>)
    requires
        o matches Some(t) ==> is_decimal(t),
    ensures
        crate::coerce::spec_opt_decimal(enc_opt_num(o)) == o,
{
}

} // verus!
