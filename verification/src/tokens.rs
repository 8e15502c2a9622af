//! Text-token coercions: whitespace trimming, case folding for boolean
//! tokens, and comma splitting for keyword lists.

use vstd::prelude::*;

verus! {

/// Whether a character counts as trimmable whitespace.
pub open spec fn is_ws(c: char) -> bool {
    c == ' ' || c == '\t' || c == '\r' || c == '\n'
}

/// `s` without leading whitespace.
pub open spec fn trim_front(s: Seq<char>) -> Seq<char>
    decreases s.len(),
{
    if s.len() > 0 && is_ws(s[0]) {
        trim_front(s.drop_first())
    } else {
        s
    }
}

/// `s` without trailing whitespace.
pub open spec fn trim_back(s: Seq<char>) -> Seq<char>
    decreases s.len(),
{
    if s.len() > 0 && is_ws(s.last()) {
        trim_back(s.drop_last())
    } else {
        s
    }
}

/// `s` without leading or trailing whitespace.
pub open spec fn trim(s: Seq<char>) -> Seq<char> {
    trim_back(trim_front(s))
}

/// A trimmed sequence neither starts nor ends with whitespace.
pub proof fn lemma_trim_no_ws(s: Seq<char>)
    ensures
        trim(s).len() > 0 ==> !is_ws(trim(s)[0]) && !is_ws(trim(s).last()),
{
    lemma_trim_front_no_ws(s);
    lemma_trim_back_no_ws(trim_front(s));
}

proof fn lemma_trim_front_no_ws(s: Seq<char>)
    ensures
        trim_front(s).len() > 0 ==> !is_ws(trim_front(s)[0]),
    decreases s.len(),
{
    if s.len() > 0 && is_ws(s[0]) {
        lemma_trim_front_no_ws(s.drop_first());
    }
}

proof fn lemma_trim_back_no_ws(s: Seq<char>)
    ensures
        trim_back(s).len() > 0 ==> !is_ws(trim_back(s).last()),
        trim_back(s).len() > 0 ==> trim_back(s)[0] == s[0],
        trim_back(s).len() <= s.len(),
    decreases s.len(),
{
    if s.len() > 0 && is_ws(s.last()) {
        lemma_trim_back_no_ws(s.drop_last());
    }
}

/// Trims whitespace from both ends of a character vector.
pub fn trim_vec(v: &Vec<char>) -> (r: Vec<char>)
    ensures
        r@ == trim(v@),
{
    let ghost s = v@;
    proof {
        assert(s.skip(0) =~= s);
    }
    let mut a: usize = 0;
    while a < v.len() && is_ws_exec(v[a])
        invariant
            0 <= a <= s.len(),
            s == v@,
            trim_front(s) == trim_front(s.skip(a as int)),
        decreases s.len() - a,
    {
        proof {
            assert(s.skip(a as int).drop_first() =~= s.skip(a + 1));
        }
        a = a + 1;
    }
    proof {
        if a < s.len() {
            assert(trim_front(s.skip(a as int)) == s.skip(a as int));
        } else {
            assert(s.skip(a as int) =~= Seq::<char>::empty());
            assert(trim_front(s.skip(a as int)) =~= s.skip(a as int));
        }
    }
    let ghost t = s.skip(a as int);
    proof {
        assert(t.take(s.len() - a) =~= t);
    }
    let mut b: usize = v.len();
    while b > a && is_ws_exec(v[b - 1])
        invariant
            a <= b <= s.len(),
            s == v@,
            t == s.skip(a as int),
            trim_back(t) == trim_back(t.take(b - a)),
        decreases b,
    {
        proof {
            assert(t.take(b - a).last() == s[b - 1]);
            assert(t.take(b - a).drop_last() =~= t.take(b - 1 - a));
        }
        b = b - 1;
    }
    proof {
        if b > a {
            assert(t.take(b - a).last() == s[b - 1]);
            assert(trim_back(t.take(b - a)) == t.take(b - a));
        } else {
            assert(t.take(b - a) =~= Seq::<char>::empty());
            assert(trim_back(t.take(b - a)) =~= t.take(b - a));
        }
    }
    let mut out: Vec<char> = Vec::new();
    let mut k: usize = a;
    while k < b
        invariant
            a <= k <= b <= s.len(),
            s == v@,
            out@ =~= s.subrange(a as int, k as int),
        decreases b - k,
    {
        out.push(v[k]);
        k = k + 1;
    }
    proof {
        assert(s.subrange(a as int, b as int) =~= t.take(b - a));
    }
    out
}

fn is_ws_exec(c: char) -> (r: bool)
    ensures
        r == is_ws(c),
{
    c == ' ' || c == '\t' || c == '\r' || c == '\n'
}

/// ASCII upper-case letters folded to lower case; all else unchanged.
pub open spec fn lower_char(c: char) -> char {
    if 'A' <= c && c <= 'Z' {
        (c as u8 + 32) as char
    } else {
        c
    }
}

/// Character-wise ASCII case folding.
pub open spec fn lower(s: Seq<char>) -> Seq<char> {
    s.map_values(|c: char| lower_char(c))
}

fn lower_char_exec(c: char) -> (r: char)
    ensures
        r == lower_char(c),
{
    if 'A' <= c && c <= 'Z' {
        (c as u8 + 32) as char
    } else {
        c
    }
}

/// The accepted boolean tokens: case-insensitive `yes`/`no`, and the
/// numeric forms `1`/`0`; anything else is rejected.
pub open spec fn spec_bool_token(s: Seq<char>) -> Option<bool> {
    let l = lower(s);
    if l == seq!['y', 'e', 's'] || l == seq!['1'] {
        Some(true)
    } else if l == seq!['n', 'o'] || l == seq!['0'] {
        Some(false)
    } else {
        None
    }
}

/// Decides the boolean token held by `v`.
pub fn bool_token(v: &Vec<char>) -> (r: Option<bool>)
    ensures
        r == spec_bool_token(v@),
{
    let mut l: Vec<char> = Vec::new();
    let mut i: usize = 0;
    while i < v.len()
        invariant
            0 <= i <= v@.len(),
            l@ =~= lower(v@.take(i as int)),
        decreases v@.len() - i,
    {
        l.push(lower_char_exec(v[i]));
        proof {
            assert(lower(v@.take(i + 1)) =~= lower(v@.take(i as int)).push(lower_char(v@[i as int])));
        }
        i = i + 1;
    }
    proof {
        assert(v@.take(v@.len() as int) =~= v@);
    }
    if l.len() == 3 && l[0] == 'y' && l[1] == 'e' && l[2] == 's' {
        proof {
            assert(lower(v@) =~= seq!['y', 'e', 's']);
        }
        Some(true)
    } else if l.len() == 1 && l[0] == '1' {
        proof {
            assert(lower(v@) =~= seq!['1']);
        }
        Some(true)
    } else if l.len() == 2 && l[0] == 'n' && l[1] == 'o' {
        proof {
            assert(lower(v@) =~= seq!['n', 'o']);
        }
        Some(false)
    } else if l.len() == 1 && l[0] == '0' {
        proof {
            assert(lower(v@) =~= seq!['0']);
        }
        Some(false)
    } else {
        proof {
            let w = lower(v@);
            assert(w == l@);
            assert(w != seq!['y', 'e', 's'] && w != seq!['1'] && w != seq!['n', 'o'] && w
                != seq!['0']) by {
                if w == seq!['y', 'e', 's'] {
                    assert(l@.len() == 3 && l@[0] == 'y' && l@[1] == 'e' && l@[2] == 's');
                }
                if w == seq!['1'] {
                    assert(l@.len() == 1 && l@[0] == '1');
                }
                if w == seq!['n', 'o'] {
                    assert(l@.len() == 2 && l@[0] == 'n' && l@[1] == 'o');
                }
                if w == seq!['0'] {
                    assert(l@.len() == 1 && l@[0] == '0');
                }
            }
        }
        None
    }
}

/// The first position at or after `i` that holds a comma.
pub open spec fn find_comma(s: Seq<char>, i: int) -> int
    decreases s.len() - i when 0 <= i <= s.len()
{
    if i < s.len() {
        if s[i] == ',' {
            i
        } else {
            find_comma(s, i + 1)
        }
    } else {
        i
    }
}

/// `find_comma` lands between `i` and the end, right after a comma-free run.
pub proof fn lemma_find_comma(s: Seq<char>, i: int)
    requires
        0 <= i <= s.len(),
    ensures
        i <= find_comma(s, i) <= s.len(),
        forall|k: int| i <= k < find_comma(s, i) ==> s[k] != ',',
        find_comma(s, i) < s.len() ==> s[find_comma(s, i)] == ',',
    decreases s.len() - i,
{
    if i < s.len() && s[i] != ',' {
        lemma_find_comma(s, i + 1);
    }
}

/// The comma-separated pieces of `s[i..]`, commas removed, in order.
pub open spec fn split_from(s: Seq<char>, i: int) -> Seq<Seq<char>>
    decreases s.len() - i when 0 <= i <= s.len() via split_from_dec
{
    let k = find_comma(s, i);
    if k == s.len() {
        seq![s.subrange(i, s.len() as int)]
    } else {
        seq![s.subrange(i, k)] + split_from(s, k + 1)
    }
}

#[via_fn]
proof fn split_from_dec(s: Seq<char>, i: int) {
    lemma_find_comma(s, i);
}

/// The keyword list denoted by a keywords column: empty text yields the
/// empty list, otherwise the comma-separated pieces, each trimmed.
pub open spec fn keywords_of(s: Seq<char>) -> Seq<Seq<char>> {
    if s.len() == 0 {
        seq![]
    } else {
        split_from(s, 0).map_values(|p: Seq<char>| trim(p))
    }
}

/// No element of a decoded keyword list carries leading or trailing
/// whitespace, whatever the column text was.
pub proof fn lemma_keywords_trimmed(s: Seq<char>)
    ensures
        forall|i: int|
            0 <= i < keywords_of(s).len() && #[trigger] keywords_of(s)[i].len() > 0 ==> !is_ws(
                keywords_of(s)[i][0],
            ) && !is_ws(keywords_of(s)[i].last()),
{
    if s.len() > 0 {
        assert forall|i: int|
            0 <= i < keywords_of(s).len() && #[trigger] keywords_of(s)[i].len() > 0 implies !is_ws(
            keywords_of(s)[i][0],
        ) && !is_ws(keywords_of(s)[i].last()) by {
            lemma_trim_no_ws(split_from(s, 0)[i]);
            assert(keywords_of(s)[i] == trim(split_from(s, 0)[i]));
        }
    }
}

fn find_comma_run(v: &Vec<char>, i: usize) -> (r: usize)
    requires
        i <= v@.len(),
    ensures
        r == find_comma(v@, i as int),
        i <= r <= v@.len(),
{
    let mut j: usize = i;
    while j < v.len() && v[j] != ','
        invariant
            i <= j <= v@.len(),
            find_comma(v@, i as int) == find_comma(v@, j as int),
        decreases v@.len() - j,
    {
        j = j + 1;
    }
    proof {
        lemma_find_comma(v@, j as int);
    }
    j
}

/// Splits `v` on commas and trims each piece.
pub fn split_keywords(v: &Vec<char>) -> (r: Vec<Vec<char>>)
    ensures
        r.deep_view() == keywords_of(v@),
{
    if v.len() == 0 {
        let r: Vec<Vec<char>> = Vec::new();
        assert(r.deep_view() =~= keywords_of(v@));
        return r;
    }
    let r = split_trim_from(v, 0);
    assert(r.deep_view() =~= keywords_of(v@));
    r
}

fn split_trim_from(v: &Vec<char>, i: usize) -> (r: Vec<Vec<char>>)
    requires
        i <= v@.len(),
    ensures
        r.deep_view() == split_from(v@, i as int).map_values(|p: Seq<char>| trim(p)),
    decreases v@.len() - i,
{
    let k = find_comma_run(v, i);
    let mut piece: Vec<char> = Vec::new();
    let mut j: usize = i;
    while j < k
        invariant
            i <= j <= k <= v@.len(),
            piece@ =~= v@.subrange(i as int, j as int),
        decreases k - j,
    {
        piece.push(v[j]);
        j = j + 1;
    }
    let trimmed = trim_vec(&piece);
    if k == v.len() {
        let ghost trimmed_view = trimmed@;
        let mut r: Vec<Vec<char>> = Vec::new();
        r.push(trimmed);
        proof {
            let f = |p: Seq<char>| trim(p);
            let target = split_from(v@, i as int).map_values(f);
            assert(split_from(v@, i as int) == seq![v@.subrange(i as int, v@.len() as int)]);
            assert(target[0] == f(v@.subrange(i as int, v@.len() as int)));
            assert(r.deep_view().len() == 1);
            assert(r.deep_view()[0] =~= r@[0]@);
            assert(r@[0]@ == trim(piece@));
            assert(r.deep_view() =~~= target);
        }
        r
    } else {
        proof {
            lemma_find_comma(v@, i as int);
        }
        let rest = split_trim_from(v, k + 1);
        let ghost trimmed_view = trimmed@;
        let mut r: Vec<Vec<char>> = Vec::new();
        r.push(trimmed);
        let mut m: usize = 0;
        while m < rest.len()
            invariant
                0 <= m <= rest@.len(),
                r@.len() == m + 1,
                r@[0]@ == trimmed_view,
                forall|n: int| 0 <= n < m ==> #[trigger] r@[n + 1]@ == rest@[n]@,
            decreases rest@.len() - m,
        {
            let item = clone_piece(&rest, m);
            r.push(item);
            m = m + 1;
        }
        proof {
            let f = |p: Seq<char>| trim(p);
            let target = split_from(v@, i as int).map_values(f);
            let sub = split_from(v@, k as int + 1).map_values(f);
            assert(rest.deep_view() == sub);
            assert(split_from(v@, i as int) == seq![v@.subrange(i as int, k as int)] + split_from(
                v@,
                k as int + 1,
            ));
            assert(target.len() == 1 + sub.len());
            assert(target[0] == f(v@.subrange(i as int, k as int)));
            assert(r.deep_view().len() == target.len());
            assert(r.deep_view()[0] =~= r@[0]@);
            assert(r@[0]@ == trim(piece@));
            assert forall|m: int| 0 <= m < target.len() implies r.deep_view()[m] == target[m] by {
                if m == 0 {
                    assert(r.deep_view()[0] =~= r@[0]@);
                } else {
                    let n = m - 1;
                    assert(split_from(v@, i as int)[n + 1] == split_from(v@, k as int + 1)[n]);
                    assert(target[m] == sub[n]);
                    assert(r.deep_view()[m] =~= r@[m]@);
                    assert(r@[n + 1]@ == rest@[n]@);
                    assert(rest.deep_view()[n] =~= rest@[n]@);
                    assert(sub[n] == rest.deep_view()[n]);
                }
            }
            assert(r.deep_view() =~~= target);
        }
        r
    }
}

fn clone_piece(rest: &Vec<Vec<char>>, m: usize) -> (r: Vec<char>)
    requires
        m < rest@.len(),
    ensures
        r@ == rest@[m as int]@,
{
    let mut out: Vec<char> = Vec::new();
    let mut j: usize = 0;
    let piece = &rest[m];
    while j < piece.len()
        invariant
            0 <= j <= piece@.len(),
            piece@ == rest@[m as int]@,
            out@ =~= piece@.take(j as int),
        decreases piece@.len() - j,
    {
        out.push(piece[j]);
        j = j + 1;
    }
    proof {
        assert(piece@.take(piece@.len() as int) =~= piece@);
    }
    out
}

} // verus!
