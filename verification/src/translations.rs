use vstd::prelude::*;
use crate::strings::str_eq;

verus! {

/// `c` is white space as `char::is_whitespace` has it: the Unicode
/// `White_Space` characters.
pub open spec fn is_ws(c: char) -> bool {
    ('\t' <= c && c <= '\r') || c == ' ' || c == '\u{85}' || c == '\u{a0}' || c == '\u{1680}'
        || ('\u{2000}' <= c && c <= '\u{200a}') || c == '\u{2028}' || c == '\u{2029}' || c == '\u{202f}'
        || c == '\u{205f}' || c == '\u{3000}'
}

/// The characters stripped: white space, or tabs and double quotes.
pub open spec fn stripped(c: char, quotes: bool) -> bool {
    if quotes { c == '\t' || c == '"' } else { is_ws(c) }
}

/// Whether `c` is stripped.
fn is_stripped(c: char, quotes: bool) -> (r: bool)
    ensures
        r == stripped(c, quotes),
{
    if quotes {
        c == '\t' || c == '"'
    } else {
        ('\t' <= c && c <= '\r') || c == ' ' || c == '\u{85}' || c == '\u{a0}' || c == '\u{1680}'
            || ('\u{2000}' <= c && c <= '\u{200a}') || c == '\u{2028}' || c == '\u{2029}' || c == '\u{202f}'
            || c == '\u{205f}' || c == '\u{3000}'
    }
}

/// The number of stripped characters `s` starts with.
pub open spec fn lead(s: Seq<char>, quotes: bool) -> nat
    decreases s.len(),
{
    if s.len() > 0 && stripped(s[0], quotes) { 1 + lead(s.drop_first(), quotes) } else { 0 }
}

/// The number of stripped characters `s` ends with.
pub open spec fn trail(s: Seq<char>, quotes: bool) -> nat
    decreases s.len(),
{
    if s.len() > 0 && stripped(s.last(), quotes) { 1 + trail(s.drop_last(), quotes) } else { 0 }
}

/// `s` without the stripped characters at either end.
pub open spec fn strip(s: Seq<char>, quotes: bool) -> Seq<char> {
    let t = s.skip(lead(s, quotes) as int);
    t.take(t.len() - trail(t, quotes))
}

/// What `trim_string` gives: white space trimmed, then tabs and double
/// quotes.
pub open spec fn spec_trim_string(s: Seq<char>) -> Seq<char> {
    strip(strip(s, false), true)
}

/// Counting leading stripped characters from position `i` on.
proof fn lemma_lead_step(s: Seq<char>, i: int, quotes: bool)
    requires
        0 <= i < s.len(),
        stripped(s[i], quotes),
    ensures
        lead(s.skip(i), quotes) == 1 + lead(s.skip(i + 1), quotes),
{
    assert(s.skip(i).drop_first() =~= s.skip(i + 1));
}

/// Counting trailing stripped characters up to position `j`.
proof fn lemma_trail_step(s: Seq<char>, j: int, quotes: bool)
    requires
        0 < j <= s.len(),
        stripped(s[j - 1], quotes),
    ensures
        trail(s.take(j), quotes) == 1 + trail(s.take(j - 1), quotes),
{
    assert(s.take(j).drop_last() =~= s.take(j - 1));
}

/// The bounds of `s` once stripped.
fn strip_bounds(s: &str, from: usize, to: usize, quotes: bool) -> (r: (usize, usize))
    requires
        from <= to <= s@.len(),
    ensures
        from <= r.0 <= r.1 <= to,
        s@.subrange(r.0 as int, r.1 as int) == strip(s@.subrange(from as int, to as int), quotes),
{
    let ghost t = s@.subrange(from as int, to as int);
    let mut a: usize = from;
    assert(t.skip(0) =~= t);
    while a < to && is_stripped(s.get_char(a), quotes)
        invariant
            from <= a <= to,
            to <= s@.len(),
            t == s@.subrange(from as int, to as int),
            lead(t, quotes) == (a - from) + lead(t.skip(a - from), quotes),
        decreases to - a,
    {
        proof {
            lemma_lead_step(t, a - from, quotes);
        }
        a += 1;
    }
    proof {
        let u = t.skip(a - from);
        if a < to {
            assert(u[0] == s@[a as int]);
        }
        assert(lead(u, quotes) == 0);
    }
    let ghost u = t.skip(a - from);
    assert(u =~= s@.subrange(a as int, to as int));
    let mut b: usize = to;
    assert(u.take(u.len() as int) =~= u);
    while b > a && is_stripped(s.get_char(b - 1), quotes)
        invariant
            from <= a <= b <= to,
            to <= s@.len(),
            u == s@.subrange(a as int, to as int),
            trail(u, quotes) == (to - b) + trail(u.take(b - a), quotes),
        decreases b - a,
    {
        proof {
            lemma_trail_step(u, b - a, quotes);
        }
        b -= 1;
    }
    proof {
        let w = u.take(b - a);
        if b > a {
            assert(w.last() == s@[b - 1]);
        }
        assert(trail(w, quotes) == 0);
        assert(s@.subrange(a as int, b as int) =~= u.take(u.len() - trail(u, quotes)));
    }
    (a, b)
}

/// `value` with white space trimmed, then tabs and double quotes.
pub fn trim_string(value: &str) -> (r: String)
    ensures
        r@ == spec_trim_string(value@),
{
    let n = value.unicode_len();
    assert(value@.subrange(0, n as int) =~= value@);
    let (a, b) = strip_bounds(value, 0, n, false);
    let (c, d) = strip_bounds(value, a, b, true);
    value.substring_char(c, d).to_owned()
}

/// The position of the first `c` in `s`.
pub open spec fn char_index(s: Seq<char>, c: char) -> Option<int>
    decreases s.len(),
{
    if s.len() == 0 {
        None
    } else if s[0] == c {
        Some(0)
    } else {
        match char_index(s.drop_first(), c) {
            Some(i) => Some(i + 1),
            None => None,
        }
    }
}

/// The position of the first tab or space in `s`.
pub open spec fn gap_index(s: Seq<char>) -> Option<int>
    decreases s.len(),
{
    if s.len() == 0 {
        None
    } else if s[0] == '\t' || s[0] == ' ' {
        Some(0)
    } else {
        match gap_index(s.drop_first()) {
            Some(i) => Some(i + 1),
            None => None,
        }
    }
}

/// The lines of `s`, split at each newline.
pub open spec fn lines_of(s: Seq<char>) -> Seq<Seq<char>>
    decreases s.len(),
{
    match char_index(s, '\n') {
        None => seq![s],
        Some(i) => {
            proof {
                lemma_char_index(s, '\n');
            }
            seq![s.take(i)] + lines_of(s.skip(i + 1))
        },
    }
}

/// The first `c` found is a `c`, with none before it.
pub proof fn lemma_char_index(s: Seq<char>, c: char)
    ensures
        match char_index(s, c) {
            Some(i) => 0 <= i < s.len() && s[i] == c && forall|j: int| 0 <= j < i ==> #[trigger] s[j] != c,
            None => forall|j: int| 0 <= j < s.len() ==> #[trigger] s[j] != c,
        },
    decreases s.len(),
{
    if s.len() > 0 {
        lemma_char_index(s.drop_first(), c);
        assert forall|j: int| 1 <= j < s.len() implies #[trigger] s[j] == s.drop_first()[j - 1] by {}
    }
}

/// The first index with `c` and none before it is the one `char_index`
/// finds.
proof fn lemma_char_index_at(s: Seq<char>, c: char, i: int)
    requires
        0 <= i < s.len(),
        s[i] == c,
        forall|j: int| 0 <= j < i ==> #[trigger] s[j] != c,
    ensures
        char_index(s, c) == Some(i),
    decreases s.len(),
{
    if i > 0 {
        assert forall|j: int| 0 <= j < i - 1 implies #[trigger] s.drop_first()[j] != c by {
            assert(s.drop_first()[j] == s[j + 1]);
        }
        lemma_char_index_at(s.drop_first(), c, i - 1);
    }
}

/// A text with no `c` has none.
proof fn lemma_char_index_none(s: Seq<char>, c: char)
    requires
        forall|j: int| 0 <= j < s.len() ==> #[trigger] s[j] != c,
    ensures
        char_index(s, c) is None,
    decreases s.len(),
{
    if s.len() > 0 {
        assert forall|j: int| 0 <= j < s.len() - 1 implies #[trigger] s.drop_first()[j] != c by {
            assert(s.drop_first()[j] == s[j + 1]);
        }
        lemma_char_index_none(s.drop_first(), c);
    }
}

/// The first gap found is a tab or space, with none before it.
proof fn lemma_gap_index(s: Seq<char>)
    ensures
        match gap_index(s) {
            Some(i) => 0 <= i < s.len() && (s[i] == '\t' || s[i] == ' ')
                && forall|j: int| 0 <= j < i ==> !(#[trigger] s[j] == '\t' || s[j] == ' '),
            None => forall|j: int| 0 <= j < s.len() ==> !(#[trigger] s[j] == '\t' || s[j] == ' '),
        },
    decreases s.len(),
{
    if s.len() > 0 {
        lemma_gap_index(s.drop_first());
        assert forall|j: int| 1 <= j < s.len() implies #[trigger] s[j] == s.drop_first()[j - 1] by {}
    }
}

/// The key and value a line gives: trimmed, not a comment, split at its
/// first tab or space, with something after it.
pub open spec fn line_pair(line: Seq<char>) -> Option<(Seq<char>, Seq<char>)> {
    let t = strip(line, false);
    if t.len() == 0 || t[0] == '/' {
        None
    } else {
        match gap_index(t) {
            None => None,
            Some(k) => if t.skip(k + 1).len() == 0 {
                None
            } else {
                Some((spec_trim_string(t.take(k)), spec_trim_string(t.skip(k + 1))))
            },
        }
    }
}

/// The pairs the lines give, in order.
pub open spec fn pairs_of(lines: Seq<Seq<char>>) -> Seq<(Seq<char>, Seq<char>)>
    decreases lines.len(),
{
    if lines.len() == 0 {
        Seq::empty()
    } else {
        let rest = pairs_of(lines.drop_last());
        match line_pair(lines.last()) {
            Some(p) => rest.push(p),
            None => rest,
        }
    }
}

/// The key and value one line gives.
fn parse_line(s: &str, from: usize, to: usize) -> (r: Option<(String, String)>)
    requires
        from <= to <= s@.len(),
    ensures
        match line_pair(s@.subrange(from as int, to as int)) {
            Some((k, v)) => r matches Some((a, b)) && a@ == k && b@ == v,
            None => r is None,
        },
{
    let (a, b) = strip_bounds(s, from, to, false);
    let ghost t = s@.subrange(a as int, b as int);
    if a == b || s.get_char(a) == '/' {
        return None;
    }
    proof {
        lemma_gap_index(t);
    }
    let mut k: usize = a;
    while k < b && !(s.get_char(k) == '\t' || s.get_char(k) == ' ')
        invariant
            a <= k <= b,
            b <= s@.len(),
            t == s@.subrange(a as int, b as int),
            forall|j: int| 0 <= j < k - a ==> !(#[trigger] t[j] == '\t' || t[j] == ' '),
            match gap_index(t) {
                Some(i) => 0 <= i < t.len() && (t[i] == '\t' || t[i] == ' ')
                    && forall|j: int| 0 <= j < i ==> !(#[trigger] t[j] == '\t' || t[j] == ' '),
                None => forall|j: int| 0 <= j < t.len() ==> !(#[trigger] t[j] == '\t' || t[j] == ' '),
            },
        decreases b - k,
    {
        k += 1;
    }
    if k == b {
        return None;
    }
    assert(gap_index(t) == Some(k - a)) by {
        assert(t[k - a] == s@[k as int]);
    }
    if k + 1 == b {
        assert(t.skip(k - a + 1).len() == 0);
        return None;
    }
    assert(t.take(k - a) =~= s@.subrange(a as int, k as int));
    assert(t.skip(k - a + 1) =~= s@.subrange(k + 1, b as int));
    let key = trim_string(s.substring_char(a, k));
    let value = trim_string(s.substring_char(k + 1, b));
    Some((key, value))
}


/// Key-value pairs as texts.
pub open spec fn pairs_view(r: Seq<(String, String)>) -> Seq<(Seq<char>, Seq<char>)> {
    r.map_values(|p: (String, String)| (p.0@, p.1@))
}

/// No key occurs twice.
pub open spec fn distinct_keys(s: Seq<(Seq<char>, Seq<char>)>) -> bool {
    forall|i: int, j: int| 0 <= i < j < s.len() ==> s[i].0 != s[j].0
}

/// The map the pairs give, put in in order: a later pair of a key replaces
/// an earlier one.
pub open spec fn pairs_map(s: Seq<(Seq<char>, Seq<char>)>) -> Map<Seq<char>, Seq<char>>
    decreases s.len(),
{
    if s.len() == 0 { Map::empty() } else { pairs_map(s.drop_last()).insert(s.last().0, s.last().1) }
}

/// With distinct keys, the map holds each pair, and only keys of pairs.
proof fn lemma_pairs_map_index(s: Seq<(Seq<char>, Seq<char>)>)
    requires
        distinct_keys(s),
    ensures
        forall|i: int| 0 <= i < s.len() ==> pairs_map(s).contains_key(#[trigger] s[i].0) && pairs_map(s)[s[i].0] == s[i].1,
        forall|k: Seq<char>| pairs_map(s).contains_key(k) ==> exists|i: int| 0 <= i < s.len() && #[trigger] s[i].0 == k,
    decreases s.len(),
{
    if s.len() > 0 {
        let front = s.drop_last();
        lemma_pairs_map_index(front);
        assert forall|i: int| 0 <= i < s.len() implies pairs_map(s).contains_key(#[trigger] s[i].0) && pairs_map(s)[s[i].0] == s[i].1 by {
            if i < s.len() - 1 {
                assert(front[i] == s[i]);
            }
        }
        assert forall|k: Seq<char>| pairs_map(s).contains_key(k) implies exists|i: int| 0 <= i < s.len() && #[trigger] s[i].0 == k by {
            if k == s.last().0 {
                assert(s[s.len() - 1].0 == k);
            } else {
                assert(pairs_map(front).contains_key(k));
                let i = choose|i: int| 0 <= i < front.len() && #[trigger] front[i].0 == k;
                assert(front[i] == s[i]);
            }
        }
    }
}

/// Puts pair `(k, v)` in: the value of an existing key `k` is replaced in
/// place, a new key goes at the end.
fn insert_pair(out: &mut Vec<(String, String)>, k: String, v: String)
    requires
        distinct_keys(pairs_view(old(out)@)),
    ensures
        distinct_keys(pairs_view(final(out)@)),
        pairs_map(pairs_view(final(out)@)) == pairs_map(pairs_view(old(out)@)).insert(k@, v@),
{
    let ghost s0 = pairs_view(out@);
    proof {
        lemma_pairs_map_index(s0);
    }
    let mut j: usize = 0;
    while j < out.len()
        invariant
            j <= out@.len(),
            s0 == pairs_view(out@),
            s0 == pairs_view(old(out)@),
            distinct_keys(s0),
            forall|t: int| 0 <= t < j ==> #[trigger] s0[t].0 != k@,
        decreases out@.len() - j,
    {
        if str_eq(out[j].0.as_str(), k.as_str()) {
            let ghost kv = k@;
            let ghost vv = v@;
            assert(s0[j as int].0 == kv);
            out.set(j, (k, v));
            proof {
                lemma_pairs_map_index(s0);
                let s1 = pairs_view(out@);
                assert(s1 =~= s0.update(j as int, (kv, vv)));
                assert forall|a: int, b: int| 0 <= a < b < s1.len() implies s1[a].0 != s1[b].0 by {
                    assert(s1[a].0 == s0[a].0);
                    assert(s1[b].0 == s0[b].0);
                }
                lemma_pairs_map_index(s1);
                assert forall|x: Seq<char>| pairs_map(s1).contains_key(x) <==> pairs_map(s0).insert(kv, vv).contains_key(x) by {
                    if pairs_map(s1).contains_key(x) {
                        let i = choose|i: int| 0 <= i < s1.len() && #[trigger] s1[i].0 == x;
                        assert(s0[i].0 == x);
                    }
                    if pairs_map(s0).contains_key(x) {
                        let i = choose|i: int| 0 <= i < s0.len() && #[trigger] s0[i].0 == x;
                        assert(s1[i].0 == x);
                    }
                    if x == kv {
                        assert(s1[j as int].0 == x);
                    }
                }
                assert forall|x: Seq<char>| pairs_map(s1).contains_key(x) implies pairs_map(s1)[x] == pairs_map(s0).insert(kv, vv)[x] by {
                    let i = choose|i: int| 0 <= i < s1.len() && #[trigger] s1[i].0 == x;
                    if i != j {
                        assert(s1[i] == s0[i]);
                    }
                }
                assert(pairs_map(s1) =~= pairs_map(s0).insert(kv, vv));
            }
            return;
        }
        j += 1;
    }
    let ghost kv = k@;
    let ghost vv = v@;
    out.push((k, v));
    proof {
        let s1 = pairs_view(out@);
        assert(s1 =~= s0.push((kv, vv)));
        assert(s1.drop_last() =~= s0);
        assert forall|a: int, b: int| 0 <= a < b < s1.len() implies s1[a].0 != s1[b].0 by {
            assert(s1[a] == s0[a]);
            if b < s0.len() {
                assert(s1[b] == s0[b]);
            }
        }
    }
}

/// The translations a file gives: for each line that is not empty nor a
/// comment, the text before its first tab or space as key and the rest as
/// value, each trimmed; lines without a value are passed over. Each key is
/// kept once, in the order keys first appear, with the value of its last
/// pair: a later pair of a key replaces an earlier one.
pub fn parse(input: &str) -> (r: Vec<(String, String)>)
    ensures
        distinct_keys(pairs_view(r@)),
        pairs_map(pairs_view(r@)) == pairs_map(pairs_of(lines_of(input@))),
{
    let n = input.unicode_len();
    let mut out: Vec<(String, String)> = Vec::new();
    let mut start: usize = 0;
    let mut i: usize = 0;
    let ghost done: Seq<Seq<char>> = Seq::empty();
    assert(input@.skip(0) =~= input@);
    while i < n
        invariant
            n == input@.len(),
            start <= i <= n,
            lines_of(input@) == done + lines_of(input@.skip(start as int)),
            forall|j: int| start <= j < i ==> #[trigger] input@[j] != '\n',
            distinct_keys(pairs_view(out@)),
            pairs_map(pairs_view(out@)) == pairs_map(pairs_of(done)),
        decreases n - i,
    {
        if input.get_char(i) == '\n' {
            let ghost rest = input@.skip(start as int);
            proof {
                assert forall|j: int| 0 <= j < i - start implies #[trigger] rest[j] != '\n' by {
                    assert(rest[j] == input@[start + j]);
                }
                lemma_char_index_at(rest, '\n', i - start);
                assert(rest.take(i - start) =~= input@.subrange(start as int, i as int));
                assert(rest.skip(i - start + 1) =~= input@.skip(i + 1));
            }
            let ghost line = input@.subrange(start as int, i as int);
            assert((done + seq![line]).drop_last() =~= done);
            assert((done + seq![line]).last() == line);
            match parse_line(input, start, i) {
                Some(p) => {
                    let ghost pv = (p.0@, p.1@);
                    insert_pair(&mut out, p.0, p.1);
                    assert(pairs_of(done + seq![line]).drop_last() =~= pairs_of(done));
                    assert(pairs_map(pairs_of(done + seq![line])) == pairs_map(pairs_of(done)).insert(pv.0, pv.1));
                },
                None => {
                    assert(pairs_of(done + seq![line]) == pairs_of(done));
                },
            }
            proof {
                assert((done + seq![line]).drop_last() =~= done);
                assert(done + lines_of(rest) =~= (done + seq![line]) + lines_of(input@.skip(i + 1)));
                done = done + seq![line];
            }
            start = i + 1;
        }
        i += 1;
    }
    let ghost rest = input@.skip(start as int);
    proof {
        assert forall|j: int| 0 <= j < rest.len() implies #[trigger] rest[j] != '\n' by {
            assert(rest[j] == input@[start + j]);
        }
        lemma_char_index_none(rest, '\n');
        assert(rest =~= input@.subrange(start as int, n as int));
    }
    assert((done + seq![rest]).drop_last() =~= done);
    assert((done + seq![rest]).last() == rest);
    match parse_line(input, start, n) {
        Some(p) => {
            let ghost pv = (p.0@, p.1@);
            insert_pair(&mut out, p.0, p.1);
            assert(pairs_of(done + seq![rest]).drop_last() =~= pairs_of(done));
            assert(pairs_map(pairs_of(done + seq![rest])) == pairs_map(pairs_of(done)).insert(pv.0, pv.1));
        },
        None => {
            assert(pairs_of(done + seq![rest]) == pairs_of(done));
        },
    }
    out
}

} // verus!
