//! Splitting an input line into tokens and sequential command groups.
use vstd::prelude::*;

verus! {

/// The Unicode `White_Space` characters.
pub open spec fn is_space_spec(c: char) -> bool {
    ||| c == ' '
    ||| ('\u{9}' <= c && c <= '\u{d}')
    ||| c == '\u{85}'
    ||| c == '\u{a0}'
    ||| c == '\u{1680}'
    ||| ('\u{2000}' <= c && c <= '\u{200a}')
    ||| c == '\u{2028}'
    ||| c == '\u{2029}'
    ||| c == '\u{202f}'
    ||| c == '\u{205f}'
    ||| c == '\u{3000}'
}

/// Whether `c` is a white-space character.
pub fn is_space(c: char) -> (r: bool)
    ensures
        r == is_space_spec(c),
{
    c == ' ' || ('\u{9}' <= c && c <= '\u{d}') || c == '\u{85}' || c == '\u{a0}' || c
        == '\u{1680}' || ('\u{2000}' <= c && c <= '\u{200a}') || c == '\u{2028}' || c
        == '\u{2029}' || c == '\u{202f}' || c == '\u{205f}' || c == '\u{3000}'
}

/// `t` holds the character `c` somewhere.
pub open spec fn has_char(t: Seq<char>, c: char) -> bool {
    exists|k: int| 0 <= k < t.len() && t[k] == c
}

/// `t` holds the character `c` twice in a row somewhere.
pub open spec fn has_pair(t: Seq<char>, c: char) -> bool {
    exists|k: int| 0 <= k < t.len() - 1 && #[trigger] t[k] == c && t[k + 1] == c
}

/// A sequence delimiter: a token holding `;`, `&&` or `||`.
pub open spec fn is_delimiter_spec(t: Seq<char>) -> bool {
    has_char(t, ';') || has_pair(t, '&') || has_pair(t, '|')
}

/// Whether `token` separates two sequential command groups.
pub fn is_delimiter(token: &str) -> (r: bool)
    ensures
        r == is_delimiter_spec(token@),
{
    let n = token.unicode_len();
    let mut i: usize = 0;
    let mut prev: Option<char> = None;
    while i < n
        invariant
            n == token@.len(),
            0 <= i <= n,
            !has_char(token@.subrange(0, i as int), ';'),
            !has_pair(token@.subrange(0, i as int), '&'),
            !has_pair(token@.subrange(0, i as int), '|'),
            i == 0 ==> prev is None,
            i > 0 ==> prev == Some(token@[i - 1]),
        decreases n - i,
    {
        let c = token.get_char(i);
        if c == ';' {
            assert(token@.subrange(0, i + 1)[i as int] == ';');
            return true;
        }
        if (c == '&' || c == '|') && prev == Some(c) {
            assert(token@[i - 1] == c && token@[i as int] == c);
            return true;
        }
        proof {
            let s = token@.subrange(0, i + 1);
            let p = token@.subrange(0, i as int);
            assert forall|k: int| 0 <= k < s.len() implies s[k] != ';' by {
                if k < i {
                    assert(s[k] == p[k]);
                }
            }
            assert forall|k: int| 0 <= k < s.len() - 1 implies !(#[trigger] s[k] == '&' && s[k + 1] == '&')
                && !(s[k] == '|' && s[k + 1] == '|') by {
                if k < i - 1 {
                    assert(s[k] == p[k] && s[k + 1] == p[k + 1]);
                }
            }
        }
        prev = Some(c);
        i = i + 1;
    }
    assert(token@.subrange(0, n as int) =~= token@);
    false
}

/// The first position at or after `i` that holds white space, or the end.
pub open spec fn run_end(s: Seq<char>, i: int) -> int
    decreases s.len() - i,
{
    if i >= s.len() || i < 0 {
        s.len() as int
    } else if is_space_spec(s[i]) {
        i
    } else {
        run_end(s, i + 1)
    }
}

/// The first position at or after `i` that holds a line break, or the end.
pub open spec fn line_end(s: Seq<char>, i: int) -> int
    decreases s.len() - i,
{
    if i >= s.len() || i < 0 {
        s.len() as int
    } else if s[i] == '\n' {
        i
    } else {
        line_end(s, i + 1)
    }
}

/// The last position in `[a, b)` that holds a double quote, or -1.
pub open spec fn last_quote(s: Seq<char>, a: int, b: int) -> int
    decreases b - a,
{
    if b <= a {
        -1
    } else if s[b - 1] == '"' {
        b - 1
    } else {
        last_quote(s, a, b - 1)
    }
}

/// Where the token that starts at `i` ends: a double quote opens a quoted
/// token that runs to the last double quote of the same line; without such a
/// closing quote, or for any other character, the token is the run of
/// characters up to the next white space.
pub open spec fn token_end(s: Seq<char>, i: int) -> int {
    let q = last_quote(s, i + 1, line_end(s, i + 1));
    if s[i] == '"' && q >= 0 {
        q + 1
    } else {
        run_end(s, i)
    }
}

/// The tokens of `s` from position `i` on.
pub open spec fn tokens_from(s: Seq<char>, i: int) -> Seq<Seq<char>>
    decreases s.len() - i,
{
    if i >= s.len() || i < 0 {
        seq![]
    } else if is_space_spec(s[i]) {
        tokens_from(s, i + 1)
    } else if !(i < token_end(s, i) <= s.len()) {
        seq![]  // unreachable: a token is never empty and never passes the end
    } else {
        seq![s.subrange(i, token_end(s, i))] + tokens_from(s, token_end(s, i))
    }
}

/// The tokens of a line.
pub open spec fn tokens_of(s: Seq<char>) -> Seq<Seq<char>> {
    tokens_from(s, 0)
}

/// The character views of a sequence of strings.
pub open spec fn views(v: Seq<String>) -> Seq<Seq<char>> {
    v.map_values(|t: String| t@)
}

proof fn lemma_run_end_bounds(s: Seq<char>, i: int)
    requires
        0 <= i <= s.len(),
    ensures
        i <= run_end(s, i) <= s.len(),
        i < s.len() && !is_space_spec(s[i]) ==> run_end(s, i) > i,
    decreases s.len() - i,
{
    if i < s.len() && !is_space_spec(s[i]) {
        lemma_run_end_bounds(s, i + 1);
    }
}

proof fn lemma_last_quote_bounds(s: Seq<char>, a: int, b: int)
    ensures
        last_quote(s, a, b) == -1 || (a <= last_quote(s, a, b) < b && s[last_quote(s, a, b)]
            == '"'),
    decreases b - a,
{
    if b > a && s[b - 1] != '"' {
        lemma_last_quote_bounds(s, a, b - 1);
    }
}

proof fn lemma_line_end_bounds(s: Seq<char>, i: int)
    requires
        0 <= i <= s.len(),
    ensures
        i <= line_end(s, i) <= s.len(),
    decreases s.len() - i,
{
    if i < s.len() && s[i] != '\n' {
        lemma_line_end_bounds(s, i + 1);
    }
}

proof fn lemma_token_end_bounds(s: Seq<char>, i: int)
    requires
        0 <= i < s.len(),
        !is_space_spec(s[i]),
    ensures
        i < token_end(s, i) <= s.len(),
{
    lemma_run_end_bounds(s, i);
    lemma_line_end_bounds(s, i + 1);
    lemma_last_quote_bounds(s, i + 1, line_end(s, i + 1));
}

/// Where the token that starts at `i` (not white space) ends.
fn next_token_end(s: &str, n: usize, i: usize) -> (e: usize)
    requires
        n == s@.len(),
        i < n,
        !is_space_spec(s@[i as int]),
    ensures
        e == token_end(s@, i as int),
        i < e <= n,
{
    proof {
        lemma_token_end_bounds(s@, i as int);
    }
    if s.get_char(i) == '"' {
        let mut k: usize = i + 1;
        let mut last: Option<usize> = None;
        while k < n && s.get_char(k) != '\n'
            invariant
                n == s@.len(),
                i < k <= n,
                line_end(s@, i + 1) == line_end(s@, k as int),
                last_quote(s@, i + 1, k as int) == match last {
                    Some(q) => q as int,
                    None => -1,
                },
            decreases n - k,
        {
            if s.get_char(k) == '"' {
                last = Some(k);
            }
            k = k + 1;
        }
        assert(line_end(s@, k as int) == k);
        if let Some(q) = last {
            return q + 1;
        }
    }
    let mut k: usize = i;
    while k < n && !is_space(s.get_char(k))
        invariant
            n == s@.len(),
            i <= k <= n,
            run_end(s@, i as int) == run_end(s@, k as int),
        decreases n - k,
    {
        k = k + 1;
    }
    k
}

/// Splits a line into tokens: runs of characters other than white space, or
/// double-quoted text (quotes kept), in order.
pub fn tokenize(s: &str) -> (r: Vec<String>)
    ensures
        views(r@) == tokens_of(s@),
{
    let n = s.unicode_len();
    let mut r: Vec<String> = Vec::new();
    let mut i: usize = 0;
    while i < n
        invariant
            n == s@.len(),
            0 <= i <= n,
            tokens_of(s@) == views(r@) + tokens_from(s@, i as int),
        decreases n - i,
    {
        if is_space(s.get_char(i)) {
            i = i + 1;
        } else {
            let e = next_token_end(s, n, i);
            let t = s.substring_char(i, e).to_string();
            proof {
                assert(views(r@.push(t)) =~= views(r@).push(t@));
                assert(views(r@) + tokens_from(s@, i as int) =~= views(r@.push(t)) + tokens_from(
                    s@,
                    e as int,
                ));
            }
            r.push(t);
            i = e;
        }
    }
    proof {
        assert(views(r@) + tokens_from(s@, i as int) =~= views(r@));
    }
    r
}

/// Scanning `toks` left to right: the groups closed so far, and the group in
/// progress. A delimiter closes the group in progress (an empty one is
/// dropped) and is itself discarded.
pub open spec fn group_scan(toks: Seq<Seq<char>>) -> (Seq<Seq<Seq<char>>>, Seq<Seq<char>>)
    decreases toks.len(),
{
    if toks.len() == 0 {
        (seq![], seq![])
    } else {
        let (done, cur) = group_scan(toks.drop_last());
        if is_delimiter_spec(toks.last()) {
            if cur.len() > 0 {
                (done.push(cur), seq![])
            } else {
                (done, seq![])
            }
        } else {
            (done, cur.push(toks.last()))
        }
    }
}

/// The sequential command groups of a token sequence: the non-empty runs of
/// tokens between delimiters, in order.
pub open spec fn groups_of(toks: Seq<Seq<char>>) -> Seq<Seq<Seq<char>>> {
    let (done, cur) = group_scan(toks);
    if cur.len() > 0 {
        done.push(cur)
    } else {
        done
    }
}

/// The sequential command groups of a line.
pub open spec fn split_commands_spec(s: Seq<char>) -> Seq<Seq<Seq<char>>> {
    groups_of(tokens_of(s))
}

/// The character views of a sequence of token groups.
pub open spec fn group_views(v: Seq<Vec<String>>) -> Seq<Seq<Seq<char>>> {
    v.map_values(|g: Vec<String>| views(g@))
}

/// Splits a line into its sequential command groups: the delimiters `;`,
/// `&&` and `||` all act as plain separators, and no group is empty.
pub fn split_commands(command_string: &str) -> (r: Vec<Vec<String>>)
    ensures
        group_views(r@) == split_commands_spec(command_string@),
{
    let tokens = tokenize(command_string);
    let ghost toks = views(tokens@);
    let mut r: Vec<Vec<String>> = Vec::new();
    let mut cur: Vec<String> = Vec::new();
    let mut i: usize = 0;
    while i < tokens.len()
        invariant
            toks == views(tokens@),
            toks == tokens_of(command_string@),
            0 <= i <= tokens.len(),
            group_scan(toks.take(i as int)) == (group_views(r@), views(cur@)),
        decreases tokens.len() - i,
    {
        let t = tokens[i].clone();
        proof {
            assert(toks.take(i + 1).drop_last() =~= toks.take(i as int));
            assert(toks.take(i + 1).last() == t@);
        }
        if is_delimiter(t.as_str()) {
            if cur.len() > 0 {
                proof {
                    assert(group_views(r@.push(cur)) =~= group_views(r@).push(views(cur@)));
                }
                r.push(cur);
            }
            cur = Vec::new();
            proof {
                assert(views(cur@) =~= seq![]);
            }
        } else {
            proof {
                assert(views(cur@.push(t)) =~= views(cur@).push(t@));
            }
            cur.push(t);
        }
        i = i + 1;
    }
    proof {
        assert(toks.take(i as int) =~= toks);
    }
    if cur.len() > 0 {
        proof {
            assert(group_views(r@.push(cur)) =~= group_views(r@).push(views(cur@)));
        }
        r.push(cur);
    }
    r
}

/// The position of the first delimiter among `tokens`, if there is one.
pub fn has_next_delimiter_at(tokens: &[&str]) -> (r: Option<usize>)
    ensures
        match r {
            Some(i) => i < tokens@.len() && is_delimiter_spec(tokens@[i as int]@) && forall|j: int|
                0 <= j < i ==> !is_delimiter_spec(#[trigger] tokens@[j]@),
            None => forall|j: int| 0 <= j < tokens@.len() ==> !is_delimiter_spec(#[trigger] tokens@[j]@),
        },
{
    let mut i: usize = 0;
    while i < tokens.len()
        invariant
            0 <= i <= tokens@.len(),
            forall|j: int| 0 <= j < i ==> !is_delimiter_spec(#[trigger] tokens@[j]@),
        decreases tokens@.len() - i,
    {
        if is_delimiter(tokens[i]) {
            return Some(i);
        }
        i = i + 1;
    }
    None
}

/// A copy of a list of strings.
pub fn copy_strings(v: &Vec<String>) -> (r: Vec<String>)
    ensures
        views(r@) == views(v@),
{
    let mut r: Vec<String> = Vec::new();
    let mut i: usize = 0;
    while i < v.len()
        invariant
            0 <= i <= v@.len(),
            views(r@) == views(v@).take(i as int),
        decreases v@.len() - i,
    {
        let t = v[i].clone();
        proof {
            assert(views(r@.push(t)) =~= views(r@).push(t@));
            assert(views(v@).take(i + 1) =~= views(v@).take(i as int).push(v@[i as int]@));
        }
        r.push(t);
        i = i + 1;
    }
    proof {
        assert(views(v@).take(i as int) =~= views(v@));
    }
    r
}

/// A delimiter at the end of the tokens adds no group: a trailing `;`,
/// `&&` or `||` leaves the groups as they were.
pub proof fn lemma_trailing_delimiter(toks: Seq<Seq<char>>, d: Seq<char>)
    requires
        is_delimiter_spec(d),
    ensures
        groups_of(toks.push(d)) == groups_of(toks),
{
    assert(toks.push(d).drop_last() =~= toks);
}

/// Every group is non-empty and holds no delimiter, and the groups hold the
/// tokens that are not delimiters, in their order.
pub proof fn lemma_groups_well_formed(toks: Seq<Seq<char>>)
    ensures
        forall|k: int|
            0 <= k < groups_of(toks).len() ==> (#[trigger] groups_of(toks)[k]).len() > 0,
        forall|k: int, j: int|
            0 <= k < groups_of(toks).len() && 0 <= j < groups_of(toks)[k].len()
                ==> !is_delimiter_spec(#[trigger] groups_of(toks)[k][j]),
        groups_of(toks).flatten() == toks.filter(|t: Seq<char>| !is_delimiter_spec(t)),
{
    lemma_group_scan_well_formed(toks);
    let (done, cur) = group_scan(toks);
    if cur.len() > 0 {
        done.lemma_flatten_push(cur);
    }
}

proof fn lemma_group_scan_well_formed(toks: Seq<Seq<char>>)
    ensures
        forall|k: int|
            0 <= k < group_scan(toks).0.len() ==> (#[trigger] group_scan(toks).0[k]).len() > 0,
        forall|k: int, j: int|
            0 <= k < group_scan(toks).0.len() && 0 <= j < group_scan(toks).0[k].len()
                ==> !is_delimiter_spec(#[trigger] group_scan(toks).0[k][j]),
        forall|j: int|
            0 <= j < group_scan(toks).1.len() ==> !is_delimiter_spec(#[trigger] group_scan(toks).1[j]),
        group_scan(toks).0.flatten() + group_scan(toks).1 == toks.filter(
            |t: Seq<char>| !is_delimiter_spec(t),
        ),
    decreases toks.len(),
{
    let pred = |t: Seq<char>| !is_delimiter_spec(t);
    reveal(Seq::filter);
    if toks.len() > 0 {
        let d = toks.drop_last();
        lemma_group_scan_well_formed(d);
        let (done, cur) = group_scan(d);
        let t = toks.last();
        assert(toks.filter(pred) == if pred(t) {
            d.filter(pred).push(t)
        } else {
            d.filter(pred)
        });
        if is_delimiter_spec(t) {
            if cur.len() > 0 {
                done.lemma_flatten_push(cur);
                assert(done.push(cur).flatten() + seq![] =~= done.flatten() + cur);
            } else {
                assert(done.flatten() + seq![] =~= done.flatten() + cur);
            }
        } else {
            assert(done.flatten() + cur.push(t) =~= (done.flatten() + cur).push(t));
        }
    }
}

} // verus!
