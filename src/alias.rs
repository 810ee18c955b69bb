//! The alias table: alias names mapped to the command text that replaces
//! them.
use vstd::prelude::*;
use crate::table::TextMap;
use crate::text::{decimal, decimal_text, split_char, split_on, trim, trim_str};
use crate::tokenizer::views;

verus! {

/// The alias table.
pub struct AliasSystem {
    alias_map: TextMap,
}

impl View for AliasSystem {
    type V = Map<Seq<char>, Seq<char>>;

    closed spec fn view(&self) -> Map<Seq<char>, Seq<char>> {
        self.alias_map@
    }
}

impl AliasSystem {
    pub closed spec fn wf(&self) -> bool {
        self.alias_map.wf()
    }

    /// A table without aliases.
    pub fn new() -> (r: AliasSystem)
        ensures
            r.wf(),
            r@ == Map::<Seq<char>, Seq<char>>::empty(),
    {
        AliasSystem { alias_map: TextMap::new() }
    }

    /// The replacement text of the alias `token`, if it is one.
    pub fn get_alias(&self, token: String) -> (r: Option<&String>)
        requires
            self.wf(),
        ensures
            match r {
                Some(v) => self@.contains_key(token@) && v@ == self@[token@],
                None => !self@.contains_key(token@),
            },
    {
        self.alias_map.get(token.as_str())
    }

    /// Defines the alias `token`; tells whether it replaced an earlier
    /// definition.
    pub fn update_alias(&mut self, token: String, alias: String) -> (r: bool)
        requires
            old(self).wf(),
        ensures
            final(self).wf(),
            final(self)@ == old(self)@.insert(token@, alias@),
            r == old(self)@.contains_key(token@),
    {
        self.alias_map.insert(token, alias)
    }
}

/// An error in the configuration.
#[derive(Debug)]
pub struct ConfigError {
    pub message: String,
}

/// A character that may stand in an alias name.
pub open spec fn is_name_char(c: char) -> bool {
    ('a' <= c && c <= 'z') || ('A' <= c && c <= 'Z') || c == '.'
}

/// A quote that opens or closes an alias's command.
pub open spec fn is_quote(c: char) -> bool {
    c == '"' || c == '\''
}

/// The first position at or after `i` that does not hold a name character.
pub open spec fn name_end(t: Seq<char>, i: int) -> int
    decreases t.len() - i,
{
    if i >= t.len() || i < 0 {
        t.len() as int
    } else if is_name_char(t[i]) {
        name_end(t, i + 1)
    } else {
        i
    }
}

/// The first position at or after `i` that does not hold a blank.
pub open spec fn blank_end(t: Seq<char>, i: int) -> int
    decreases t.len() - i,
{
    if i >= t.len() || i < 0 {
        t.len() as int
    } else if t[i] == ' ' {
        blank_end(t, i + 1)
    } else {
        i
    }
}

/// The last position in `[a, b)` that holds a quote, or -1.
pub open spec fn last_quote_before(t: Seq<char>, a: int, b: int) -> int
    decreases b - a,
{
    if b <= a {
        -1
    } else if is_quote(t[b - 1]) {
        b - 1
    } else {
        last_quote_before(t, a, b - 1)
    }
}

/// The alias that a (trimmed) line defines, if it is a definition:
/// `alias NAME = 'COMMAND'`, where the name is made of letters and dots,
/// blanks may stand around `=`, the command opens with a single or double
/// quote and runs to the last quote of the line.
pub open spec fn alias_definition(t: Seq<char>) -> Option<(Seq<char>, Seq<char>)> {
    let e1 = name_end(t, 6);
    let e2 = blank_end(t, e1);
    let e3 = blank_end(t, e2 + 1);
    let q = last_quote_before(t, e3 + 1, t.len() as int);
    if t.len() >= 6 && t.take(6) == "alias "@ && e1 > 6 && e2 < t.len() && t[e2] == '=' && e3
        < t.len() && is_quote(t[e3]) && q >= 0 {
        Some((t.subrange(6, e1), t.subrange(e3 + 1, q)))
    } else {
        None
    }
}

/// Reading the configuration lines `lines` in order: the aliases they
/// define, a later definition of a name replacing an earlier one, or the
/// position of the first line that is neither a definition, nor blank, nor
/// a comment (starting with `#`).
pub open spec fn read_aliases(lines: Seq<Seq<char>>) -> Result<Map<Seq<char>, Seq<char>>, nat>
    decreases lines.len(),
{
    if lines.len() == 0 {
        Ok(Map::empty())
    } else {
        match read_aliases(lines.drop_last()) {
            Err(i) => Err(i),
            Ok(m) => {
                let t = trim(lines.last());
                match alias_definition(t) {
                    Some((k, v)) => Ok(m.insert(k, v)),
                    None => if t.len() == 0 || t[0] == '#' {
                        Ok(m)
                    } else {
                        Err((lines.len() - 1) as nat)
                    },
                }
            },
        }
    }
}

proof fn lemma_name_end_bounds(t: Seq<char>, i: int)
    requires
        0 <= i <= t.len(),
    ensures
        i <= name_end(t, i) <= t.len(),
    decreases t.len() - i,
{
    if i < t.len() && is_name_char(t[i]) {
        lemma_name_end_bounds(t, i + 1);
    }
}

proof fn lemma_blank_end_bounds(t: Seq<char>, i: int)
    requires
        0 <= i <= t.len(),
    ensures
        i <= blank_end(t, i) <= t.len(),
    decreases t.len() - i,
{
    if i < t.len() && t[i] == ' ' {
        lemma_blank_end_bounds(t, i + 1);
    }
}

proof fn lemma_last_quote_before_bounds(t: Seq<char>, a: int, b: int)
    ensures
        last_quote_before(t, a, b) == -1 || (a <= last_quote_before(t, a, b) < b),
    decreases b - a,
{
    if b > a && !is_quote(t[b - 1]) {
        lemma_last_quote_before_bounds(t, a, b - 1);
    }
}

fn name_char(c: char) -> (r: bool)
    ensures
        r == is_name_char(c),
{
    ('a' <= c && c <= 'z') || ('A' <= c && c <= 'Z') || c == '.'
}

fn quote_char(c: char) -> (r: bool)
    ensures
        r == is_quote(c),
{
    c == '"' || c == '\''
}

fn name_end_of(t: &str, n: usize, i: usize) -> (r: usize)
    requires
        n == t@.len(),
        i <= n,
    ensures
        r == name_end(t@, i as int),
{
    let mut k = i;
    while k < n && name_char(t.get_char(k))
        invariant
            n == t@.len(),
            i <= k <= n,
            name_end(t@, i as int) == name_end(t@, k as int),
        decreases n - k,
    {
        k = k + 1;
    }
    k
}

fn blank_end_of(t: &str, n: usize, i: usize) -> (r: usize)
    requires
        n == t@.len(),
        i <= n,
    ensures
        r == blank_end(t@, i as int),
{
    let mut k = i;
    while k < n && t.get_char(k) == ' '
        invariant
            n == t@.len(),
            i <= k <= n,
            blank_end(t@, i as int) == blank_end(t@, k as int),
        decreases n - k,
    {
        k = k + 1;
    }
    k
}

/// Reads one trimmed configuration line as an alias definition.
pub fn parse_alias_line(t: &str) -> (r: Option<(String, String)>)
    ensures
        match alias_definition(t@) {
            Some((k, v)) => r matches Some((a, b)) && a@ == k && b@ == v,
            None => r is None,
        },
{
    let n = t.unicode_len();
    if n < 6 {
        return None;
    }
    let head = t.substring_char(0, 6);
    proof {
        reveal_strlit("alias ");
    }
    if !crate::text::same_text(head, "alias ") {
        return None;
    }
    let e1 = name_end_of(t, n, 6);
    proof {
        lemma_name_end_bounds(t@, 6);
    }
    if e1 == 6 {
        return None;
    }
    let e2 = blank_end_of(t, n, e1);
    proof {
        lemma_blank_end_bounds(t@, e1 as int);
    }
    if e2 >= n || t.get_char(e2) != '=' {
        return None;
    }
    let e3 = blank_end_of(t, n, e2 + 1);
    proof {
        lemma_blank_end_bounds(t@, e2 + 1);
    }
    if e3 >= n {
        return None;
    }
    if !quote_char(t.get_char(e3)) {
        return None;
    }
    let mut q = n;
    while q > e3 + 1 && !quote_char(t.get_char(q - 1))
        invariant
            n == t@.len(),
            e3 + 1 <= q <= n,
            last_quote_before(t@, e3 + 1, n as int) == last_quote_before(t@, e3 + 1, q as int),
        decreases q,
    {
        q = q - 1;
    }
    if q == e3 + 1 {
        return None;
    }
    let name = t.substring_char(6, e1).to_string();
    let command = t.substring_char(e3 + 1, q - 1).to_string();
    Some((name, command))
}

impl AliasSystem {
    /// Reads the aliases of a configuration text: one definition per line;
    /// blank lines and lines starting with `#` are skipped; any other line
    /// makes the whole text an error that names its line, counted from 0.
    pub fn from_config(contents: &str) -> (r: Result<AliasSystem, ConfigError>)
        ensures
            match read_aliases(split_on(contents@, '\n')) {
                Ok(m) => r matches Ok(a) && a.wf() && a@ == m,
                Err(i) => r matches Err(e) && e.message@ == "Error on line "@ + decimal(i),
            },
    {
        let lines = split_char(contents, '\n');
        let ghost ls = views(lines@);
        let mut table = AliasSystem::new();
        let mut i: usize = 0;
        proof {
            assert(ls.take(0) =~= seq![]);
        }
        while i < lines.len()
            invariant
                ls == views(lines@),
                ls == split_on(contents@, '\n'),
                0 <= i <= ls.len(),
                table.wf(),
                read_aliases(ls.take(i as int)) == Ok::<Map<Seq<char>, Seq<char>>, nat>(table@),
            decreases ls.len() - i,
        {
            proof {
                assert(ls.take(i + 1).drop_last() =~= ls.take(i as int));
                assert(ls.take(i + 1).last() == lines@[i as int]@);
            }
            let t = trim_str(lines[i].as_str());
            match parse_alias_line(t.as_str()) {
                Some((k, v)) => {
                    table.update_alias(k, v);
                },
                None => {
                    let n = t.as_str().unicode_len();
                    if !(n == 0 || t.as_str().get_char(0) == '#') {
                        proof {
                            let j = i + 1;
                            assert(read_aliases(ls.take(j)) == Err::<
                                Map<Seq<char>, Seq<char>>,
                                nat,
                            >(i as nat));
                            lemma_read_error_stays(ls, j, i as nat);
                        }
                        let mut message = String::from_str("Error on line ");
                        let number = decimal_text(i);
                        message.append(number.as_str());
                        return Err(ConfigError { message });
                    }
                },
            }
            i = i + 1;
        }
        proof {
            assert(ls.take(i as int) =~= ls);
        }
        Ok(table)
    }
}

proof fn lemma_read_error_stays(lines: Seq<Seq<char>>, j: int, e: nat)
    requires
        0 <= j <= lines.len(),
        read_aliases(lines.take(j)) == Err::<Map<Seq<char>, Seq<char>>, nat>(e),
    ensures
        read_aliases(lines) == Err::<Map<Seq<char>, Seq<char>>, nat>(e),
    decreases lines.len(),
{
    if lines.len() == j {
        assert(lines.take(j) =~= lines);
    } else {
        assert(lines.drop_last().take(j) =~= lines.take(j));
        lemma_read_error_stays(lines.drop_last(), j, e);
    }
}

} // verus!
