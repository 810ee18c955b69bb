//! The executable index: bare executable names mapped to absolute paths,
//! built from the directories of `PATH` in the order they are listed.
use vstd::prelude::*;
use crate::table::TextMap;
use crate::text::{split_char, split_on};
use crate::tokenizer::views;

verus! {

/// An error of the environment.
#[derive(Debug)]
pub struct EnvError {
    pub kind: String,
    pub message: String,
}

/// The directories listed in a `PATH` value, in order.
pub fn split_var_string(val: String) -> (r: Vec<String>)
    ensures
        views(r@) == split_on(val@, ':'),
{
    split_char(val.as_str(), ':')
}

/// The index that a scan yields from its candidates `(name, path)`, taken
/// in order: a name keeps the path of its first candidate.
pub open spec fn first_wins(c: Seq<(Seq<char>, Seq<char>)>) -> Map<Seq<char>, Seq<char>>
    decreases c.len(),
{
    if c.len() == 0 {
        Map::empty()
    } else {
        let m = first_wins(c.drop_last());
        if m.contains_key(c.last().0) {
            m
        } else {
            m.insert(c.last().0, c.last().1)
        }
    }
}

/// The views of candidate pairs.
pub open spec fn pair_views(v: Seq<(String, String)>) -> Seq<(Seq<char>, Seq<char>)> {
    v.map_values(|p: (String, String)| (p.0@, p.1@))
}

/// Whichever directories hold an executable of the same name, the index
/// resolves the name to the candidate met first, that is to the one of the
/// directory listed first; and it holds exactly the names of the candidates.
pub proof fn lemma_first_listed_wins(c: Seq<(Seq<char>, Seq<char>)>, i: int)
    requires
        0 <= i < c.len(),
        forall|j: int| 0 <= j < i ==> (#[trigger] c[j]).0 != c[i].0,
    ensures
        first_wins(c).contains_key(c[i].0),
        first_wins(c)[c[i].0] == c[i].1,
    decreases c.len(),
{
    lemma_first_wins_domain(c);
    if i < c.len() - 1 {
        let d = c.drop_last();
        assert forall|j: int| 0 <= j < i implies (#[trigger] d[j]).0 != d[i].0 by {
            assert(d[j] == c[j]);
        }
        lemma_first_listed_wins(d, i);
    } else {
        lemma_first_wins_domain(c.drop_last());
        if first_wins(c.drop_last()).contains_key(c[i].0) {
            let j = choose|j: int| 0 <= j < c.len() - 1 && (#[trigger] c.drop_last()[j]).0 == c[i].0;
            assert(c[j] == c.drop_last()[j]);
        }
    }
}

/// The index holds exactly the names of its candidates.
pub proof fn lemma_first_wins_domain(c: Seq<(Seq<char>, Seq<char>)>)
    ensures
        forall|k: Seq<char>|
            #[trigger] first_wins(c).contains_key(k) <==> exists|j: int|
                0 <= j < c.len() && (#[trigger] c[j]).0 == k,
    decreases c.len(),
{
    if c.len() > 0 {
        let d = c.drop_last();
        lemma_first_wins_domain(d);
        assert forall|k: Seq<char>| #[trigger] first_wins(c).contains_key(k) <==> exists|j: int|
            0 <= j < c.len() && (#[trigger] c[j]).0 == k by {
            let m = first_wins(d);
            assert(m.contains_key(k) ==> first_wins(c).contains_key(k));
            if k == c.last().0 {
                assert(c[c.len() - 1].0 == k);
            } else {
                assert(first_wins(c).contains_key(k) <==> m.contains_key(k));
                if m.contains_key(k) {
                    let j = choose|j: int| 0 <= j < d.len() && (#[trigger] d[j]).0 == k;
                    assert(c[j] == d[j]);
                }
                if exists|j: int| 0 <= j < c.len() && (#[trigger] c[j]).0 == k {
                    let j = choose|j: int| 0 <= j < c.len() && (#[trigger] c[j]).0 == k;
                    assert(d[j] == c[j]);
                    assert(m.contains_key(k));
                }
            }
        }
    }
}

/// The executable index.
pub struct EnvManager {
    env_vars: TextMap,
}

impl View for EnvManager {
    type V = Map<Seq<char>, Seq<char>>;

    closed spec fn view(&self) -> Map<Seq<char>, Seq<char>> {
        self.env_vars@
    }
}

impl EnvManager {
    pub closed spec fn wf(&self) -> bool {
        self.env_vars.wf()
    }

    /// An empty index.
    pub fn new() -> (r: EnvManager)
        ensures
            r.wf(),
            r@ == Map::<Seq<char>, Seq<char>>::empty(),
    {
        EnvManager { env_vars: TextMap::new() }
    }

    /// Adds an executable found by the scan, unless an earlier directory
    /// already gave one of that name; tells whether it was added.
    pub fn add_binary(&mut self, name: String, path: String) -> (r: bool)
        requires
            old(self).wf(),
        ensures
            final(self).wf(),
            r == !old(self)@.contains_key(name@),
            final(self)@ == if r {
                old(self)@.insert(name@, path@)
            } else {
                old(self)@
            },
    {
        self.env_vars.insert_if_absent(name, path)
    }

    /// The index of the candidates `(name, path)` of a scan, given in the
    /// order of the `PATH` directories.
    pub fn from_candidates(candidates: Vec<(String, String)>) -> (r: EnvManager)
        ensures
            r.wf(),
            r@ == first_wins(pair_views(candidates@)),
    {
        let ghost c = pair_views(candidates@);
        let mut r = EnvManager::new();
        let total = candidates.len();
        let mut rest = candidates;
        let mut i: usize = 0;
        proof {
            assert(c.take(0) =~= seq![]);
            assert(rest@ =~= candidates@.skip(0));
        }
        while rest.len() > 0
            invariant
                r.wf(),
                c == pair_views(candidates@),
                total == candidates@.len(),
                i + rest@.len() == total,
                rest@ == candidates@.skip(i as int),
                r@ == first_wins(c.take(i as int)),
            decreases rest@.len(),
        {
            let (name, path) = rest.remove(0);
            proof {
                assert(c.take(i + 1).drop_last() =~= c.take(i as int));
                assert(c.take(i + 1).last() == (name@, path@));
                assert(rest@ =~= candidates@.skip(i + 1));
            }
            r.add_binary(name, path);
            i = i + 1;
        }
        proof {
            assert(c.take(i as int) =~= c);
        }
        r
    }

    /// The absolute path that `command_name` resolves to.
    pub fn get_expanded(&self, command_name: String) -> (r: Option<&String>)
        requires
            self.wf(),
        ensures
            match r {
                Some(p) => self@.contains_key(command_name@) && p@ == self@[command_name@],
                None => !self@.contains_key(command_name@),
            },
    {
        self.env_vars.get(command_name.as_str())
    }

    /// Whether the index knows `command_name`.
    pub fn has_command(&self, command_name: &str) -> (r: bool)
        requires
            self.wf(),
        ensures
            r == self@.contains_key(command_name@),
    {
        self.env_vars.contains(command_name)
    }
}

} // verus!
