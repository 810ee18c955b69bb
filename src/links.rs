//! Following symbolic links while the executable index is scanned. The
//! scan reads the file system; each decision on what it read is made here,
//! and a bound on the number of links followed makes every walk end, also
//! on a cycle of links.
use vstd::prelude::*;

verus! {

/// The most links that one walk follows.
pub const MAX_LINK_HOPS: usize = 16;

/// What the file system shows at the path a walk stands on.
pub enum LinkProbe {
    /// A regular file, with its canonical absolute path.
    RegularFile(String),
    /// A symbolic link, with its target as written in the link.
    Link(String),
    /// Anything else: missing, unreadable, a directory.
    Unusable,
}

/// What a walk does next.
#[derive(Debug, PartialEq)]
pub enum LinkStep {
    /// The walk ends on a regular file with this canonical path.
    Resolved(String),
    /// Probe this path next.
    Follow(String),
    /// The walk ends without an executable.
    Dropped,
}

/// The position of the last `/` in `p`, or -1.
pub open spec fn last_slash(p: Seq<char>, j: int) -> int
    decreases j,
{
    if j <= 0 {
        -1
    } else if p[j - 1] == '/' {
        j - 1
    } else {
        last_slash(p, j - 1)
    }
}

/// The directory that holds the file at `p`: `p` up to its last `/`, or `.`
/// where it has none.
pub open spec fn parent_dir(p: Seq<char>) -> Seq<char> {
    let k = last_slash(p, p.len() as int);
    if k < 0 {
        seq!['.']
    } else {
        p.take(k)
    }
}

/// The path that a link at `path` with target `target` points to: an
/// absolute target as it is, a relative one under the link's directory.
pub open spec fn link_destination(path: Seq<char>, target: Seq<char>) -> Seq<char> {
    if target.len() > 0 && target[0] == '/' {
        target
    } else {
        parent_dir(path) + seq!['/'] + target
    }
}

/// The path that a link points to.
pub fn link_destination_of(path: &str, target: &str) -> (r: String)
    ensures
        r@ == link_destination(path@, target@),
{
    if target.unicode_len() > 0 && target.get_char(0) == '/' {
        return target.to_string();
    }
    let n = path.unicode_len();
    let mut j: usize = n;
    while j > 0 && path.get_char(j - 1) != '/'
        invariant
            n == path@.len(),
            0 <= j <= n,
            last_slash(path@, n as int) == last_slash(path@, j as int),
        decreases j,
    {
        j = j - 1;
    }
    let mut r = if j == 0 {
        String::from_str(".")
    } else {
        path.substring_char(0, j - 1).to_string()
    };
    proof {
        reveal_strlit(".");
        reveal_strlit("/");
        assert(seq!['.'] =~= "."@);
    }
    r.append("/");
    r.append(target);
    r
}

/// One decision of a walk that has followed `hops` links.
pub enum WalkMove {
    Resolved(Seq<char>),
    Follow,
    Dropped,
}

/// The decision on a probe after `hops` links: a regular file ends the
/// walk there, a link is followed while fewer than the most links have been,
/// and anything else drops the walk.
pub open spec fn walk_move(hops: nat, probe: LinkProbe) -> WalkMove {
    match probe {
        LinkProbe::RegularFile(c) => WalkMove::Resolved(c@),
        LinkProbe::Link(_) => if hops < MAX_LINK_HOPS {
            WalkMove::Follow
        } else {
            WalkMove::Dropped
        },
        LinkProbe::Unusable => WalkMove::Dropped,
    }
}

/// How a walk that has followed `hops` links ends on the probes `ps`:
/// `Some(Some(path))` on a file, `Some(None)` when dropped, `None` when the
/// probes run out first.
pub open spec fn walk_end(hops: nat, ps: Seq<LinkProbe>) -> Option<Option<Seq<char>>>
    decreases ps.len(),
{
    if ps.len() == 0 {
        None
    } else {
        match walk_move(hops, ps[0]) {
            WalkMove::Resolved(c) => Some(Some(c)),
            WalkMove::Dropped => Some(None),
            WalkMove::Follow => walk_end(hops + 1, ps.drop_first()),
        }
    }
}

/// A chain of at most `MAX_LINK_HOPS` links that ends on a regular file
/// resolves to that file's canonical path.
pub proof fn lemma_link_chain_resolves(hops: nat, ps: Seq<LinkProbe>, c: String)
    requires
        hops + ps.len() <= MAX_LINK_HOPS,
        forall|i: int| 0 <= i < ps.len() ==> (#[trigger] ps[i]) is Link,
    ensures
        walk_end(hops, ps.push(LinkProbe::RegularFile(c))) == Some(Some(c@)),
    decreases ps.len(),
{
    let qs = ps.push(LinkProbe::RegularFile(c));
    if ps.len() > 0 {
        assert(qs.drop_first() =~= ps.drop_first().push(LinkProbe::RegularFile(c)));
        assert(ps[0] is Link);
        lemma_link_chain_resolves(hops + 1, ps.drop_first(), c);
    }
}

/// A walk that keeps meeting links, as on a cycle of any length, is dropped
/// after at most `MAX_LINK_HOPS` of them.
pub proof fn lemma_link_cycle_dropped(hops: nat, ps: Seq<LinkProbe>)
    requires
        hops + ps.len() > MAX_LINK_HOPS,
        hops <= MAX_LINK_HOPS,
        forall|i: int| 0 <= i < ps.len() ==> (#[trigger] ps[i]) is Link,
    ensures
        walk_end(hops, ps) == Some(None::<Seq<char>>),
    decreases ps.len(),
{
    assert(ps[0] is Link);
    if hops < MAX_LINK_HOPS {
        lemma_link_cycle_dropped(hops + 1, ps.drop_first());
    }
}

/// A walk along symbolic links from one entry of a `PATH` directory.
pub struct LinkWalk {
    /// The path probed next.
    pub path: String,
    /// The links followed so far.
    pub hops: usize,
}

impl LinkWalk {
    /// A walk that starts at `path`.
    pub fn new(path: String) -> (r: LinkWalk)
        ensures
            r.path == path,
            r.hops == 0,
    {
        LinkWalk { path, hops: 0 }
    }

    /// Decides on what the file system showed at `self.path`.
    pub fn step(&mut self, probe: LinkProbe) -> (r: LinkStep)
        requires
            old(self).hops <= MAX_LINK_HOPS,
        ensures
            final(self).hops <= MAX_LINK_HOPS,
            match walk_move(old(self).hops as nat, probe) {
                WalkMove::Resolved(c) => r matches LinkStep::Resolved(p) && p@ == c
                    && *final(self) == *old(self),
                WalkMove::Dropped => r is Dropped && *final(self) == *old(self),
                WalkMove::Follow => r matches LinkStep::Follow(p) && probe matches LinkProbe::Link(t)
                    && p@ == link_destination(old(self).path@, t@) && final(self).path@ == p@
                    && final(self).hops == old(self).hops + 1,
            },
    {
        match probe {
            LinkProbe::RegularFile(c) => LinkStep::Resolved(c),
            LinkProbe::Unusable => LinkStep::Dropped,
            LinkProbe::Link(t) => {
                if self.hops < MAX_LINK_HOPS {
                    let next = link_destination_of(self.path.as_str(), t.as_str());
                    self.path = next.clone();
                    self.hops = self.hops + 1;
                    LinkStep::Follow(next)
                } else {
                    LinkStep::Dropped
                }
            },
        }
    }
}

} // verus!
