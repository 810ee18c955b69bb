//! Running resolved commands, group after group. The library decides what
//! is to be done and what follows from each outcome; the caller spawns,
//! wires and waits for the processes and runs the builtins.
use vstd::prelude::*;
use crate::command::{
    BuiltinError, Command, CommandError, CommandView, ExecStrategy, ExitStatus, PipeType,
    command_views,
};
use crate::tokenizer::views;

verus! {

/// Closes the pipe chain in progress, if any.
pub open spec fn close_chain(done: Seq<Seq<CommandView>>, open: Seq<CommandView>) -> Seq<
    Seq<CommandView>,
> {
    if open.len() > 0 {
        done.push(open)
    } else {
        done
    }
}

/// Scanning commands left to right: the groups closed so far, and the pipe
/// chain in progress.
pub open spec fn chain_scan(cs: Seq<CommandView>) -> (Seq<Seq<CommandView>>, Seq<CommandView>)
    decreases cs.len(),
{
    if cs.len() == 0 {
        (seq![], seq![])
    } else {
        let (done, open) = chain_scan(cs.drop_last());
        let c = cs.last();
        match c.pipe_type {
            PipeType::Undefined => (close_chain(done, open).push(seq![c]), seq![]),
            PipeType::PassesOutput => (close_chain(done, open), seq![c]),
            PipeType::OutAndInput => (done, open.push(c)),
            PipeType::ReceivesInput => (done.push(open.push(c)), seq![]),
        }
    }
}

/// The groups that run one after the other: each command outside a pipe
/// chain alone, and each pipe chain, from its first stage to its last,
/// together.
pub open spec fn exec_groups(cs: Seq<CommandView>) -> Seq<Seq<CommandView>> {
    let (done, open) = chain_scan(cs);
    close_chain(done, open)
}

/// One process of a group, with how its standard streams are wired.
pub struct Stage {
    pub program: String,
    pub arguments: Vec<String>,
    /// Standard input is the previous stage's standard output.
    pub stdin_from_previous: bool,
    /// Standard output is a pipe to the next stage.
    pub stdout_piped: bool,
}

/// What is to be done for one group.
pub enum GroupPlan {
    /// Run this builtin in the shell itself.
    Builtin(Command),
    /// Spawn these processes in order, then wait for the last one, whose
    /// exit code is the group's status, and reap every other one.
    Processes(Vec<Stage>),
    /// Spawn nothing: report this error.
    NotFound(CommandError),
}

/// What came of running a group's plan.
pub enum Outcome {
    /// Nothing was run.
    NotRun,
    /// The builtin, or the last process, finished with this exit code.
    Exited(i32),
    /// The builtin failed.
    BuiltinFailed(BuiltinError),
    /// The process of this stage could not be spawned; `missing` where its
    /// program does not exist.
    SpawnFailed { stage: usize, missing: bool },
    /// The exit status of the last process could not be had.
    WaitFailed,
}

/// The position of the first command of `g` with an undefined strategy, or
/// `g.len()`.
pub open spec fn first_undefined(g: Seq<CommandView>, k: int) -> int
    decreases g.len() - k,
{
    if k >= g.len() || k < 0 {
        g.len() as int
    } else if g[k].strategy == ExecStrategy::Undefined {
        k
    } else {
        first_undefined(g, k + 1)
    }
}

/// The message for a command that cannot be found.
pub open spec fn not_found_message(name: Seq<char>) -> Seq<char> {
    "Could not find command "@ + name
}

/// The message for a command whose process could not be started.
pub open spec fn spawn_failed_message(name: Seq<char>) -> Seq<char> {
    "Could not start command "@ + name
}

/// The stage that runs `c` as the `k`-th of `n` processes.
pub open spec fn stage_for(s: Stage, c: CommandView, k: int, n: int) -> bool {
    &&& s.program@ == c.name
    &&& views(s.arguments@) == c.arguments
    &&& s.stdin_from_previous == (k > 0)
    &&& s.stdout_piped == (k < n - 1)
}

/// The plan for a non-empty group: a lone builtin runs in the shell; a
/// group with an undefined command spawns nothing and reports the first
/// one as not found; any other group spawns one process per command, each
/// reading the output of the one before it.
pub open spec fn planned(p: GroupPlan, g: Seq<CommandView>) -> bool {
    if g.len() == 1 && g[0].strategy == ExecStrategy::Builtin {
        p matches GroupPlan::Builtin(c) && c@ == g[0]
    } else if first_undefined(g, 0) < g.len() {
        p matches GroupPlan::NotFound(e) && e.kind@ == "command_not_found"@ && e.message@
            == not_found_message(g[first_undefined(g, 0)].name)
    } else {
        p matches GroupPlan::Processes(st) && st@.len() == g.len() && forall|k: int|
            0 <= k < g.len() ==> stage_for(#[trigger] st@[k], g[k], k, g.len() as int)
    }
}

/// The views of a sequence of command groups.
pub open spec fn chain_views(v: Seq<Vec<Command>>) -> Seq<Seq<CommandView>> {
    v.map_values(|g: Vec<Command>| command_views(g@))
}

proof fn lemma_chain_scan_nonempty(cs: Seq<CommandView>)
    ensures
        forall|k: int|
            0 <= k < chain_scan(cs).0.len() ==> (#[trigger] chain_scan(cs).0[k]).len() > 0,
    decreases cs.len(),
{
    if cs.len() > 0 {
        lemma_chain_scan_nonempty(cs.drop_last());
        let (done, open) = chain_scan(cs.drop_last());
        let r = chain_scan(cs).0;
        assert forall|k: int| 0 <= k < r.len() implies (#[trigger] r[k]).len() > 0 by {
            if k < done.len() {
                assert(done[k].len() > 0);
                assert(close_chain(done, open)[k] == done[k]);
            }
        }
    }
}

/// Every group is non-empty.
pub proof fn lemma_exec_groups_nonempty(cs: Seq<CommandView>)
    ensures
        forall|k: int| 0 <= k < exec_groups(cs).len() ==> (#[trigger] exec_groups(cs)[k]).len() > 0,
{
    lemma_chain_scan_nonempty(cs);
}

fn close_open_chain(done: &mut Vec<Vec<Command>>, open: Vec<Command>)
    ensures
        chain_views(final(done)@) == close_chain(chain_views(old(done)@), command_views(open@)),
{
    if open.len() > 0 {
        proof {
            assert(chain_views(done@.push(open)) =~= chain_views(done@).push(command_views(open@)));
        }
        done.push(open);
    }
}

/// Splits commands into the groups that run one after the other.
pub fn group_commands(commands: &Vec<Command>) -> (r: Vec<Vec<Command>>)
    ensures
        chain_views(r@) == exec_groups(command_views(commands@)),
{
    let ghost cv = command_views(commands@);
    let mut done: Vec<Vec<Command>> = Vec::new();
    let mut open: Vec<Command> = Vec::new();
    let mut i: usize = 0;
    proof {
        assert(cv.take(0) =~= seq![]);
        assert(chain_views(done@) =~= seq![]);
        assert(command_views(open@) =~= seq![]);
    }
    while i < commands.len()
        invariant
            cv == command_views(commands@),
            0 <= i <= cv.len(),
            chain_scan(cv.take(i as int)) == (chain_views(done@), command_views(open@)),
        decreases cv.len() - i,
    {
        let c = commands[i].duplicate();
        let ghost d0 = chain_views(done@);
        let ghost o0 = command_views(open@);
        proof {
            assert(cv.take(i + 1).drop_last() =~= cv.take(i as int));
            assert(cv.take(i + 1).last() == c@);
            assert(chain_scan(cv.take(i + 1)).0 == match c.pipe_type {
                PipeType::Undefined => close_chain(d0, o0).push(seq![c@]),
                PipeType::PassesOutput => close_chain(d0, o0),
                PipeType::OutAndInput => d0,
                PipeType::ReceivesInput => d0.push(o0.push(c@)),
            });
        }
        match c.pipe_type {
            PipeType::Undefined => {
                close_open_chain(&mut done, open);
                let mut single: Vec<Command> = Vec::new();
                single.push(c);
                proof {
                    assert(command_views(single@) =~= seq![c@]);
                    assert(chain_views(done@.push(single)) =~= chain_views(done@).push(seq![c@]));
                }
                done.push(single);
                open = Vec::new();
            },
            PipeType::PassesOutput => {
                close_open_chain(&mut done, open);
                open = Vec::new();
                open.push(c);
            },
            PipeType::OutAndInput => {
                open.push(c);
            },
            PipeType::ReceivesInput => {
                open.push(c);
                proof {
                    assert(command_views(open@) =~= o0.push(c@));
                    assert(chain_views(done@.push(open)) =~= chain_views(done@).push(
                        command_views(open@),
                    ));
                }
                done.push(open);
                open = Vec::new();
            },
        }
        proof {
            assert(command_views(open@) =~= chain_scan(cv.take(i + 1)).1);
            assert(chain_views(done@) =~= chain_scan(cv.take(i + 1)).0);
        }
        i = i + 1;
    }
    proof {
        assert(cv.take(i as int) =~= cv);
    }
    close_open_chain(&mut done, open);
    done
}

/// The position of the first command of `group` with an undefined
/// strategy, or its length.
fn find_undefined(group: &Vec<Command>) -> (r: usize)
    ensures
        r as int == first_undefined(command_views(group@), 0),
{
    let ghost g = command_views(group@);
    let mut k: usize = 0;
    while k < group.len()
        invariant
            g == command_views(group@),
            0 <= k <= g.len(),
            first_undefined(g, 0) == first_undefined(g, k as int),
        decreases g.len() - k,
    {
        if group[k].strategy == ExecStrategy::Undefined {
            return k;
        }
        k = k + 1;
    }
    k
}

/// Decides what is to be done for a non-empty group.
pub fn plan_group(group: &Vec<Command>) -> (r: GroupPlan)
    requires
        group@.len() > 0,
    ensures
        planned(r, command_views(group@)),
{
    let ghost g = command_views(group@);
    let n = group.len();
    if n == 1 && group[0].strategy == ExecStrategy::Builtin {
        return GroupPlan::Builtin(group[0].duplicate());
    }
    let u = find_undefined(group);
    if u < n {
        let mut message = String::from_str("Could not find command ");
        message.append(group[u].command_name.as_str());
        return GroupPlan::NotFound(
            CommandError { kind: String::from_str("command_not_found"), message },
        );
    }
    let mut stages: Vec<Stage> = Vec::new();
    let mut k: usize = 0;
    while k < n
        invariant
            g == command_views(group@),
            n == g.len(),
            0 <= k <= n,
            stages@.len() == k,
            forall|j: int| 0 <= j < k ==> stage_for(#[trigger] stages@[j], g[j], j, n as int),
        decreases n - k,
    {
        let c = group[k].duplicate();
        let stage = Stage {
            program: c.command_name,
            arguments: c.arguments,
            stdin_from_previous: k > 0,
            stdout_piped: k < n - 1,
        };
        stages.push(stage);
        k = k + 1;
    }
    GroupPlan::Processes(stages)
}

/// `r` is an error of kind `kind`.
pub open spec fn reports_kind(r: Option<CommandError>, kind: Seq<char>) -> bool {
    r matches Some(x) && x.kind@ == kind
}

/// `r` is an error of kind `kind` with message `message`.
pub open spec fn reports(r: Option<CommandError>, kind: Seq<char>, message: Seq<char>) -> bool {
    r matches Some(x) && x.kind@ == kind && x.message@ == message
}

/// `r` is the error for a stage of plan `p` that could not be spawned: it
/// could not be found where `missing`, it could not be started otherwise.
pub open spec fn spawn_report(r: Option<CommandError>, p: GroupPlan, stage: usize, missing: bool) -> bool {
    let kind = if missing {
        "command_not_found"@
    } else {
        "spawn_failed"@
    };
    &&& reports_kind(r, kind)
    &&& match p {
        GroupPlan::Processes(st) => stage < st@.len() ==> reports(
            r,
            kind,
            if missing {
                not_found_message(st@[stage as int].program@)
            } else {
                spawn_failed_message(st@[stage as int].program@)
            },
        ),
        _ => true,
    }
}

/// The groups of a command line run in order, and the status of the last
/// one that finished. A group that fails is reported and leaves the status
/// as it was; the groups after it still run.
pub struct Executor {
    plans: Vec<GroupPlan>,
    groups: Ghost<Seq<Seq<CommandView>>>,
    next: usize,
    status: ExitStatus,
}

impl Executor {
    /// The groups, in the order they run.
    pub closed spec fn groups(&self) -> Seq<Seq<CommandView>> {
        self.groups@
    }

    /// The plan of the `k`-th group.
    pub closed spec fn plan(&self, k: int) -> GroupPlan {
        self.plans@[k]
    }

    /// The number of groups already run.
    pub closed spec fn ran(&self) -> int {
        self.next as int
    }

    /// The status of the last group that finished; -1 before any did.
    pub closed spec fn status_spec(&self) -> i32 {
        self.status.code
    }

    pub closed spec fn wf(&self) -> bool {
        &&& self.plans@.len() == self.groups@.len()
        &&& self.next <= self.plans@.len()
        &&& forall|k: int|
            0 <= k < self.plans@.len() ==> planned(#[trigger] self.plans@[k], self.groups@[k])
    }

    /// An executor for the commands of one line; no group has run yet.
    pub fn new(commands: &Vec<Command>) -> (r: Executor)
        ensures
            r.wf(),
            r.groups() == exec_groups(command_views(commands@)),
            r.ran() == 0,
            r.status_spec() == -1,
    {
        let groups = group_commands(commands);
        let ghost gv = chain_views(groups@);
        proof {
            lemma_exec_groups_nonempty(command_views(commands@));
        }
        let mut plans: Vec<GroupPlan> = Vec::new();
        let mut k: usize = 0;
        while k < groups.len()
            invariant
                gv == chain_views(groups@),
                gv == exec_groups(command_views(commands@)),
                forall|j: int| 0 <= j < gv.len() ==> (#[trigger] gv[j]).len() > 0,
                0 <= k <= gv.len(),
                plans@.len() == k,
                forall|j: int| 0 <= j < k ==> planned(#[trigger] plans@[j], gv[j]),
            decreases gv.len() - k,
        {
            assert(gv[k as int].len() > 0);
            let p = plan_group(&groups[k]);
            plans.push(p);
            k = k + 1;
        }
        Executor { plans, groups: Ghost(gv), next: 0, status: ExitStatus { code: -1 } }
    }

    /// Whether every group has run.
    pub fn is_done(&self) -> (r: bool)
        requires
            self.wf(),
        ensures
            r == (self.ran() == self.groups().len()),
    {
        self.next == self.plans.len()
    }

    /// The plan of the next group to run, if one is left.
    pub fn next_plan(&self) -> (r: Option<&GroupPlan>)
        requires
            self.wf(),
        ensures
            self.ran() < self.groups().len() ==> (r matches Some(p) && *p == self.plan(self.ran())
                && planned(*p, self.groups()[self.ran()])),
            self.ran() == self.groups().len() ==> r is None,
    {
        if self.next < self.plans.len() {
            Some(&self.plans[self.next])
        } else {
            None
        }
    }

    /// The status of the last group that finished; -1 before any did.
    pub fn status(&self) -> (r: ExitStatus)
        ensures
            r.code == self.status_spec(),
    {
        self.status
    }

    /// Takes the outcome of the next group's plan and moves on to the group
    /// after it. Returns the diagnostic to report, if the group failed.
    pub fn record(&mut self, outcome: Outcome) -> (r: Option<CommandError>)
        requires
            old(self).wf(),
            old(self).ran() < old(self).groups().len(),
        ensures
            final(self).wf(),
            final(self).groups() == old(self).groups(),
            forall|k: int|
                0 <= k < old(self).groups().len() ==> final(self).plan(k) == old(self).plan(k),
            final(self).ran() == old(self).ran() + 1,
            match old(self).plan(old(self).ran()) {
                GroupPlan::NotFound(e) => final(self).status_spec() == old(self).status_spec()
                    && reports(r, e.kind@, e.message@),
                _ => match outcome {
                    Outcome::NotRun => final(self).status_spec() == old(self).status_spec()
                        && r is None,
                    Outcome::Exited(code) => final(self).status_spec() == code && r is None,
                    Outcome::BuiltinFailed(e) => final(self).status_spec()
                        == old(self).status_spec() && reports(r, e.kind@, e.message@),
                    Outcome::SpawnFailed { stage, missing } => final(self).status_spec()
                        == old(self).status_spec() && spawn_report(
                        r,
                        old(self).plan(old(self).ran()),
                        stage,
                        missing,
                    ),
                    Outcome::WaitFailed => final(self).status_spec() == old(self).status_spec()
                        && reports_kind(r, "wait_failed"@),
                },
            },
    {
        let i = self.next;
        let n = self.plans.len();
        assert(i < n);
        self.next = i + 1;
        if let GroupPlan::NotFound(e) = &self.plans[i] {
            return Some(e.duplicate());
        }
        match outcome {
            Outcome::NotRun => None,
            Outcome::Exited(code) => {
                self.status = ExitStatus { code };
                None
            },
            Outcome::BuiltinFailed(e) => Some(CommandError::from(e)),
            Outcome::SpawnFailed { stage, missing } => {
                let mut message = if missing {
                    String::from_str("Could not find command ")
                } else {
                    String::from_str("Could not start command ")
                };
                if let GroupPlan::Processes(st) = &self.plans[i] {
                    if stage < st.len() {
                        message.append(st[stage].program.as_str());
                    }
                }
                let kind = if missing {
                    String::from_str("command_not_found")
                } else {
                    String::from_str("spawn_failed")
                };
                Some(CommandError { kind, message })
            },
            Outcome::WaitFailed => Some(
                CommandError {
                    kind: String::from_str("wait_failed"),
                    message: String::from_str("Could not get the exit code of the process"),
                },
            ),
        }
    }
}

} // verus!
