//! From an input line to resolved commands: strategy resolution, pipeline
//! building and alias expansion.
use vstd::prelude::*;
use crate::alias::AliasSystem;
use crate::command::{Command, CommandError, CommandView, ExecStrategy, PipeType, command_views};
use crate::env::EnvManager;
use crate::text::{same_text, starts_with_char, unquote, unquote_str};
use crate::tokenizer::{copy_strings, group_views, split_commands, split_commands_spec, views};

verus! {

/// The names of the builtin commands: change directory, two ways to quit,
/// print an environment variable, define an alias.
pub open spec fn is_builtin_name(name: Seq<char>) -> bool {
    name == "cd"@ || name == ":q"@ || name == "quit"@ || name == "penv"@ || name == "alias"@
}

/// Whether `name` is a builtin command.
pub fn is_builtin(name: &str) -> (r: bool)
    ensures
        r == is_builtin_name(name@),
{
    same_text(name, "cd") || same_text(name, ":q") || same_text(name, "quit") || same_text(
        name,
        "penv",
    ) || same_text(name, "alias")
}

/// How a command name is executed: a name beginning with `.` is a relative
/// path, one beginning with `/` an absolute path; then come the builtins,
/// then the executable index; anything else is undefined.
pub open spec fn strategy_of(name: Seq<char>, env: Map<Seq<char>, Seq<char>>) -> ExecStrategy {
    if name.len() > 0 && name[0] == '.' {
        ExecStrategy::SlashCommand
    } else if name.len() > 0 && name[0] == '/' {
        ExecStrategy::AbsolutePathCommand
    } else if is_builtin_name(name) {
        ExecStrategy::Builtin
    } else if env.contains_key(name) {
        ExecStrategy::PathCommand
    } else {
        ExecStrategy::Undefined
    }
}

/// The name a command runs under: the indexed path for a command found in
/// the index, the name as given otherwise.
pub open spec fn resolved_name(name: Seq<char>, env: Map<Seq<char>, Seq<char>>) -> Seq<char> {
    if strategy_of(name, env) == ExecStrategy::PathCommand {
        env[name]
    } else {
        name
    }
}

/// Whether `token` names a path relative to the working directory.
pub fn is_relative_command(token: &str) -> (r: bool)
    ensures
        r == (token@.len() > 0 && token@[0] == '.'),
{
    starts_with_char(token, '.')
}

/// Whether `token` names an absolute path.
pub fn is_absolute_path_command(token: &str) -> (r: bool)
    ensures
        r == (token@.len() > 0 && token@[0] == '/'),
{
    starts_with_char(token, '/')
}

/// Decides how `command_name` is to be executed.
pub fn define_command_strategy(command_name: &str, env_manager: &EnvManager) -> (r: ExecStrategy)
    requires
        env_manager.wf(),
    ensures
        r == strategy_of(command_name@, env_manager@),
{
    if is_relative_command(command_name) {
        ExecStrategy::SlashCommand
    } else if is_absolute_path_command(command_name) {
        ExecStrategy::AbsolutePathCommand
    } else if is_builtin(command_name) {
        ExecStrategy::Builtin
    } else if env_manager.has_command(command_name) {
        ExecStrategy::PathCommand
    } else {
        ExecStrategy::Undefined
    }
}

/// The tokens with their enclosing double quotes removed.
pub open spec fn unquoted(toks: Seq<Seq<char>>) -> Seq<Seq<char>> {
    toks.map_values(|t: Seq<char>| unquote(t))
}

/// The command that a non-empty token list stands for: the first token is
/// the name, resolved; the others, unquoted, are the arguments.
pub open spec fn command_of(
    tokens: Seq<Seq<char>>,
    env: Map<Seq<char>, Seq<char>>,
    role: PipeType,
) -> CommandView {
    CommandView {
        name: resolved_name(tokens[0], env),
        arguments: unquoted(tokens.drop_first()),
        strategy: strategy_of(tokens[0], env),
        pipe_type: role,
    }
}

/// Builds the command for a non-empty token list.
fn resolve_command(tokens: &Vec<String>, env_manager: &EnvManager, role: PipeType) -> (r: Command)
    requires
        env_manager.wf(),
        tokens@.len() > 0,
    ensures
        r@ == command_of(views(tokens@), env_manager@, role),
{
    let ghost toks = views(tokens@);
    let name = tokens[0].clone();
    let strategy = define_command_strategy(name.as_str(), env_manager);
    let command_name = if strategy == ExecStrategy::PathCommand {
        match env_manager.get_expanded(name) {
            Some(p) => p.clone(),
            None => String::new(),  // not reached: the index knows the name
        }
    } else {
        name
    };
    let mut arguments: Vec<String> = Vec::new();
    let mut i: usize = 1;
    while i < tokens.len()
        invariant
            toks == views(tokens@),
            1 <= i <= tokens@.len(),
            views(arguments@) == unquoted(toks.drop_first().take(i - 1)),
        decreases tokens@.len() - i,
    {
        let a = unquote_str(tokens[i].as_str());
        proof {
            assert(toks.drop_first().take(i as int) =~= toks.drop_first().take(i - 1).push(
                tokens@[i as int]@,
            ));
            assert(views(arguments@.push(a)) =~= views(arguments@).push(a@));
            assert(unquoted(toks.drop_first().take(i as int)) =~= unquoted(
                toks.drop_first().take(i - 1),
            ).push(unquote(tokens@[i as int]@)));
        }
        arguments.push(a);
        i = i + 1;
    }
    proof {
        assert(toks.drop_first().take(i - 1) =~= toks.drop_first());
    }
    Command { command_name, arguments, strategy, pipe_type: role }
}

/// The pieces of a token list between `|` tokens, empty pieces included.
pub open spec fn pipe_parts(toks: Seq<Seq<char>>) -> Seq<Seq<Seq<char>>>
    decreases toks.len(),
{
    if toks.len() == 0 {
        seq![seq![]]
    } else {
        let r = pipe_parts(toks.drop_last());
        if toks.last() == "|"@ {
            r.push(seq![])
        } else {
            r.update(r.len() - 1, r.last().push(toks.last()))
        }
    }
}

proof fn lemma_pipe_parts_nonempty(toks: Seq<Seq<char>>)
    ensures
        pipe_parts(toks).len() >= 1,
    decreases toks.len(),
{
    if toks.len() > 0 {
        lemma_pipe_parts_nonempty(toks.drop_last());
    }
}

/// The character views of a sequence of token lists.
pub open spec fn part_views(v: Seq<Vec<String>>) -> Seq<Seq<Seq<char>>> {
    v.map_values(|g: Vec<String>| views(g@))
}

/// Splits a token list at its `|` tokens.
pub fn split_pipe(raw_pipe_commands: Vec<String>) -> (r: Vec<Vec<String>>)
    ensures
        part_views(r@) == pipe_parts(views(raw_pipe_commands@)),
{
    let ghost toks = views(raw_pipe_commands@);
    let mut commands: Vec<Vec<String>> = Vec::new();
    let mut current: Vec<String> = Vec::new();
    let mut i: usize = 0;
    proof {
        assert(toks.take(0) =~= seq![]);
        assert(views(current@) =~= seq![]);
        assert(part_views(commands@) =~= seq![]);
        assert(part_views(commands@).push(views(current@)) =~= seq![seq![]]);
    }
    while i < raw_pipe_commands.len()
        invariant
            toks == views(raw_pipe_commands@),
            0 <= i <= toks.len(),
            pipe_parts(toks.take(i as int)) == part_views(commands@).push(views(current@)),
        decreases toks.len() - i,
    {
        let t = raw_pipe_commands[i].clone();
        proof {
            assert(toks.take(i + 1).drop_last() =~= toks.take(i as int));
            assert(toks.take(i + 1).last() == t@);
            lemma_pipe_parts_nonempty(toks.take(i as int));
        }
        if same_text(t.as_str(), "|") {
            proof {
                assert(part_views(commands@.push(current)) =~= part_views(commands@).push(
                    views(current@),
                ));
            }
            commands.push(current);
            current = Vec::new();
            proof {
                assert(views(current@) =~= seq![]);
            }
        } else {
            proof {
                assert(views(current@.push(t)) =~= views(current@).push(t@));
                assert(part_views(commands@).push(views(current@)).update(
                    commands@.len() as int,
                    views(current@).push(t@),
                ) =~= part_views(commands@).push(views(current@).push(t@)));
            }
            current.push(t);
        }
        i = i + 1;
    }
    proof {
        assert(toks.take(i as int) =~= toks);
        assert(part_views(commands@.push(current)) =~= part_views(commands@).push(views(current@)));
    }
    commands.push(current);
    commands
}

/// The role of the `k`-th of `n` stages: a single stage is no pipe at all.
pub open spec fn pipe_role(k: int, n: int) -> PipeType {
    if n < 2 {
        PipeType::Undefined
    } else if k == 0 {
        PipeType::PassesOutput
    } else if k == n - 1 {
        PipeType::ReceivesInput
    } else {
        PipeType::OutAndInput
    }
}

fn pipe_role_of(k: usize, n: usize) -> (r: PipeType)
    ensures
        r == pipe_role(k as int, n as int),
{
    if n < 2 {
        PipeType::Undefined
    } else if k == 0 {
        PipeType::PassesOutput
    } else if k == n - 1 {
        PipeType::ReceivesInput
    } else {
        PipeType::OutAndInput
    }
}

/// The non-empty pieces of a group split at its `|` tokens.
pub open spec fn pipe_stages(group: Seq<Seq<char>>) -> Seq<Seq<Seq<char>>> {
    pipe_parts(group).filter(|p: Seq<Seq<char>>| p.len() > 0)
}

/// The commands of a group that holds `|`: one per non-empty piece, each
/// tagged with its role in the chain.
pub open spec fn pipeline_of(group: Seq<Seq<char>>, env: Map<Seq<char>, Seq<char>>) -> Seq<
    CommandView,
> {
    let stages = pipe_stages(group);
    Seq::new(stages.len(), |k: int| command_of(stages[k], env, pipe_role(k, stages.len() as int)))
}

/// Builds the commands of a pipe chain from a group that holds `|`.
pub fn build_pipe_commands(command: Vec<String>, env_manager: &EnvManager) -> (r: Vec<Command>)
    requires
        env_manager.wf(),
    ensures
        command_views(r@) == pipeline_of(views(command@), env_manager@),
{
    let ghost group = views(command@);
    let parts = split_pipe(command);
    let ghost pv = part_views(parts@);
    let ghost pred = |p: Seq<Seq<char>>| p.len() > 0;
    let mut stages: Vec<usize> = Vec::new();
    let mut i: usize = 0;
    proof {
        reveal(Seq::filter);
        assert(pv.take(0) =~= seq![]);
    }
    while i < parts.len()
        invariant
            pv == part_views(parts@),
            pred == (|p: Seq<Seq<char>>| p.len() > 0),
            0 <= i <= pv.len(),
            stages@.map_values(|j: usize| pv[j as int]) == pv.take(i as int).filter(pred),
            forall|k: int| 0 <= k < stages@.len() ==> (#[trigger] stages@[k]) < pv.len(),
        decreases pv.len() - i,
    {
        proof {
            assert(pv.take(i + 1).drop_last() =~= pv.take(i as int));
            assert(pv.take(i + 1).last() == pv[i as int]);
            assert(pv[i as int] == views(parts@[i as int]@));
            reveal(Seq::filter);
            assert(pv.take(i + 1).filter(pred) == if pv[i as int].len() > 0 {
                pv.take(i as int).filter(pred).push(pv[i as int])
            } else {
                pv.take(i as int).filter(pred)
            });
        }
        if parts[i].len() > 0 {
            proof {
                assert(stages@.push(i).map_values(|j: usize| pv[j as int]) =~= stages@.map_values(
                    |j: usize| pv[j as int],
                ).push(pv[i as int]));
            }
            stages.push(i);
        }
        i = i + 1;
    }
    proof {
        assert(pv.take(i as int) =~= pv);
    }
    let ghost sv = pipe_stages(group);
    let n = stages.len();
    let mut commands: Vec<Command> = Vec::new();
    let mut k: usize = 0;
    while k < n
        invariant
            env_manager.wf(),
            pv == part_views(parts@),
            sv == pipe_stages(group),
            pv == pipe_parts(group),
            stages@.map_values(|j: usize| pv[j as int]) == sv,
            forall|k: int| 0 <= k < stages@.len() ==> (#[trigger] stages@[k]) < pv.len(),
            n == stages@.len(),
            0 <= k <= n,
            command_views(commands@) == Seq::new(
                k as nat,
                |j: int| command_of(sv[j], env_manager@, pipe_role(j, n as int)),
            ),
        decreases n - k,
    {
        let ghost j = stages@[k as int];
        assert(sv[k as int] == pv[j as int]);
        proof {
            lemma_stage_nonempty(group, k as int);
        }
        let role = pipe_role_of(k, n);
        let c = resolve_command(&parts[stages[k]], env_manager, role);
        proof {
            assert(views(parts@[j as int]@) == pv[j as int]);
            assert(command_views(commands@.push(c)) =~= command_views(commands@).push(c@));
            assert(command_views(commands@.push(c)) =~= Seq::new(
                (k + 1) as nat,
                |j: int| command_of(sv[j], env_manager@, pipe_role(j, n as int)),
            ));
        }
        commands.push(c);
        k = k + 1;
    }
    proof {
        assert(command_views(commands@) =~= pipeline_of(group, env_manager@));
    }
    commands
}

proof fn lemma_stage_nonempty(group: Seq<Seq<char>>, k: int)
    requires
        0 <= k < pipe_stages(group).len(),
    ensures
        pipe_stages(group)[k].len() > 0,
{
    let pred = |p: Seq<Seq<char>>| p.len() > 0;
    pipe_parts(group).lemma_filter_pred(pred, k);
}

/// The most nested alias expansions that one line may need.
pub const MAX_ALIAS_DEPTH: usize = 16;

/// The commands `cs` with `extra` (unquoted) appended to the arguments of
/// the last one.
pub open spec fn with_extra_arguments(cs: Seq<CommandView>, extra: Seq<Seq<char>>) -> Seq<
    CommandView,
> {
    if cs.len() == 0 {
        cs
    } else {
        cs.update(
            cs.len() - 1,
            CommandView {
                name: cs.last().name,
                arguments: cs.last().arguments + unquoted(extra),
                strategy: cs.last().strategy,
                pipe_type: cs.last().pipe_type,
            },
        )
    }
}

/// The commands of the groups `groups`, in order, or `None` where aliases
/// nest deeper than `fuel` expansions. A group that holds `|` is a pipe
/// chain. A group whose first token is an alias becomes the commands of the
/// alias's text, read as a line of its own, with the group's other tokens
/// appended to the arguments of the last of them. Any other group is one
/// command.
pub open spec fn expand_groups(
    groups: Seq<Seq<Seq<char>>>,
    aliases: Map<Seq<char>, Seq<char>>,
    env: Map<Seq<char>, Seq<char>>,
    fuel: nat,
) -> Option<Seq<CommandView>>
    decreases fuel, groups.len(),
{
    if groups.len() == 0 {
        Some(seq![])
    } else {
        match expand_groups(groups.drop_last(), aliases, env, fuel) {
            None => None,
            Some(prev) => {
                let g = groups.last();
                if g.len() == 0 {
                    Some(prev)
                } else if g.contains("|"@) {
                    Some(prev + pipeline_of(g, env))
                } else if aliases.contains_key(g[0]) {
                    if fuel == 0 {
                        None
                    } else {
                        match expand_groups(
                            split_commands_spec(aliases[g[0]]),
                            aliases,
                            env,
                            (fuel - 1) as nat,
                        ) {
                            None => None,
                            Some(sub) => Some(prev + with_extra_arguments(sub, g.drop_first())),
                        }
                    }
                } else {
                    Some(prev.push(command_of(g, env, PipeType::Undefined)))
                }
            },
        }
    }
}

proof fn lemma_expand_none_stays(
    groups: Seq<Seq<Seq<char>>>,
    j: int,
    aliases: Map<Seq<char>, Seq<char>>,
    env: Map<Seq<char>, Seq<char>>,
    fuel: nat,
)
    requires
        0 <= j <= groups.len(),
        expand_groups(groups.take(j), aliases, env, fuel) is None,
    ensures
        expand_groups(groups, aliases, env, fuel) is None,
    decreases groups.len(),
{
    if groups.len() == j {
        assert(groups.take(j) =~= groups);
    } else {
        assert(groups.drop_last().take(j) =~= groups.take(j));
        lemma_expand_none_stays(groups.drop_last(), j, aliases, env, fuel);
    }
}

/// Whether a group holds the token `|`.
fn contains_pipe(g: &Vec<String>) -> (r: bool)
    ensures
        r == views(g@).contains("|"@),
{
    let mut i: usize = 0;
    while i < g.len()
        invariant
            0 <= i <= g@.len(),
            forall|k: int| 0 <= k < i ==> (#[trigger] g@[k])@ != "|"@,
        decreases g@.len() - i,
    {
        if same_text(g[i].as_str(), "|") {
            assert(views(g@)[i as int] == "|"@);
            return true;
        }
        i = i + 1;
    }
    proof {
        if views(g@).contains("|"@) {
            let k = choose|k: int| 0 <= k < views(g@).len() && views(g@)[k] == "|"@;
            assert(g@[k]@ == "|"@);
        }
    }
    false
}

/// The tokens after the first, unquoted.
fn extra_arguments(g: &Vec<String>) -> (r: Vec<String>)
    requires
        g@.len() > 0,
    ensures
        views(r@) == unquoted(views(g@).drop_first()),
{
    let ghost rest = views(g@).drop_first();
    let mut r: Vec<String> = Vec::new();
    let mut i: usize = 1;
    while i < g.len()
        invariant
            rest == views(g@).drop_first(),
            1 <= i <= g@.len(),
            views(r@) == unquoted(rest.take(i - 1)),
        decreases g@.len() - i,
    {
        let a = unquote_str(g[i].as_str());
        proof {
            assert(rest.take(i as int) =~= rest.take(i - 1).push(g@[i as int]@));
            assert(views(r@.push(a)) =~= views(r@).push(a@));
            assert(unquoted(rest.take(i as int)) =~= unquoted(rest.take(i - 1)).push(a@));
        }
        r.push(a);
        i = i + 1;
    }
    proof {
        assert(rest.take(i - 1) =~= rest);
    }
    r
}

/// The commands of a line, with aliases expanded to at most `fuel` levels.
fn expand_line(line: &str, aliases: &AliasSystem, env_manager: &EnvManager, fuel: usize) -> (r:
    Option<Vec<Command>>)
    requires
        aliases.wf(),
        env_manager.wf(),
    ensures
        match r {
            Some(cs) => expand_groups(
                split_commands_spec(line@),
                aliases@,
                env_manager@,
                fuel as nat,
            ) == Some(command_views(cs@)),
            None => expand_groups(
                split_commands_spec(line@),
                aliases@,
                env_manager@,
                fuel as nat,
            ) is None,
        },
    decreases fuel,
{
    let groups = split_commands(line);
    let ghost gs = group_views(groups@);
    proof {
        assert(gs == split_commands_spec(line@));
    }
    let mut out: Vec<Command> = Vec::new();
    let mut i: usize = 0;
    proof {
        assert(gs.take(0) =~= seq![]);
        assert(command_views(out@) =~= seq![]);
    }
    while i < groups.len()
        invariant
            aliases.wf(),
            env_manager.wf(),
            gs == group_views(groups@),
            gs == split_commands_spec(line@),
            0 <= i <= gs.len(),
            expand_groups(gs.take(i as int), aliases@, env_manager@, fuel as nat) == Some(
                command_views(out@),
            ),
        decreases gs.len() - i,
    {
        let ghost g = gs[i as int];
        let ghost prev = command_views(out@);
        proof {
            assert(gs.take(i + 1).drop_last() =~= gs.take(i as int));
            assert(gs.take(i + 1).last() == g);
            assert(g == views(groups@[i as int]@));
        }
        if groups[i].len() == 0 {
        } else if contains_pipe(&groups[i]) {
            let mut p = build_pipe_commands(copy_strings(&groups[i]), env_manager);
            proof {
                assert(command_views(out@ + p@) =~= prev + command_views(p@));
            }
            out.append(&mut p);
        } else {
            match aliases.get_alias(groups[i][0].clone()) {
                Some(text) => {
                    if fuel == 0 {
                        proof {
                            lemma_expand_none_stays(gs, i + 1, aliases@, env_manager@, fuel as nat);
                        }
                        return None;
                    }
                    match expand_line(text.as_str(), aliases, env_manager, fuel - 1) {
                        None => {
                            proof {
                                lemma_expand_none_stays(
                                    gs,
                                    i + 1,
                                    aliases@,
                                    env_manager@,
                                    fuel as nat,
                                );
                            }
                            return None;
                        },
                        Some(sub) => {
                            let mut sub = sub;
                            let mut extra = extra_arguments(&groups[i]);
                            let ghost subv = command_views(sub@);
                            if sub.len() > 0 {
                                let mut last = sub.pop().unwrap();
                                let ghost lv = last@;
                                last.arguments.append(&mut extra);
                                proof {
                                    assert(views(last.arguments@) =~= lv.arguments + unquoted(
                                        g.drop_first(),
                                    ));
                                }
                                sub.push(last);
                            }
                            proof {
                                assert(command_views(sub@) =~= with_extra_arguments(
                                    subv,
                                    g.drop_first(),
                                ));
                                assert(command_views(out@ + sub@) =~= prev + command_views(sub@));
                            }
                            out.append(&mut sub);
                        },
                    }
                },
                None => {
                    let c = resolve_command(&groups[i], env_manager, PipeType::Undefined);
                    proof {
                        assert(command_views(out@.push(c)) =~= prev.push(c@));
                    }
                    out.push(c);
                },
            }
        }
        i = i + 1;
    }
    proof {
        assert(gs.take(i as int) =~= gs);
    }
    Some(out)
}

/// The commands of an input line, with aliases expanded; an alias that
/// keeps expanding, as on a cycle of aliases, is an error.
pub fn handle_commands(
    command_string: &str,
    aliases: &AliasSystem,
    env_manager: &EnvManager,
) -> (r: Result<Vec<Command>, CommandError>)
    requires
        aliases.wf(),
        env_manager.wf(),
    ensures
        match r {
            Ok(cs) => expand_groups(
                split_commands_spec(command_string@),
                aliases@,
                env_manager@,
                MAX_ALIAS_DEPTH as nat,
            ) == Some(command_views(cs@)),
            Err(e) => expand_groups(
                split_commands_spec(command_string@),
                aliases@,
                env_manager@,
                MAX_ALIAS_DEPTH as nat,
            ) is None && e.kind@ == "alias"@,
        },
{
    match expand_line(command_string, aliases, env_manager, MAX_ALIAS_DEPTH) {
        Some(cs) => Ok(cs),
        None => Err(
            CommandError {
                kind: String::from_str("alias"),
                message: String::from_str("alias expansion does not end: the aliases form a cycle"),
            },
        ),
    }
}

/// In the commands of a pipe chain, a lone command has no role; otherwise
/// the first passes its output on, the last receives input, and those in
/// between do both. Each keeps the tokens of its own piece, without `|`.
pub proof fn lemma_pipeline_roles(group: Seq<Seq<char>>, env: Map<Seq<char>, Seq<char>>)
    ensures
        pipeline_of(group, env).len() == pipe_stages(group).len(),
        pipeline_of(group, env).len() == 1 ==> pipeline_of(group, env)[0].pipe_type
            == PipeType::Undefined,
        pipeline_of(group, env).len() >= 2 ==> {
            let cs = pipeline_of(group, env);
            &&& cs[0].pipe_type == PipeType::PassesOutput
            &&& cs[cs.len() - 1].pipe_type == PipeType::ReceivesInput
            &&& forall|k: int| 0 < k < cs.len() - 1 ==> (#[trigger] cs[k]).pipe_type
                == PipeType::OutAndInput
        },
        forall|k: int|
            0 <= k < pipeline_of(group, env).len() ==> (#[trigger] pipeline_of(group, env)[k])
                == command_of(
                pipe_stages(group)[k],
                env,
                pipe_role(k, pipe_stages(group).len() as int),
            ) && pipe_stages(group)[k].len() > 0 && !pipe_stages(group)[k].contains("|"@),
{
    assert forall|k: int| 0 <= k < pipe_stages(group).len() implies pipe_stages(group)[k].len()
        > 0 && !pipe_stages(group)[k].contains("|"@) by {
        lemma_stage_nonempty(group, k);
        lemma_pipe_parts_no_bar(group);
        let pred = |p: Seq<Seq<char>>| p.len() > 0;
        let st = pipe_stages(group);
        assert(st.contains(st[k]));
        pipe_parts(group).lemma_filter_contains_rev(pred, st[k]);
    }
}

proof fn lemma_pipe_parts_no_bar(toks: Seq<Seq<char>>)
    ensures
        forall|p: Seq<Seq<char>>| #[trigger] pipe_parts(toks).contains(p) ==> !p.contains("|"@),
    decreases toks.len(),
{
    if toks.len() > 0 {
        let d = toks.drop_last();
        lemma_pipe_parts_no_bar(d);
        lemma_pipe_parts_nonempty(d);
        let r = pipe_parts(d);
        assert forall|p: Seq<Seq<char>>| #[trigger] pipe_parts(toks).contains(p) implies !p.contains(
            "|"@,
        ) by {
            let i = choose|i: int| 0 <= i < pipe_parts(toks).len() && pipe_parts(toks)[i] == p;
            if toks.last() == "|"@ {
                if i < r.len() {
                    assert(r.contains(r[i]));
                } else {
                    assert(p =~= seq![]);
                }
            } else if i < r.len() - 1 {
                assert(r.contains(r[i]));
            } else {
                assert(r.contains(r.last()));
                assert(!r.last().contains("|"@));
                assert(p == r.last().push(toks.last()));
                if p.contains("|"@) {
                    let j = choose|j: int| 0 <= j < p.len() && p[j] == "|"@;
                    if j < r.last().len() {
                        assert(r.last()[j] == "|"@);
                    }
                }
            }
        }
    }
}

} // verus!
