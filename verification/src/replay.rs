//! Laws of evaluation: how far an evaluation can go, and what it does not
//! depend on.

use vstd::prelude::*;
use crate::ast::{ExprView, Operator, RedirectView};
use crate::host::{fits, ActionView, OutcomeView, ReplyView, Sink, Source};
use crate::utils::program_path_of;
use crate::semantics::{
    null_device,
    piped_input,
    ask,
    change_directory,
    choose_input,
    choose_sink,
    execute_command,
    give_up,
    release,
    set_variable,
    drain,
    eval_drained,
    eval_expr,
    execute,
    outcome,
    Pause,
    Progress,
    RunView,
};

verus! {

/// The number of replies that have been taken when a step ends or pauses.
pub open spec fn reached(progress: Progress<RunView>) -> int {
    match progress {
        Ok(st) => st.used,
        Err(pause) => pause.used,
    }
}

/// The greatest number of replies that the evaluation of `node` can take.
pub open spec fn budget(node: ExprView) -> nat
    decreases node,
{
    match node {
        ExprView::Cmd { .. } => 6,
        ExprView::Binary(left, _, right) => budget(*left) + budget(*right) + 2,
        ExprView::If(condition, then) => budget(*condition) + budget(*then) + 1,
        ExprView::IfElse(condition, then, otherwise) => budget(*condition) + budget(*then)
            + budget(*otherwise) + 1,
    }
}

/// Whether a step that started with `used` replies taken stayed within
/// `limit` more: it took no more than that many if it ended, and fewer if it
/// pauses.
pub open spec fn within(progress: Progress<RunView>, used: int, limit: nat) -> bool {
    match progress {
        Ok(st) => used <= st.used <= used + limit,
        Err(pause) => used <= pause.used < used + limit,
    }
}

/// A command takes at most six replies.
pub proof fn lemma_execute_bounded(
    dir: Seq<char>,
    log: Seq<ReplyView>,
    st: RunView,
    name: Seq<char>,
    arguments: Seq<Seq<char>>,
    redirect: RedirectView,
)
    ensures
        within(execute(dir, log, st, name, arguments, redirect), st.used, 6),
{
}

/// A command takes no reply that the log does not hold.
pub proof fn lemma_execute_inside(
    dir: Seq<char>,
    log: Seq<ReplyView>,
    st: RunView,
    name: Seq<char>,
    arguments: Seq<Seq<char>>,
    redirect: RedirectView,
)
    requires
        st.used <= log.len(),
    ensures
        reached(execute(dir, log, st, name, arguments, redirect)) <= log.len(),
{
}

/// The evaluation of an expression takes no more replies than its budget,
/// and one more at most with the reading after it. It takes no reply that
/// the log does not hold.
pub proof fn lemma_bounded(dir: Seq<char>, log: Seq<ReplyView>, st: RunView, node: ExprView)
    ensures
        within(eval_expr(dir, log, st, node), st.used, budget(node)),
        within(eval_drained(dir, log, st, node), st.used, budget(node) + 1),
        st.used <= log.len() ==> reached(eval_expr(dir, log, st, node)) <= log.len(),
        st.used <= log.len() ==> reached(eval_drained(dir, log, st, node)) <= log.len(),
    decreases node,
{
    match node {
        ExprView::Cmd { name, arguments, redirect } => {
            lemma_execute_bounded(dir, log, st, name, arguments, redirect);
            if st.used <= log.len() {
                lemma_execute_inside(dir, log, st, name, arguments, redirect);
            }
        },
        ExprView::Binary(left, op, right) => {
            lemma_bounded(dir, log, st, *left);
            if op == Operator::Pipe {
                if let Ok(after_left) = eval_expr(dir, log, st, *left) {
                    if let Ok(read) = drain(log, after_left, true, false) {
                        lemma_bounded(dir, log, RunView { piped: true, ..read }, *right);
                    }
                }
            } else if let Ok(after_left) = eval_drained(dir, log, st, *left) {
                lemma_bounded(dir, log, after_left, *right);
                lemma_bounded(dir, log, after_left.without_flag(st.flags.len()), *right);
            }
        },
        ExprView::If(condition, then) => {
            lemma_bounded(dir, log, st, *condition);
            if let Ok(decided) = eval_drained(dir, log, st, *condition) {
                lemma_bounded(dir, log, decided.without_flag(st.flags.len()), *then);
            }
        },
        ExprView::IfElse(condition, then, otherwise) => {
            lemma_bounded(dir, log, st, *condition);
            if let Ok(decided) = eval_drained(dir, log, st, *condition) {
                lemma_bounded(dir, log, decided.without_flag(st.flags.len()), *then);
                lemma_bounded(dir, log, decided.without_flag(st.flags.len()), *otherwise);
            }
        },
    }
}

/// An evaluation takes at most one reply more than the budget of its
/// expression, and fewer as long as it is not over. It takes no reply that
/// the log does not hold.
pub proof fn lemma_outcome_bounded(dir: Seq<char>, log: Seq<ReplyView>, ast: ExprView)
    ensures
        0 <= outcome(dir, log, ast).used <= budget(ast) + 1,
        !(outcome(dir, log, ast).action is Finish) ==> outcome(dir, log, ast).used <= budget(ast),
        outcome(dir, log, ast).used <= log.len(),
{
    lemma_bounded(dir, log, RunView::start(), ast);
}

/// Whether the logs `a` and `b` hold the same reply at `i`, or both none.
pub open spec fn same_at(a: Seq<ReplyView>, b: Seq<ReplyView>, i: int) -> bool {
    (i < a.len()) == (i < b.len()) && (i < a.len() ==> a[i] == b[i])
}

/// Whether the logs `a` and `b` hold the same first `k` replies.
pub open spec fn same_until(a: Seq<ReplyView>, b: Seq<ReplyView>, k: int) -> bool {
    forall|i: int|
        #![trigger same_at(a, b, i)]
        #![trigger a[i]]
        #![trigger b[i]]
        0 <= i < k ==> same_at(a, b, i)
}

/// What a step gives with the log `b`, seen from what it gives with a log
/// that holds the same replies as far as the step got with it: the same, if
/// the step ended; if it pauses, the same unless `b` holds an answer to the
/// action, and then the step gets further.
pub open spec fn follows(first: Progress<RunView>, second: Progress<RunView>, b: Seq<ReplyView>)
    -> bool {
    match first {
        Ok(_) => second == first,
        Err(pause) => if 0 <= pause.used < b.len() && fits(pause.action, b[pause.used]) {
            reached(second) > pause.used
        } else {
            second == first
        },
    }
}

/// The number of replies that have been taken when a step that gives a
/// value ends or pauses.
pub open spec fn reached_with<T>(progress: Progress<(T, RunView)>) -> int {
    match progress {
        Ok((_, st)) => st.used,
        Err(pause) => pause.used,
    }
}

/// [`follows`] for a step that gives a value.
pub open spec fn follows_with<T>(
    first: Progress<(T, RunView)>,
    second: Progress<(T, RunView)>,
    b: Seq<ReplyView>,
) -> bool {
    match first {
        Ok(_) => second == first,
        Err(pause) => if 0 <= pause.used < b.len() && fits(pause.action, b[pause.used]) {
            reached_with(second) > pause.used
        } else {
            second == first
        },
    }
}

proof fn lemma_ask_stable(a: Seq<ReplyView>, b: Seq<ReplyView>, st: RunView, action: ActionView)
    requires
        same_until(a, b, reached_with(ask(a, st, action))),
    ensures
        follows_with(ask(a, st, action), ask(b, st, action), b),
        st.used <= reached_with(ask(a, st, action)) <= st.used + 1,
{
}

proof fn lemma_drain_stable(
    a: Seq<ReplyView>,
    b: Seq<ReplyView>,
    st: RunView,
    error: bool,
    output: bool,
)
    requires
        same_until(a, b, reached(drain(a, st, error, output))),
    ensures
        follows(drain(a, st, error, output), drain(b, st, error, output), b),
{
}

proof fn lemma_release_stable(
    a: Seq<ReplyView>,
    b: Seq<ReplyView>,
    st: RunView,
    error: bool,
    output: bool,
)
    requires
        same_until(a, b, reached(release(a, st, error, output))),
    ensures
        follows(release(a, st, error, output), release(b, st, error, output), b),
{
}

proof fn lemma_give_up_stable(a: Seq<ReplyView>, b: Seq<ReplyView>, st: RunView, input: Source)
    requires
        same_until(a, b, reached(give_up(a, st, input))),
    ensures
        follows(give_up(a, st, input), give_up(b, st, input), b),
{
}

proof fn lemma_choose_sink_stable(
    a: Seq<ReplyView>,
    b: Seq<ReplyView>,
    st: RunView,
    error: bool,
    file: Option<Seq<char>>,
)
    requires
        same_until(a, b, reached_with(choose_sink(a, st, error, file))),
    ensures
        follows_with(choose_sink(a, st, error, file), choose_sink(b, st, error, file), b),
{
}

proof fn lemma_choose_input_stable(
    a: Seq<ReplyView>,
    b: Seq<ReplyView>,
    st: RunView,
    input: Source,
    file: Option<Seq<char>>,
)
    requires
        same_until(a, b, reached_with(choose_input(a, st, input, file))),
    ensures
        follows_with(choose_input(a, st, input, file), choose_input(b, st, input, file), b),
{
}

proof fn lemma_change_directory_stable(
    a: Seq<ReplyView>,
    b: Seq<ReplyView>,
    st: RunView,
    arguments: Seq<Seq<char>>,
)
    requires
        same_until(a, b, reached(change_directory(a, st, arguments))),
    ensures
        follows(change_directory(a, st, arguments), change_directory(b, st, arguments), b),
{
}

proof fn lemma_set_variable_stable(
    a: Seq<ReplyView>,
    b: Seq<ReplyView>,
    st: RunView,
    arguments: Seq<Seq<char>>,
)
    requires
        same_until(a, b, reached(set_variable(a, st, arguments))),
    ensures
        follows(set_variable(a, st, arguments), set_variable(b, st, arguments), b),
{
}

proof fn lemma_execute_command_stable(
    dir: Seq<char>,
    a: Seq<ReplyView>,
    b: Seq<ReplyView>,
    st: RunView,
    name: Seq<char>,
    arguments: Seq<Seq<char>>,
    redirect: RedirectView,
)
    requires
        same_until(a, b, reached(execute_command(dir, a, st, name, arguments, redirect))),
    ensures
        follows(
            execute_command(dir, a, st, name, arguments, redirect),
            execute_command(dir, b, st, name, arguments, redirect),
            b,
        ),
{
    let program = program_path_of(dir, name);
    let (input, st) = piped_input(st);
    lemma_choose_input_stable(a, b, st, input, redirect.stdin);
    if let Ok((stdin, st)) = choose_input(a, st, input, redirect.stdin) {
        lemma_choose_sink_stable(a, b, st, false, redirect.stdout);
        if let Ok((stdout, st)) = choose_sink(a, st, false, redirect.stdout) {
            lemma_choose_sink_stable(a, b, st, true, redirect.stderr);
            if let Ok((stderr, st)) = choose_sink(a, st, true, redirect.stderr) {
                lemma_ask_stable(
                    a,
                    b,
                    st,
                    ActionView::Spawn { program, arguments, stdin, stdout, stderr },
                );
            }
        }
    }
}

/// A command depends on the replies that it takes and on no others.
pub proof fn lemma_execute_stable(
    dir: Seq<char>,
    a: Seq<ReplyView>,
    b: Seq<ReplyView>,
    st: RunView,
    name: Seq<char>,
    arguments: Seq<Seq<char>>,
    redirect: RedirectView,
)
    requires
        same_until(a, b, reached(execute(dir, a, st, name, arguments, redirect))),
    ensures
        follows(
            execute(dir, a, st, name, arguments, redirect),
            execute(dir, b, st, name, arguments, redirect),
            b,
        ),
{
    if name == "cd"@ {
        lemma_change_directory_stable(a, b, st, arguments);
    } else if name != "exit"@ {
        if name == "set"@ {
            lemma_set_variable_stable(a, b, st, arguments);
        } else if name == "clear"@ {
            lemma_ask_stable(a, b, st, ActionView::Clear);
        } else {
            lemma_execute_command_stable(dir, a, b, st, name, arguments, redirect);
        }
    }
}

/// The evaluation of an expression, with the reading after it, depends on
/// the replies that it takes and on no others.
pub proof fn lemma_eval_drained_stable(
    dir: Seq<char>,
    a: Seq<ReplyView>,
    b: Seq<ReplyView>,
    st: RunView,
    node: ExprView,
)
    requires
        same_until(a, b, reached(eval_drained(dir, a, st, node))),
    ensures
        follows(eval_drained(dir, a, st, node), eval_drained(dir, b, st, node), b),
    decreases node, 2nat,
{
    lemma_bounded(dir, a, st, node);
    lemma_bounded(dir, b, st, node);
    lemma_eval_stable(dir, a, b, st, node);
    if let Ok(after) = eval_expr(dir, a, st, node) {
        lemma_drain_stable(a, b, after, true, true);
    }
}

/// The first `j` replies are the same if the first `k` are and `j` is not
/// greater than `k`.
proof fn lemma_same_until_less(a: Seq<ReplyView>, b: Seq<ReplyView>, k: int, j: int)
    requires
        same_until(a, b, k),
        j <= k,
    ensures
        same_until(a, b, j),
{
}

/// [`lemma_eval_stable`] for a pipe.
proof fn lemma_pipe_stable(
    dir: Seq<char>,
    a: Seq<ReplyView>,
    b: Seq<ReplyView>,
    st: RunView,
    node: ExprView,
    left: ExprView,
    right: ExprView,
)
    requires
        node == ExprView::Binary(Box::new(left), Operator::Pipe, Box::new(right)),
        same_until(a, b, reached(eval_expr(dir, a, st, node))),
    ensures
        follows(eval_expr(dir, a, st, node), eval_expr(dir, b, st, node), b),
    decreases node, 0nat,
{
    let whole = eval_expr(dir, a, st, node);
    let first = eval_expr(dir, a, st, left);
    let second = eval_expr(dir, b, st, left);
    lemma_bounded(dir, a, st, left);
    lemma_bounded(dir, b, st, left);
    if let Ok(after) = second {
        if let Ok(read) = drain(b, after, true, false) {
            lemma_bounded(dir, b, RunView { piped: true, ..read }, right);
        }
    }
    match first {
        Err(pause) => {
            lemma_eval_stable(dir, a, b, st, left);
        },
        Ok(after) => {
            let read = drain(a, after, true, false);
            match read {
                Err(pause) => {
                    lemma_same_until_less(a, b, reached(whole), after.used);
                    lemma_eval_stable(dir, a, b, st, left);
                    lemma_drain_stable(a, b, after, true, false);
                },
                Ok(read) => {
                    let piped = RunView { piped: true, ..read };
                    lemma_bounded(dir, a, piped, right);
                    lemma_same_until_less(a, b, reached(whole), after.used);
                    lemma_same_until_less(a, b, reached(whole), read.used);
                    lemma_eval_stable(dir, a, b, st, left);
                    lemma_drain_stable(a, b, after, true, false);
                    lemma_eval_stable(dir, a, b, piped, right);
                },
            }
        },
    }
}

/// The state in which the right side of an operator that is no pipe
/// starts, given the state after the left side and the number of success
/// flags before it; `None` if the right side does not run.
pub open spec fn right_start(op: Operator, depth: nat, after_left: RunView) -> Option<RunView> {
    match op {
        Operator::Next => Some(after_left),
        Operator::NextIfSuccess => if after_left.succeeded(depth) {
            Some(after_left)
        } else {
            None
        },
        _ => Some(after_left.without_flag(depth)),
    }
}

/// [`lemma_eval_stable`] for `;`, `&`, `&&` and `||`.
proof fn lemma_sequence_stable(
    dir: Seq<char>,
    a: Seq<ReplyView>,
    b: Seq<ReplyView>,
    st: RunView,
    node: ExprView,
    left: ExprView,
    op: Operator,
    right: ExprView,
)
    requires
        node == ExprView::Binary(Box::new(left), op, Box::new(right)),
        op != Operator::Pipe,
        same_until(a, b, reached(eval_expr(dir, a, st, node))),
    ensures
        follows(eval_expr(dir, a, st, node), eval_expr(dir, b, st, node), b),
    decreases node, 0nat,
{
    let whole = eval_expr(dir, a, st, node);
    let first = eval_drained(dir, a, st, left);
    let second = eval_drained(dir, b, st, left);
    lemma_bounded(dir, a, st, left);
    lemma_bounded(dir, b, st, left);
    if let Ok(after) = second {
        if let Some(start) = right_start(op, st.flags.len(), after) {
            lemma_bounded(dir, b, start, right);
        }
    }
    match first {
        Err(pause) => {
            lemma_eval_drained_stable(dir, a, b, st, left);
        },
        Ok(after) => {
            match right_start(op, st.flags.len(), after) {
                None => {
                    lemma_eval_drained_stable(dir, a, b, st, left);
                },
                Some(start) => {
                    lemma_bounded(dir, a, start, right);
                    lemma_same_until_less(a, b, reached(whole), after.used);
                    lemma_eval_drained_stable(dir, a, b, st, left);
                    lemma_eval_drained_stable(dir, a, b, start, right);
                },
            }
        },
    }
}

/// [`lemma_eval_stable`] for `if`, with and without a second branch.
proof fn lemma_if_stable(
    dir: Seq<char>,
    a: Seq<ReplyView>,
    b: Seq<ReplyView>,
    st: RunView,
    node: ExprView,
    condition: ExprView,
    then: ExprView,
    otherwise: Option<ExprView>,
)
    requires
        node == match otherwise {
            Some(otherwise) => ExprView::IfElse(
                Box::new(condition),
                Box::new(then),
                Box::new(otherwise),
            ),
            None => ExprView::If(Box::new(condition), Box::new(then)),
        },
        same_until(a, b, reached(eval_expr(dir, a, st, node))),
    ensures
        follows(eval_expr(dir, a, st, node), eval_expr(dir, b, st, node), b),
    decreases node, 0nat,
{
    let whole = eval_expr(dir, a, st, node);
    let first = eval_drained(dir, a, st, condition);
    let second = eval_drained(dir, b, st, condition);
    lemma_bounded(dir, a, st, condition);
    lemma_bounded(dir, b, st, condition);
    if let Ok(decided) = second {
        lemma_bounded(dir, b, decided.without_flag(st.flags.len()), then);
        if let Some(otherwise) = otherwise {
            lemma_bounded(dir, b, decided.without_flag(st.flags.len()), otherwise);
        }
    }
    match first {
        Err(pause) => {
            lemma_eval_drained_stable(dir, a, b, st, condition);
        },
        Ok(decided) => {
            let start = decided.without_flag(st.flags.len());
            lemma_bounded(dir, a, start, then);
            if let Some(otherwise) = otherwise {
                lemma_bounded(dir, a, start, otherwise);
            }
            lemma_same_until_less(a, b, reached(whole), decided.used);
            lemma_eval_drained_stable(dir, a, b, st, condition);
            if decided.succeeded(st.flags.len()) {
                lemma_eval_stable(dir, a, b, start, then);
            } else if let Some(otherwise) = otherwise {
                lemma_eval_stable(dir, a, b, start, otherwise);
            }
        },
    }
}

/// The evaluation of an expression depends on the replies that it takes
/// and on no others: with a log that holds the same replies as far as the
/// evaluation got, it gives the same, unless it pauses and the other log
/// holds an answer to the action, and then it gets further.
pub proof fn lemma_eval_stable(
    dir: Seq<char>,
    a: Seq<ReplyView>,
    b: Seq<ReplyView>,
    st: RunView,
    node: ExprView,
)
    requires
        same_until(a, b, reached(eval_expr(dir, a, st, node))),
    ensures
        follows(eval_expr(dir, a, st, node), eval_expr(dir, b, st, node), b),
    decreases node, 1nat,
{
    match node {
        ExprView::Cmd { name, arguments, redirect } => {
            lemma_execute_stable(dir, a, b, st, name, arguments, redirect);
        },
        ExprView::Binary(left, op, right) => {
            if op == Operator::Pipe {
                lemma_pipe_stable(dir, a, b, st, node, *left, *right);
            } else {
                lemma_sequence_stable(dir, a, b, st, node, *left, op, *right);
            }
        },
        ExprView::If(condition, then) => {
            lemma_if_stable(dir, a, b, st, node, *condition, *then, None);
        },
        ExprView::IfElse(condition, then, otherwise) => {
            lemma_if_stable(dir, a, b, st, node, *condition, *then, Some(*otherwise));
        },
    }
}

/// An evaluation depends on the replies that it has taken and on no
/// others. With a log that holds the same replies as far as the evaluation
/// got, it stands where it stood, unless the other log holds an answer to
/// the action that it asks for, and then it has taken more replies.
pub proof fn lemma_outcome_stable(
    dir: Seq<char>,
    a: Seq<ReplyView>,
    b: Seq<ReplyView>,
    ast: ExprView,
)
    requires
        same_until(a, b, outcome(dir, a, ast).used),
    ensures
        ({
            let first = outcome(dir, a, ast);
            let second = outcome(dir, b, ast);
            if 0 <= first.used < b.len() && fits(first.action, b[first.used]) {
                second.used > first.used
            } else {
                second == first
            }
        }),
{
    lemma_eval_drained_stable(dir, a, b, RunView::start(), ast);
}

/// Whether the log `after` is the log `before` with answers of the file
/// system behind it.
pub open spec fn probed(before: Seq<ReplyView>, after: Seq<ReplyView>) -> bool {
    &&& before.len() <= after.len()
    &&& after.take(before.len() as int) == before
    &&& forall|i: int| before.len() <= i < after.len() ==> #[trigger] after[i] is Found
}

/// A reply that answers the action at which an evaluation stands is taken;
/// any other reply leaves the evaluation where it stands.
pub proof fn lemma_reply_taken(
    dir: Seq<char>,
    log: Seq<ReplyView>,
    reply: ReplyView,
    ast: ExprView,
)
    requires
        outcome(dir, log, ast).used == log.len(),
    ensures
        fits(outcome(dir, log, ast).action, reply) ==> outcome(dir, log.push(reply), ast).used
            == log.len() + 1,
        !fits(outcome(dir, log, ast).action, reply) ==> outcome(dir, log.push(reply), ast)
            == outcome(dir, log, ast),
{
    let longer = log.push(reply);
    lemma_outcome_stable(dir, log, longer, ast);
    lemma_outcome_bounded(dir, longer, ast);
}

/// The replies that an evaluation has not taken can be left out.
pub proof fn lemma_rest_unused(dir: Seq<char>, log: Seq<ReplyView>, ast: ExprView)
    ensures
        outcome(dir, log.take(outcome(dir, log, ast).used), ast) == outcome(dir, log, ast),
{
    lemma_outcome_bounded(dir, log, ast);
    let used = outcome(dir, log, ast).used;
    let shorter = log.take(used);
    lemma_outcome_stable(dir, log, shorter, ast);
}

/// An `if` whose condition fails asks for nothing of its first branch: it
/// ends where the condition ended, or goes on with the second branch if it
/// has one. An `if` whose condition succeeds goes on with its first branch.
/// The condition has succeeded if it has left a success flag of its own and
/// the newest one is true; a flag from before the `if` decides nothing.
pub proof fn lemma_if_selects(
    dir: Seq<char>,
    log: Seq<ReplyView>,
    st: RunView,
    condition: ExprView,
    then: ExprView,
    otherwise: ExprView,
)
    ensures
        match eval_drained(dir, log, st, condition) {
            Err(pause) => {
                &&& eval_expr(dir, log, st, ExprView::If(Box::new(condition), Box::new(then)))
                    == Err::<RunView, Pause>(pause)
                &&& eval_expr(
                    dir,
                    log,
                    st,
                    ExprView::IfElse(Box::new(condition), Box::new(then), Box::new(otherwise)),
                ) == Err::<RunView, Pause>(pause)
            },
            Ok(decided) => {
                &&& eval_expr(dir, log, st, ExprView::If(Box::new(condition), Box::new(then)))
                    == if decided.succeeded(st.flags.len()) {
                    eval_expr(dir, log, decided.without_flag(st.flags.len()), then)
                } else {
                    Ok(decided.without_flag(st.flags.len()))
                }
                &&& eval_expr(
                    dir,
                    log,
                    st,
                    ExprView::IfElse(Box::new(condition), Box::new(then), Box::new(otherwise)),
                ) == if decided.succeeded(st.flags.len()) {
                    eval_expr(dir, log, decided.without_flag(st.flags.len()), then)
                } else {
                    eval_expr(dir, log, decided.without_flag(st.flags.len()), otherwise)
                }
            },
        },
{
}

/// `&&` and `||` evaluate both sides, whatever the left side gave, and leave
/// one success flag in place of those of the two sides: for `&&` it is true
/// if both sides have succeeded, for `||` if one of them has. A side that
/// has left no flag of its own has not succeeded.
pub proof fn lemma_logic_combines(
    dir: Seq<char>,
    log: Seq<ReplyView>,
    st: RunView,
    left: ExprView,
    op: Operator,
    right: ExprView,
)
    requires
        op == Operator::LogicAnd || op == Operator::LogicOr,
        eval_drained(dir, log, st, left) is Ok,
    ensures
        ({
            let after_left = eval_drained(dir, log, st, left)->Ok_0;
            let whole = eval_expr(
                dir,
                log,
                st,
                ExprView::Binary(Box::new(left), op, Box::new(right)),
            );
            let depth = st.flags.len();
            let between = after_left.without_flag(depth);
            let middle = between.flags.len();
            match eval_drained(dir, log, between, right) {
                Err(pause) => whole == Err::<RunView, Pause>(pause),
                Ok(after_right) => {
                    &&& whole matches Ok(end)
                    &&& end.flags == after_right.without_flag(middle).flags.push(end.flags.last())
                    &&& op == Operator::LogicAnd ==> end.flags.last() == (after_left.succeeded(
                        depth,
                    ) && after_right.succeeded(middle))
                    &&& op == Operator::LogicOr ==> end.flags.last() == (after_left.succeeded(
                        depth,
                    ) || after_right.succeeded(middle))
                },
            }
        }),
{
}

/// `&` does not evaluate its right side after a left side that has not
/// succeeded: the evaluation ends where the left side ended, and nothing is
/// asked for the right side. After a left side that has succeeded, the right
/// side is evaluated. The left side has succeeded if it has left a success
/// flag of its own and the newest one is true; a flag that an earlier
/// command left decides nothing.
pub proof fn lemma_gate(
    dir: Seq<char>,
    log: Seq<ReplyView>,
    st: RunView,
    left: ExprView,
    right: ExprView,
)
    ensures
        match eval_drained(dir, log, st, left) {
            Err(pause) => eval_expr(
                dir,
                log,
                st,
                ExprView::Binary(Box::new(left), Operator::NextIfSuccess, Box::new(right)),
            ) == Err::<RunView, Pause>(pause),
            Ok(after_left) => eval_expr(
                dir,
                log,
                st,
                ExprView::Binary(Box::new(left), Operator::NextIfSuccess, Box::new(right)),
            ) == if after_left.flags.len() > st.flags.len() && after_left.flags.last() {
                eval_drained(dir, log, after_left, right)
            } else {
                Ok(after_left)
            },
        },
{
}

/// A process that could not be spawned, or could not be waited for, has not
/// succeeded: it leaves the success flag false, whatever flags were there.
/// So `&` does not go on after it, and an `if` takes its second branch.
pub proof fn lemma_failed_spawn_fails(
    st: RunView,
    path: Seq<char>,
    stdout: Sink,
    stderr: Sink,
    outcome: OutcomeView,
)
    requires
        !(outcome matches OutcomeView::Exited(success) && success),
    ensures
        st.spawned(path, stdout, stderr, outcome).flags == st.flags.push(false),
        !st.spawned(path, stdout, stderr, outcome).succeeded(st.flags.len()),
{
}

/// A command that the shell runs itself leaves no success flag, so it has
/// not succeeded for the operator that asks, whatever came before it.
pub proof fn lemma_builtin_leaves_no_flag(
    dir: Seq<char>,
    log: Seq<ReplyView>,
    st: RunView,
    name: Seq<char>,
    arguments: Seq<Seq<char>>,
    redirect: RedirectView,
)
    requires
        name == "cd"@ || name == "set"@ || name == "clear"@,
    ensures
        execute(dir, log, st, name, arguments, redirect) matches Ok(end) ==> end.flags == st.flags
            && !end.succeeded(st.flags.len()),
{
}

/// `cd` never hands the output of the process before it to anything: when
/// it is done, the host holds no handle, no line of output has been added,
/// and no process has been asked for. While it is not done, it pauses at the
/// release of the handles, at the question whether its argument is a
/// directory, or at the change of the directory.
pub proof fn lemma_cd_discards(log: Seq<ReplyView>, st: RunView, arguments: Seq<Seq<char>>)
    ensures
        match change_directory(log, st, arguments) {
            Ok(end) => {
                &&& !end.held_output
                &&& !end.held_error
                &&& end.outputs == st.outputs
                &&& end.flags == st.flags
                &&& end.piped == st.piped
            },
            Err(pause) => {
                ||| pause.action == (ActionView::Release {
                    error: st.held_error,
                    output: st.held_output,
                })
                ||| arguments.len() > 0 && pause.action == ActionView::IsDirectory(
                    arguments.last(),
                )
                ||| arguments.len() > 0 && pause.action == ActionView::ChangeDirectory(
                    arguments.last(),
                )
            },
        },
{
}

/// `cd` takes the directory from its last argument, never from a pipe: once
/// the handles are released and the file system has said that the argument
/// is a directory, the change to that directory is what is asked for. When
/// the host has made the change, `cd` is done and has added no line of
/// errors; when the host could not make it, one line says so.
pub proof fn lemma_cd_takes_its_argument(
    log: Seq<ReplyView>,
    st: RunView,
    arguments: Seq<Seq<char>>,
)
    requires
        arguments.len() > 0,
        release(log, st, true, true) is Ok,
        ({
            let released = release(log, st, true, true)->Ok_0;
            0 <= released.used < log.len() && log[released.used] == ReplyView::Found(true)
        }),
    ensures
        ({
            let released = release(log, st, true, true)->Ok_0;
            let asked = RunView { used: released.used + 1, ..released };
            let changed = RunView { used: released.used + 2, ..released };
            if asked.used < log.len() && log[asked.used] == ReplyView::Done(true) {
                change_directory(log, st, arguments) == Ok::<RunView, Pause>(changed)
            } else if asked.used < log.len() && log[asked.used] == ReplyView::Done(false) {
                change_directory(log, st, arguments) == Ok::<RunView, Pause>(
                    changed.fail("Could not set working directory"@),
                )
            } else if asked.used >= log.len() {
                change_directory(log, st, arguments) == Err::<RunView, Pause>(
                    Pause {
                        action: ActionView::ChangeDirectory(arguments.last()),
                        used: asked.used,
                    },
                )
            } else {
                true
            }
        }),
{
}

/// `cd` under a pipe discards what the left side wrote: in `left | cd ..`
/// the output handle of the left side is released, not read and not handed
/// on. When the line is done, it holds the lines of output that the left
/// side had when it ended and no others, and the host holds no handle. Until
/// then the line pauses in the left side, at the reading of its error handle,
/// or where `cd` alone would pause.
pub proof fn lemma_cd_under_pipe(
    dir: Seq<char>,
    log: Seq<ReplyView>,
    st: RunView,
    left: ExprView,
    arguments: Seq<Seq<char>>,
    redirect: RedirectView,
)
    ensures
        ({
            let cd = ExprView::Cmd { name: "cd"@, arguments, redirect };
            let line = eval_expr(
                dir,
                log,
                st,
                ExprView::Binary(Box::new(left), Operator::Pipe, Box::new(cd)),
            );
            match eval_expr(dir, log, st, left) {
                Err(pause) => line == Err::<RunView, Pause>(pause),
                Ok(after_left) => match drain(log, after_left, true, false) {
                    Err(pause) => line == Err::<RunView, Pause>(pause),
                    Ok(read) => {
                        let piped = RunView { piped: true, ..read };
                        match change_directory(log, piped, arguments) {
                            Err(pause) => line == Err::<RunView, Pause>(pause),
                            Ok(end) => {
                                &&& line == Ok::<RunView, Pause>(RunView { piped: false, ..end })
                                &&& end.outputs == after_left.outputs
                                &&& !end.held_output
                                &&& !end.held_error
                                &&& end.flags == after_left.flags
                            },
                        }
                    },
                },
            }
        }),
{
    let cd = ExprView::Cmd { name: "cd"@, arguments, redirect };
    if let Ok(after_left) = eval_expr(dir, log, st, left) {
        if let Ok(read) = drain(log, after_left, true, false) {
            let piped = RunView { piped: true, ..read };
            assert(eval_expr(dir, log, piped, cd) == change_directory(log, piped, arguments));
            lemma_cd_discards(log, piped, arguments);
        }
    }
}

/// A program without redirections, outside a pipe, is spawned at once, and
/// when it has exited it leaves what its exit status says as its success
/// flag, and both its handles with the host.
pub proof fn lemma_command_exits(
    dir: Seq<char>,
    log: Seq<ReplyView>,
    st: RunView,
    name: Seq<char>,
    arguments: Seq<Seq<char>>,
    success: bool,
)
    requires
        name != "cd"@ && name != "exit"@ && name != "set"@ && name != "clear"@,
        !st.piped,
        0 <= st.used,
        st.used < log.len() ==> log[st.used] == ReplyView::Spawned(OutcomeView::Exited(success)),
    ensures
        execute(dir, log, st, name, arguments, RedirectView::none()) == if st.used < log.len() {
            Ok::<RunView, Pause>(
                RunView {
                    used: st.used + 1,
                    held_error: true,
                    held_output: true,
                    flags: st.flags.push(success),
                    ..st
                },
            )
        } else {
            Err::<RunView, Pause>(
                Pause {
                    action: ActionView::Spawn {
                        program: program_path_of(dir, name),
                        arguments,
                        stdin: Source::Inherit,
                        stdout: Sink::Piped,
                        stderr: Sink::Piped,
                    },
                    used: st.used,
                },
            )
        },
{
}

/// The left side of an operator comes first: as long as it pauses, the
/// whole pauses at the same action, and nothing of the right side has been
/// asked for.
pub proof fn lemma_left_first(
    dir: Seq<char>,
    log: Seq<ReplyView>,
    st: RunView,
    left: ExprView,
    op: Operator,
    right: ExprView,
)
    ensures
        eval_expr(dir, log, st, left) matches Err(pause) ==> eval_expr(
            dir,
            log,
            st,
            ExprView::Binary(Box::new(left), op, Box::new(right)),
        ) == Err::<RunView, Pause>(pause),
{
    if let Err(pause) = eval_expr(dir, log, st, left) {
        assert(eval_drained(dir, log, st, left) == Err::<RunView, Pause>(pause));
    }
}

/// Between the stages of a pipeline only the error handle is read: the
/// output handle of the left side stays with the host, for the right side,
/// and no line of output is added.
pub proof fn lemma_pipe_keeps_output(log: Seq<ReplyView>, st: RunView)
    ensures
        drain(log, st, true, false) matches Ok(end) ==> end.held_output == st.held_output
            && end.outputs == st.outputs && !end.held_error,
{
}

/// An input file that does not exist does not stop its command: the
/// command gets the null device as its input, so that it does not wait for
/// input that never comes, and a line of errors names the file.
pub proof fn lemma_missing_input_file(
    log: Seq<ReplyView>,
    st: RunView,
    input: Source,
    file: Seq<char>,
)
    requires
        file != null_device(),
        input != Source::Held,
        0 <= st.used < log.len(),
        log[st.used] == ReplyView::Found(false),
    ensures
        choose_input(log, st, input, Some(file)) == Ok::<(Source, RunView), Pause>(
            (
                Source::Null,
                (RunView { used: st.used + 1, ..st }).fail("File does not exist: "@ + file),
            ),
        ),
{
}

/// A handle has one consumer: once the host has been asked to read it, to
/// drop it, or to hand it to a process, it is held no more. Reading or
/// dropping where nothing is held asks for nothing and changes nothing.
pub proof fn lemma_one_consumer(log: Seq<ReplyView>, st: RunView)
    ensures
        drain(log, st, true, true) matches Ok(end) ==> !end.held_output && !end.held_error,
        release(log, st, true, true) matches Ok(end) ==> !end.held_output && !end.held_error,
        st.piped ==> !piped_input(st).1.held_output,
        piped_input(st).0 == Source::Held ==> st.held_output && st.piped,
        !st.held_output && !st.held_error ==> drain(log, st, true, true) == Ok::<RunView, Pause>(
            st,
        ) && release(log, st, true, true) == Ok::<RunView, Pause>(st),
{
}

} // verus!
