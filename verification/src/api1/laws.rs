//! What holds of every stream that is written through this interface,
//! read off the text of its lines.

use vstd::prelude::*;
use super::cmd::{enters, leaves, lemma_line_kind, Command};
use super::scope::{
    balanced, depth, emitted, lemma_depth_push, open_scopes, stopped_at, taken,
};
use super::Attempt;

verus! {

/// The lines of `cmds`.
pub open spec fn lines_of(cmds: Seq<Command>) -> Seq<Seq<char>> {
    cmds.map_values(|c: Command| c.line())
}

/// By how much a line with the text `line` changes the number of open
/// scopes.
pub open spec fn line_delta(line: Seq<char>) -> int {
    if enters(line) {
        1
    } else if leaves(line) {
        -1
    } else {
        0
    }
}

/// The number of scopes that are open after `lines`: those entered, less
/// those left.
pub open spec fn open_after(lines: Seq<Seq<char>>) -> int
    decreases lines.len(),
{
    if lines.len() == 0 {
        0
    } else {
        open_after(lines.drop_last()) + line_delta(lines.last())
    }
}

/// As many of `lines` enter a scope as leave one, and at no point have more
/// left than entered.
pub open spec fn scope_balanced(lines: Seq<Seq<char>>) -> bool {
    &&& open_after(lines) == 0
    &&& forall|k: int| 0 <= k <= lines.len() ==> open_after(#[trigger] lines.take(k)) >= 0
}

/// By how much an attempt changes the number of scopes that are open and
/// still to be left: a line that enters a scope counts where the sink took
/// it, a line that leaves one counts where it was tried.
pub open spec fn attempt_delta<E>(a: Attempt<E>) -> int {
    if enters(a.line) {
        if a.outcome is Ok {
            1
        } else {
            0
        }
    } else if leaves(a.line) {
        -1
    } else {
        0
    }
}

/// The number of scopes that a sink has open, and that nothing has tried to
/// leave, after the attempts `h`.
pub open spec fn pending_after<E>(h: Seq<Attempt<E>>) -> int
    decreases h.len(),
{
    if h.len() == 0 {
        0
    } else {
        pending_after(h.drop_last()) + attempt_delta(h.last())
    }
}

/// For every scope that the sink was made to enter in `h`, a line that
/// leaves it was tried later, and no such line was tried without a scope to
/// leave.
pub open spec fn scopes_attended<E>(h: Seq<Attempt<E>>) -> bool {
    &&& pending_after(h) == 0
    &&& forall|k: int| 0 <= k <= h.len() ==> pending_after(#[trigger] h.take(k)) >= 0
}

/// The lines of `h` that the sink took, oldest first: what a reader of the
/// sink's output gets.
pub open spec fn taken_lines<E>(h: Seq<Attempt<E>>) -> Seq<Seq<char>>
    decreases h.len(),
{
    if h.len() == 0 {
        Seq::empty()
    } else if h.last().outcome is Ok {
        taken_lines(h.drop_last()).push(h.last().line)
    } else {
        taken_lines(h.drop_last())
    }
}

/// The scopes that the lines of `cmds` leave open are those that `cmds`
/// leaves open.
pub proof fn lemma_open_after_lines(cmds: Seq<Command>)
    ensures
        open_after(lines_of(cmds)) == depth(cmds),
    decreases cmds.len(),
{
    if cmds.len() > 0 {
        lemma_open_after_lines(cmds.drop_last());
        lemma_line_kind(cmds.last());
        assert(lines_of(cmds).drop_last() =~= lines_of(cmds.drop_last()));
    }
}

/// The lines of balanced commands are balanced: as many enter a scope as
/// leave one, and no prefix of them leaves more scopes than it enters.
pub proof fn lemma_balanced_lines(cmds: Seq<Command>)
    requires
        balanced(cmds),
    ensures
        scope_balanced(lines_of(cmds)),
{
    lemma_open_after_lines(cmds);
    let lines = lines_of(cmds);
    assert forall|k: int| 0 <= k <= lines.len() implies open_after(#[trigger] lines.take(k))
        >= 0 by {
        assert(lines.take(k) =~= lines_of(cmds.take(k)));
        lemma_open_after_lines(cmds.take(k));
    }
}

/// One more attempt changes the number of pending scopes by its share.
pub proof fn lemma_pending_next<E>(h: Seq<Attempt<E>>, j: int)
    requires
        0 <= j < h.len(),
    ensures
        pending_after(h.take(j + 1)) == pending_after(h.take(j)) + attempt_delta(h[j]),
{
    assert(h.take(j + 1).drop_last() =~= h.take(j));
}

/// The number of pending scopes after the first `j` attempts of a writing
/// of `cmds` that stopped at `cmds[k]`, or did not stop where `k` is the
/// number of commands: up to the refusal the scopes that the commands
/// written so far have opened; after it, one less for every line.
pub open spec fn pending_at(cmds: Seq<Command>, k: int, j: int) -> int {
    if j <= k {
        depth(cmds.take(j))
    } else {
        open_scopes(cmds, k) - (j - k - 1)
    }
}

/// The attempts of a writing leave pending what `pending_at` says.
proof fn lemma_pending_at<E>(new: Seq<Attempt<E>>, cmds: Seq<Command>, k: int, j: int)
    requires
        0 <= j <= new.len(),
        0 <= k <= cmds.len(),
        k < cmds.len() ==> stopped_at(new, cmds, k),
        k == cmds.len() ==> new.len() == cmds.len() && forall|i: int|
            0 <= i < new.len() ==> #[trigger] new[i] == taken::<E>(cmds[i]),
    ensures
        pending_after(new.take(j)) == pending_at(cmds, k, j),
    decreases j,
{
    if j == 0 {
        assert(new.take(0) =~= Seq::<Attempt<E>>::empty());
        assert(cmds.take(0) =~= Seq::<Command>::empty());
    } else {
        let i = j - 1;
        lemma_pending_at(new, cmds, k, i);
        lemma_pending_next(new, i);
        if i < k {
            lemma_line_kind(cmds[i]);
            assert(new[i] == taken::<E>(cmds[i]));
            assert(cmds.take(j) =~= cmds.take(i).push(cmds[i]));
            lemma_depth_push(cmds.take(i), cmds[i]);
        } else if i == k {
            lemma_line_kind(cmds[k]);
        } else {
            lemma_line_kind(Command::Leave);
        }
    }
}

/// Whatever lines a sink refuses while balanced commands are written to
/// it, every scope that it was made to enter is attended to: a line that
/// leaves it was tried after the lines inside it, and in the right order
/// among the scopes.
pub proof fn lemma_scopes_attended<E>(
    pre: Seq<Attempt<E>>,
    post: Seq<Attempt<E>>,
    cmds: Seq<Command>,
    r: Result<(), E>,
)
    requires
        balanced(cmds),
        emitted(pre, post, cmds, r),
    ensures
        scopes_attended(post.skip(pre.len() as int)),
{
    let new = post.skip(pre.len() as int);
    let k = if r is Ok {
        cmds.len() as int
    } else {
        choose|k: int| stopped_at(new, cmds, k)
    };
    assert forall|j: int| 0 <= j <= new.len() implies pending_after(#[trigger] new.take(j))
        >= 0 by {
        lemma_pending_at(new, cmds, k, j);
    }
    lemma_pending_at(new, cmds, k, new.len() as int);
    assert(new.take(new.len() as int) =~= new);
    assert(cmds.take(cmds.len() as int) =~= cmds);
}

/// Where every line of `h` that leaves a scope was taken, the lines taken
/// leave open what is pending after `h`.
proof fn lemma_taken_open<E>(h: Seq<Attempt<E>>)
    requires
        forall|i: int| 0 <= i < h.len() && leaves((#[trigger] h[i]).line) ==> h[i].outcome is Ok,
    ensures
        open_after(taken_lines(h)) == pending_after(h),
    decreases h.len(),
{
    if h.len() > 0 {
        let before = h.drop_last();
        assert forall|i: int| 0 <= i < before.len() && leaves((#[trigger] before[i]).line)
            implies before[i].outcome is Ok by {
            assert(before[i] == h[i]);
        }
        lemma_taken_open(before);
        assert(h.last() == h[h.len() - 1]);
        if h.last().outcome is Ok {
            assert(taken_lines(h).drop_last() =~= taken_lines(before));
        }
    }
}

/// What starts the lines taken of `h` are the lines taken of what starts
/// `h`, up to some attempt.
proof fn lemma_taken_prefix<E>(h: Seq<Attempt<E>>, k: int) -> (j: int)
    requires
        0 <= k <= taken_lines(h).len(),
    ensures
        0 <= j <= h.len(),
        taken_lines(h.take(j)) == taken_lines(h).take(k),
    decreases h.len(),
{
    if k == taken_lines(h).len() {
        assert(h.take(h.len() as int) =~= h);
        assert(taken_lines(h).take(k) =~= taken_lines(h));
        h.len() as int
    } else {
        let before = h.drop_last();
        let j = lemma_taken_prefix(before, k);
        assert(h.take(j) =~= before.take(j));
        assert(taken_lines(h).take(k) =~= taken_lines(before).take(k));
        j
    }
}

/// Where balanced commands are written to a sink that refuses some line
/// but takes every line that leaves a scope, what the sink has taken is
/// balanced: every scope that its reader enters, the reader leaves.
pub proof fn lemma_taken_balanced<E>(
    pre: Seq<Attempt<E>>,
    post: Seq<Attempt<E>>,
    cmds: Seq<Command>,
    r: Result<(), E>,
)
    requires
        balanced(cmds),
        emitted(pre, post, cmds, r),
        forall|i: int|
            pre.len() <= i < post.len() && leaves((#[trigger] post[i]).line)
                ==> post[i].outcome is Ok,
    ensures
        scope_balanced(taken_lines(post.skip(pre.len() as int))),
{
    let new = post.skip(pre.len() as int);
    lemma_scopes_attended(pre, post, cmds, r);
    assert forall|i: int| 0 <= i < new.len() && leaves((#[trigger] new[i]).line)
        implies new[i].outcome is Ok by {
        assert(new[i] == post[pre.len() + i]);
    }
    lemma_taken_open(new);
    let lines = taken_lines(new);
    assert forall|k: int| 0 <= k <= lines.len() implies open_after(#[trigger] lines.take(k))
        >= 0 by {
        let j = lemma_taken_prefix(new, k);
        assert forall|i: int| 0 <= i < new.take(j).len() && leaves(
            (#[trigger] new.take(j)[i]).line,
        ) implies new.take(j)[i].outcome is Ok by {
            assert(new.take(j)[i] == new[i]);
        }
        lemma_taken_open(new.take(j));
    }
}

/// Where the sink took every line of `h`, the lines taken are all lines of
/// `h`.
proof fn lemma_all_taken<E>(h: Seq<Attempt<E>>)
    requires
        forall|i: int| 0 <= i < h.len() ==> (#[trigger] h[i]).outcome is Ok,
    ensures
        taken_lines(h) == h.map_values(|a: Attempt<E>| a.line),
    decreases h.len(),
{
    if h.len() > 0 {
        let before = h.drop_last();
        assert forall|i: int| 0 <= i < before.len() implies (#[trigger] before[i]).outcome
            is Ok by {
            assert(before[i] == h[i]);
        }
        lemma_all_taken(before);
        assert(h.last() == h[h.len() - 1]);
    }
    assert(taken_lines(h) =~= h.map_values(|a: Attempt<E>| a.line));
}

/// A writing that succeeded has made the sink take the lines of the
/// commands, in their order, and nothing else.
pub proof fn lemma_stream_written<E>(
    pre: Seq<Attempt<E>>,
    post: Seq<Attempt<E>>,
    cmds: Seq<Command>,
    r: Result<(), E>,
)
    requires
        emitted(pre, post, cmds, r),
        r is Ok,
    ensures
        taken_lines(post.skip(pre.len() as int)) == lines_of(cmds),
{
    let new = post.skip(pre.len() as int);
    lemma_all_taken(new);
    assert(new.map_values(|a: Attempt<E>| a.line) =~= lines_of(cmds));
}

/// Two writings of the same commands that both succeeded have made their
/// sinks take the same lines in the same order, whatever the sinks are.
pub proof fn lemma_same_stream<E1, E2>(
    cmds: Seq<Command>,
    pre1: Seq<Attempt<E1>>,
    post1: Seq<Attempt<E1>>,
    r1: Result<(), E1>,
    pre2: Seq<Attempt<E2>>,
    post2: Seq<Attempt<E2>>,
    r2: Result<(), E2>,
)
    requires
        emitted(pre1, post1, cmds, r1),
        emitted(pre2, post2, cmds, r2),
        r1 is Ok,
        r2 is Ok,
    ensures
        taken_lines(post1.skip(pre1.len() as int)) == taken_lines(post2.skip(pre2.len() as int)),
{
    lemma_stream_written(pre1, post1, cmds, r1);
    lemma_stream_written(pre2, post2, cmds, r2);
}

} // verus!
