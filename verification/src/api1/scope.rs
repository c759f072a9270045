//! What a well-scoped stream is, and what a sink has seen once a sequence of
//! commands was written to it, whether or not it took every line.

use vstd::prelude::*;
use super::Attempt;
use super::cmd::Command;

verus! {

/// The number of scopes that `cmds` opens and does not close.
pub open spec fn depth(cmds: Seq<Command>) -> int
    decreases cmds.len(),
{
    if cmds.len() == 0 {
        0
    } else {
        depth(cmds.drop_last()) + cmds.last().delta()
    }
}

/// No prefix of `cmds` closes a scope that it did not open.
pub open spec fn well_nested(cmds: Seq<Command>) -> bool {
    forall|k: int| 0 <= k <= cmds.len() ==> depth(#[trigger] cmds.take(k)) >= 0
}

/// `cmds` closes every scope it opens, and no other.
pub open spec fn balanced(cmds: Seq<Command>) -> bool {
    well_nested(cmds) && depth(cmds) == 0
}

/// None of `cmds` opens or closes a scope.
pub open spec fn flat(cmds: Seq<Command>) -> bool {
    forall|i: int| 0 <= i < cmds.len() ==> (#[trigger] cmds[i]).delta() == 0
}

/// The line that sets a string property, where there is a value to set.
pub open spec fn text_setting(property: Seq<char>, value: Option<Seq<char>>) -> Seq<Command> {
    match value {
        Some(value) => seq![Command::SetText { property, value }],
        None => Seq::empty(),
    }
}

/// The line that sets a property to a literal, where there is one to set.
pub open spec fn raw_setting(property: Seq<char>, literal: Option<Seq<char>>) -> Seq<Command> {
    match literal {
        Some(literal) => seq![Command::SetRaw { property, literal }],
        None => Seq::empty(),
    }
}

/// The lines of a scope: it is entered, `inner` is written, it is left.
pub open spec fn scope(name: Seq<char>, inner: Seq<Command>) -> Seq<Command> {
    seq![Command::Enter { name }] + inner + seq![Command::Leave]
}

/// The lines of an object: it is declared, then its scope follows.
pub open spec fn object(kind: Seq<char>, name: Seq<char>, inner: Seq<Command>) -> Seq<Command> {
    seq![Command::Add { kind, name }] + scope(name, inner)
}

/// The lines of `parts`, one part after the other.
pub open spec fn concat(parts: Seq<Seq<Command>>) -> Seq<Command>
    decreases parts.len(),
{
    if parts.len() == 0 {
        Seq::empty()
    } else {
        concat(parts.drop_last()) + parts.last()
    }
}

/// Each of `parts` is balanced.
pub open spec fn all_balanced(parts: Seq<Seq<Command>>) -> bool {
    forall|i: int| 0 <= i < parts.len() ==> balanced(#[trigger] parts[i])
}

/// The attempt that hands over the line of `c` and is taken.
pub open spec fn taken<E>(c: Command) -> Attempt<E> {
    Attempt { line: c.line(), outcome: Ok(()) }
}

/// The error of the last refused attempt of `h`, or `Ok` when all were taken.
pub open spec fn verdict<E>(h: Seq<Attempt<E>>) -> Result<(), E>
    decreases h.len(),
{
    if h.len() == 0 {
        Ok(())
    } else if h.last().outcome is Err {
        h.last().outcome
    } else {
        verdict(h.drop_last())
    }
}

/// The scopes that are open and not yet attended to when the line of
/// `cmds[k]` has been refused: a refused `Enter` opened nothing, and a
/// refused `Leave` is not tried again.
pub open spec fn open_scopes(cmds: Seq<Command>, k: int) -> int {
    depth(cmds.take(k)) - if cmds[k] is Leave { 1int } else { 0int }
}

/// The attempts `new` are those of writing `cmds` to a sink that refused the
/// line of `cmds[k]` first: every line before it was taken, nothing of
/// `cmds` was tried after it, and one `Leave` followed for each scope then
/// open, whatever the sink made of those.
pub open spec fn stopped_at<E>(new: Seq<Attempt<E>>, cmds: Seq<Command>, k: int) -> bool {
    &&& 0 <= k < cmds.len()
    &&& open_scopes(cmds, k) >= 0
    &&& new.len() == k + 1 + open_scopes(cmds, k)
    &&& forall|i: int| 0 <= i < k ==> #[trigger] new[i] == taken::<E>(cmds[i])
    &&& new[k].line == cmds[k].line()
    &&& new[k].outcome is Err
    &&& forall|i: int| k < i < new.len() ==> (#[trigger] new[i]).line == Command::Leave.line()
}

/// The attempts `new` are those of writing `cmds` to a sink, with the result
/// `r`: either every line was taken, in order, and `r` is `Ok`; or the
/// writing stopped at the first refusal, closed the scopes it had opened,
/// and `r` is the error of the last refusal.
pub open spec fn wrote<E>(new: Seq<Attempt<E>>, cmds: Seq<Command>, r: Result<(), E>) -> bool {
    &&& r == verdict(new)
    &&& r is Ok ==> new.len() == cmds.len() && forall|i: int|
        0 <= i < new.len() ==> #[trigger] new[i] == taken::<E>(cmds[i])
    &&& r is Err ==> exists|k: int| stopped_at(new, cmds, k)
}

/// Between the histories `pre` and `post` of one sink, `cmds` was written
/// with the result `r`, and nothing else.
pub open spec fn emitted<E>(
    pre: Seq<Attempt<E>>,
    post: Seq<Attempt<E>>,
    cmds: Seq<Command>,
    r: Result<(), E>,
) -> bool {
    &&& pre.len() <= post.len()
    &&& post.take(pre.len() as int) == pre
    &&& wrote(post.skip(pre.len() as int), cmds, r)
}

/// Writing one more command changes the depth by that command's share.
pub proof fn lemma_depth_push(cmds: Seq<Command>, c: Command)
    ensures
        depth(cmds.push(c)) == depth(cmds) + c.delta(),
{
    assert(cmds.push(c).drop_last() =~= cmds);
}

/// The depth of one command is its share.
pub proof fn lemma_depth_one(c: Command)
    ensures
        depth(seq![c]) == c.delta(),
{
    assert(seq![c] =~= Seq::<Command>::empty().push(c));
    lemma_depth_push(Seq::<Command>::empty(), c);
}

/// The depth of two sequences written one after the other is the sum of
/// their depths.
pub proof fn lemma_depth_concat(a: Seq<Command>, b: Seq<Command>)
    ensures
        depth(a + b) == depth(a) + depth(b),
    decreases b.len(),
{
    if b.len() == 0 {
        assert(a + b =~= a);
    } else {
        lemma_depth_concat(a, b.drop_last());
        assert((a + b).drop_last() =~= a + b.drop_last());
    }
}

/// Commands that neither open nor close a scope are balanced.
pub proof fn lemma_flat_balanced(cmds: Seq<Command>)
    requires
        flat(cmds),
    ensures
        balanced(cmds),
    decreases cmds.len(),
{
    if cmds.len() > 0 {
        lemma_flat_balanced(cmds.drop_last());
        assert forall|k: int| 0 <= k <= cmds.len() implies depth(#[trigger] cmds.take(k))
            >= 0 by {
            if k < cmds.len() {
                assert(cmds.take(k) =~= cmds.drop_last().take(k));
            } else {
                assert(cmds.take(k) =~= cmds);
            }
        }
    } else {
        assert forall|k: int| 0 <= k <= cmds.len() implies depth(#[trigger] cmds.take(k))
            >= 0 by {
            assert(cmds.take(k) =~= cmds);
        }
    }
}

/// Two balanced sequences written one after the other are balanced.
pub proof fn lemma_balanced_concat(a: Seq<Command>, b: Seq<Command>)
    requires
        balanced(a),
        balanced(b),
    ensures
        balanced(a + b),
{
    lemma_depth_concat(a, b);
    assert forall|k: int| 0 <= k <= (a + b).len() implies depth(#[trigger] (a + b).take(k))
        >= 0 by {
        if k <= a.len() {
            assert((a + b).take(k) =~= a.take(k));
        } else {
            assert((a + b).take(k) =~= a + b.take(k - a.len()));
            lemma_depth_concat(a, b.take(k - a.len()));
        }
    }
}

/// A balanced sequence between an `Enter` and a `Leave` is balanced.
pub proof fn lemma_balanced_scope(name: Seq<char>, inner: Seq<Command>)
    requires
        balanced(inner),
    ensures
        balanced(seq![Command::Enter { name }] + inner + seq![Command::Leave]),
{
    let enter = seq![Command::Enter { name }];
    let leave = seq![Command::Leave];
    let all = enter + inner + leave;
    lemma_depth_one(Command::Enter { name });
    lemma_depth_one(Command::Leave);
    lemma_depth_concat(enter, inner);
    lemma_depth_concat(enter + inner, leave);
    assert forall|k: int| 0 <= k <= all.len() implies depth(#[trigger] all.take(k)) >= 0 by {
        if k == 0 {
            assert(all.take(k) =~= Seq::<Command>::empty());
        } else if k <= 1 + inner.len() {
            assert(all.take(k) =~= enter + inner.take(k - 1));
            lemma_depth_concat(enter, inner.take(k - 1));
        } else {
            assert(all.take(k) =~= all);
        }
    }
}

/// The lines of an object whose inside is balanced are balanced.
pub proof fn lemma_object_balanced(kind: Seq<char>, name: Seq<char>, inner: Seq<Command>)
    requires
        balanced(inner),
    ensures
        balanced(object(kind, name, inner)),
{
    let declared = seq![Command::Add { kind, name }];
    lemma_balanced_scope(name, inner);
    assert(flat(declared));
    lemma_flat_balanced(declared);
    lemma_balanced_concat(declared, scope(name, inner));
}

/// The verdict on two runs of attempts is that on the second where it
/// holds a refusal, else that on the first.
pub proof fn lemma_verdict_concat<E>(x: Seq<Attempt<E>>, y: Seq<Attempt<E>>)
    ensures
        verdict(x + y) == if verdict(y) is Err {
            verdict(y)
        } else {
            verdict(x)
        },
    decreases y.len(),
{
    if y.len() == 0 {
        assert(x + y =~= x);
    } else {
        lemma_verdict_concat(x, y.drop_last());
        assert((x + y).drop_last() =~= x + y.drop_last());
    }
}

/// The verdict is `Ok` exactly when every attempt was taken.
pub proof fn lemma_verdict_ok<E>(h: Seq<Attempt<E>>)
    ensures
        verdict(h) is Ok <==> forall|i: int| 0 <= i < h.len() ==> (#[trigger] h[i]).outcome is Ok,
    decreases h.len(),
{
    if h.len() > 0 {
        lemma_verdict_ok(h.drop_last());
        if verdict(h) is Ok {
            assert forall|i: int| 0 <= i < h.len() implies (#[trigger] h[i]).outcome is Ok by {
                if i < h.len() - 1 {
                    assert(h.drop_last()[i] == h[i]);
                }
            }
        } else if h.last().outcome is Ok {
            let j = choose|j: int|
                0 <= j < h.drop_last().len() && !((#[trigger] h.drop_last()[j]).outcome is Ok);
            assert(h[j] == h.drop_last()[j]);
        }
    }
}

/// There is one successful result only.
pub proof fn lemma_ok_is_unit<E>(r: Result<(), E>)
    requires
        r is Ok,
    ensures
        r == Ok::<(), E>(()),
{
    match r {
        Ok(u) => {
            assert(u == ());
            assert(r == Ok::<(), E>(u));
        },
        Err(_) => {},
    }
}

/// One attempt at the line of a command other than `Leave` is that
/// command written, with the attempt's outcome for a result.
pub proof fn lemma_wrote_one<E>(c: Command, outcome: Result<(), E>)
    requires
        !(c is Leave),
    ensures
        wrote(seq![Attempt { line: c.line(), outcome }], seq![c], outcome),
{
    let new = seq![Attempt { line: c.line(), outcome }];
    let cmds = seq![c];
    assert(new.drop_last() =~= Seq::<Attempt<E>>::empty());
    assert(verdict(Seq::<Attempt<E>>::empty()) == Ok::<(), E>(()));
    if outcome is Err {
        assert(cmds.take(0) =~= Seq::<Command>::empty());
        assert(stopped_at(new, cmds, 0));
    } else {
        lemma_ok_is_unit(outcome);
    }
}

/// A writing that failed is also a failed writing of any longer sequence
/// that starts with the same commands.
pub proof fn lemma_wrote_stop<E>(
    new: Seq<Attempt<E>>,
    a: Seq<Command>,
    b: Seq<Command>,
    r: Result<(), E>,
)
    requires
        wrote(new, a, r),
        r is Err,
    ensures
        wrote(new, a + b, r),
{
    let k = choose|k: int| stopped_at(new, a, k);
    assert((a + b).take(k) =~= a.take(k));
    assert(stopped_at(new, a + b, k));
}

/// A writing that succeeded, followed by another, is the writing of both
/// sequences in order, provided the first left no scope open.
pub proof fn lemma_wrote_then<E>(
    x: Seq<Attempt<E>>,
    y: Seq<Attempt<E>>,
    a: Seq<Command>,
    b: Seq<Command>,
    r: Result<(), E>,
)
    requires
        wrote(x, a, Ok::<(), E>(())),
        wrote(y, b, r),
        depth(a) == 0,
    ensures
        wrote(x + y, a + b, r),
{
    lemma_verdict_concat(x, y);
    if r is Ok {
        lemma_ok_is_unit(r);
    }
    if r is Err {
        let k = choose|k: int| stopped_at(y, b, k);
        let n = a.len() as int;
        assert((a + b).take(n + k) =~= a + b.take(k));
        lemma_depth_concat(a, b.take(k));
        assert forall|i: int| 0 <= i < n + k implies #[trigger] (x + y)[i] == taken::<E>(
            (a + b)[i],
        ) by {
            if i >= n {
                assert((x + y)[i] == y[i - n]);
            }
        }
        assert forall|i: int| n + k < i < (x + y).len() implies (#[trigger] (x + y)[i]).line
            == Command::Leave.line() by {
            assert((x + y)[i] == y[i - n]);
        }
        assert((x + y)[n + k] == y[k]);
        assert(stopped_at(x + y, a + b, n + k));
    } else {
        assert forall|i: int| 0 <= i < (x + y).len() implies #[trigger] (x + y)[i] == taken::<E>(
            (a + b)[i],
        ) by {
            if i >= x.len() {
                assert((x + y)[i] == y[i - x.len()]);
            }
        }
    }
}

/// An accepted `Enter`, a writing that left no scope open, and one attempt
/// at a `Leave` are the writing of the whole scope; its result is the
/// error of the `Leave` where that was refused, else the result of what
/// was written inside.
pub proof fn lemma_wrote_scope<E>(
    name: Seq<char>,
    inside: Seq<Attempt<E>>,
    inner: Seq<Command>,
    inner_result: Result<(), E>,
    leave: Result<(), E>,
)
    requires
        wrote(inside, inner, inner_result),
        depth(inner) == 0,
    ensures
        wrote(
            seq![taken::<E>(Command::Enter { name })] + inside + seq![
                Attempt { line: Command::Leave.line(), outcome: leave },
            ],
            seq![Command::Enter { name }] + inner + seq![Command::Leave],
            if leave is Err {
                leave
            } else {
                inner_result
            },
        ),
{
    let enter = Command::Enter { name };
    let head = seq![taken::<E>(enter)];
    let tail = seq![Attempt { line: Command::Leave.line(), outcome: leave }];
    let new = head + inside + tail;
    let cmds = seq![enter] + inner + seq![Command::Leave];
    let r = if leave is Err {
        leave
    } else {
        inner_result
    };
    assert(tail.drop_last() =~= Seq::<Attempt<E>>::empty());
    assert(head.drop_last() =~= Seq::<Attempt<E>>::empty());
    assert(verdict(Seq::<Attempt<E>>::empty()) == Ok::<(), E>(()));
    lemma_verdict_concat(head, inside);
    lemma_verdict_concat(head + inside, tail);
    lemma_depth_one(enter);
    if leave is Ok {
        lemma_ok_is_unit(leave);
    }
    if inner_result is Ok {
        lemma_ok_is_unit(inner_result);
    }
    if inner_result is Err {
        let k = choose|k: int| stopped_at(inside, inner, k);
        assert(cmds.take(k + 1) =~= seq![enter] + inner.take(k));
        lemma_depth_concat(seq![enter], inner.take(k));
        assert forall|i: int| 0 <= i < k + 1 implies #[trigger] new[i] == taken::<E>(cmds[i]) by {
            if i > 0 {
                assert(new[i] == inside[i - 1]);
            }
        }
        assert(new[k + 1] == inside[k]);
        assert forall|i: int| k + 1 < i < new.len() implies (#[trigger] new[i]).line
            == Command::Leave.line() by {
            if i < new.len() - 1 {
                assert(new[i] == inside[i - 1]);
            }
        }
        assert(stopped_at(new, cmds, k + 1));
    } else if leave is Err {
        let k = inner.len() as int + 1;
        assert(cmds.take(k) =~= seq![enter] + inner);
        lemma_depth_concat(seq![enter], inner);
        assert forall|i: int| 0 <= i < k implies #[trigger] new[i] == taken::<E>(cmds[i]) by {
            if i > 0 {
                assert(new[i] == inside[i - 1]);
            }
        }
        assert(stopped_at(new, cmds, k));
    } else {
        assert forall|i: int| 0 <= i < new.len() implies #[trigger] new[i] == taken::<E>(
            cmds[i],
        ) by {
            if 0 < i < new.len() - 1 {
                assert(new[i] == inside[i - 1]);
            }
        }
    }
}

/// Writing nothing between two equal histories succeeds.
pub proof fn lemma_emitted_nothing<E>(h: Seq<Attempt<E>>)
    ensures
        emitted(h, h, Seq::<Command>::empty(), Ok::<(), E>(())),
{
    assert(h.take(h.len() as int) =~= h);
    assert(h.skip(h.len() as int) =~= Seq::<Attempt<E>>::empty());
}

/// One more attempt, at the line of a command other than `Leave`, is that
/// command written.
pub proof fn lemma_emitted_one<E>(pre: Seq<Attempt<E>>, c: Command, outcome: Result<(), E>)
    requires
        !(c is Leave),
    ensures
        emitted(pre, pre.push(Attempt { line: c.line(), outcome }), seq![c], outcome),
{
    let post = pre.push(Attempt { line: c.line(), outcome });
    assert(post.take(pre.len() as int) =~= pre);
    assert(post.skip(pre.len() as int) =~= seq![Attempt { line: c.line(), outcome }]);
    lemma_wrote_one(c, outcome);
}

/// A failed writing is also the failed writing of any longer sequence that
/// starts with the same commands.
pub proof fn lemma_emitted_stop<E>(
    pre: Seq<Attempt<E>>,
    post: Seq<Attempt<E>>,
    a: Seq<Command>,
    b: Seq<Command>,
    r: Result<(), E>,
)
    requires
        emitted(pre, post, a, r),
        r is Err,
    ensures
        emitted(pre, post, a + b, r),
{
    lemma_wrote_stop(post.skip(pre.len() as int), a, b, r);
}

/// A successful writing followed by another on the same sink is the
/// writing of both sequences in order, provided the first left no scope
/// open.
pub proof fn lemma_emitted_then<E>(
    pre: Seq<Attempt<E>>,
    mid: Seq<Attempt<E>>,
    post: Seq<Attempt<E>>,
    a: Seq<Command>,
    b: Seq<Command>,
    r: Result<(), E>,
)
    requires
        emitted(pre, mid, a, Ok::<(), E>(())),
        emitted(mid, post, b, r),
        depth(a) == 0,
    ensures
        emitted(pre, post, a + b, r),
        depth(a + b) == depth(b),
{
    let x = mid.skip(pre.len() as int);
    let y = post.skip(mid.len() as int);
    assert(post.take(pre.len() as int) =~= pre) by {
        assert(post.take(mid.len() as int) == mid);
        assert(mid.take(pre.len() as int) == pre);
        assert forall|i: int| 0 <= i < pre.len() implies post[i] == pre[i] by {
            assert(post.take(mid.len() as int)[i] == post[i]);
            assert(mid.take(pre.len() as int)[i] == mid[i]);
        }
    }
    assert(post.skip(pre.len() as int) =~= x + y) by {
        assert forall|i: int| 0 <= i < x.len() implies post[pre.len() + i] == x[i] by {
            assert(post.take(mid.len() as int)[pre.len() + i] == post[pre.len() + i]);
        }
    }
    lemma_wrote_then(x, y, a, b, r);
    lemma_depth_concat(a, b);
}

/// A taken `Enter`, a writing that left no scope open, and one attempt at
/// a `Leave`, one after the other on the same sink, are the writing of the
/// whole scope; its result is the error of the `Leave` where that was
/// refused, else the result of what was written inside.
pub proof fn lemma_emitted_scope<E>(
    pre: Seq<Attempt<E>>,
    mid: Seq<Attempt<E>>,
    post: Seq<Attempt<E>>,
    name: Seq<char>,
    inner: Seq<Command>,
    inner_result: Result<(), E>,
)
    requires
        emitted(pre.push(taken::<E>(Command::Enter { name })), mid, inner, inner_result),
        depth(inner) == 0,
        post.len() == mid.len() + 1,
        post.drop_last() == mid,
        post.last().line == Command::Leave.line(),
    ensures
        emitted(
            pre,
            post,
            seq![Command::Enter { name }] + inner + seq![Command::Leave],
            if post.last().outcome is Err {
                post.last().outcome
            } else {
                inner_result
            },
        ),
{
    let entered = pre.push(taken::<E>(Command::Enter { name }));
    let inside = mid.skip(entered.len() as int);
    let leave = post.last().outcome;
    let new = seq![taken::<E>(Command::Enter { name })] + inside + seq![
        Attempt { line: Command::Leave.line(), outcome: leave },
    ];
    lemma_wrote_scope(name, inside, inner, inner_result, leave);
    assert(forall|i: int| 0 <= i < mid.len() ==> post[i] == post.drop_last()[i]);
    assert(forall|i: int| 0 <= i < entered.len() ==> mid[i] == mid.take(entered.len() as int)[i]);
    assert(post.take(pre.len() as int) =~= pre);
    assert(post.skip(pre.len() as int) =~= new);
}

/// The lines of some parts and one more are the lines of the parts,
/// then those of the one.
pub proof fn lemma_concat_push(parts: Seq<Seq<Command>>, part: Seq<Command>)
    ensures
        concat(parts.push(part)) == concat(parts) + part,
{
    assert(parts.push(part).drop_last() =~= parts);
}

/// The lines of two runs of parts are the lines of the first run, then
/// those of the second.
pub proof fn lemma_concat_add(a: Seq<Seq<Command>>, b: Seq<Seq<Command>>)
    ensures
        concat(a + b) == concat(a) + concat(b),
    decreases b.len(),
{
    if b.len() == 0 {
        assert(a + b =~= a);
        assert(concat(a) + concat(b) =~= concat(a));
    } else {
        lemma_concat_add(a, b.drop_last());
        assert((a + b).drop_last() =~= a + b.drop_last());
        assert(concat(a + b) =~= concat(a) + concat(b));
    }
}

/// The lines of the first `i + 1` parts are those of the first `i`, then
/// those of part `i`; and they are where the lines of all parts start.
pub proof fn lemma_concat_take(parts: Seq<Seq<Command>>, i: int)
    requires
        0 <= i < parts.len(),
    ensures
        concat(parts.take(i + 1)) == concat(parts.take(i)) + parts[i],
        concat(parts.take(i + 1)).is_prefix_of(concat(parts)),
{
    assert(parts.take(i + 1) =~= parts.take(i).push(parts[i]));
    lemma_concat_push(parts.take(i), parts[i]);
    let rest = parts.skip(i + 1);
    assert(parts =~= parts.take(i + 1) + rest);
    lemma_concat_add(parts.take(i + 1), rest);
    assert(concat(parts).subrange(0, concat(parts.take(i + 1)).len() as int) =~= concat(
        parts.take(i + 1),
    ));
}

/// Parts that are balanced each have balanced lines together.
pub proof fn lemma_concat_balanced(parts: Seq<Seq<Command>>)
    requires
        all_balanced(parts),
    ensures
        balanced(concat(parts)),
    decreases parts.len(),
{
    if parts.len() == 0 {
        assert(flat(concat(parts)));
        lemma_flat_balanced(concat(parts));
    } else {
        assert forall|i: int| 0 <= i < parts.drop_last().len() implies balanced(
            #[trigger] parts.drop_last()[i],
        ) by {
            assert(parts.drop_last()[i] == parts[i]);
        }
        lemma_concat_balanced(parts.drop_last());
        assert(balanced(parts[parts.len() - 1]));
        lemma_balanced_concat(concat(parts.drop_last()), parts.last());
    }
}

/// One step of writing `parts` in order: after the first `i` parts were
/// written to the sink, part `i` was written, or was empty and left the
/// sink alone. Where that succeeded, the first `i + 1` parts are written;
/// where it failed, the writing of all parts has failed with the same
/// error.
pub proof fn lemma_part<E>(
    pre: Seq<Attempt<E>>,
    mid: Seq<Attempt<E>>,
    post: Seq<Attempt<E>>,
    parts: Seq<Seq<Command>>,
    i: int,
    r: Result<(), E>,
)
    requires
        0 <= i < parts.len(),
        all_balanced(parts),
        emitted(pre, mid, concat(parts.take(i)), Ok::<(), E>(())),
        emitted(mid, post, parts[i], r) || (parts[i].len() == 0 && post == mid && r is Ok),
    ensures
        r is Ok ==> emitted(pre, post, concat(parts.take(i + 1)), Ok::<(), E>(())),
        r is Err ==> emitted(pre, post, concat(parts), r),
{
    if !emitted(mid, post, parts[i], r) {
        lemma_emitted_nothing(mid);
        lemma_ok_is_unit(r);
        assert(parts[i] =~= Seq::<Command>::empty());
    }
    let done = concat(parts.take(i));
    assert(all_balanced(parts.take(i))) by {
        assert forall|j: int| 0 <= j < parts.take(i).len() implies balanced(
            #[trigger] parts.take(i)[j],
        ) by {
            assert(parts.take(i)[j] == parts[j]);
        }
    }
    lemma_concat_balanced(parts.take(i));
    lemma_concat_take(parts, i);
    lemma_emitted_then(pre, mid, post, done, parts[i], r);
    if r is Ok {
        lemma_ok_is_unit(r);
    } else {
        let whole = concat(parts);
        let rest = whole.skip((done + parts[i]).len() as int);
        assert(whole =~= (done + parts[i]) + rest);
        lemma_emitted_stop(pre, post, done + parts[i], rest, r);
    }
}

/// Before any part is written, the first none of them are.
pub proof fn lemma_parts_begin<E>(pre: Seq<Attempt<E>>, parts: Seq<Seq<Command>>)
    ensures
        emitted(pre, pre, concat(parts.take(0)), Ok::<(), E>(())),
{
    lemma_emitted_nothing(pre);
    assert(parts.take(0) =~= Seq::<Seq<Command>>::empty());
}

/// Once all parts are written, the whole is.
pub proof fn lemma_parts_end(parts: Seq<Seq<Command>>)
    ensures
        concat(parts.take(parts.len() as int)) == concat(parts),
{
    assert(parts.take(parts.len() as int) =~= parts);
}

/// Parts that are settings only are balanced each.
pub proof fn lemma_flat_parts(parts: Seq<Seq<Command>>)
    requires
        forall|i: int| 0 <= i < parts.len() ==> flat(#[trigger] parts[i]),
    ensures
        all_balanced(parts),
{
    assert forall|i: int| 0 <= i < parts.len() implies balanced(#[trigger] parts[i]) by {
        lemma_flat_balanced(parts[i]);
    }
}

/// The number of lines that stand before part `i` in the lines of `parts`.
pub open spec fn start_of(parts: Seq<Seq<Command>>, i: int) -> int {
    concat(parts.take(i)).len() as int
}

/// A setting that has no value is no line; one that has a value is one
/// line, with the property and the value in it.
pub proof fn lemma_setting_shape(property: Seq<char>, value: Seq<char>)
    ensures
        text_setting(property, None).len() == 0,
        raw_setting(property, None).len() == 0,
        text_setting(property, Some(value)).len() == 1,
        raw_setting(property, Some(value)).len() == 1,
        text_setting(property, Some(value))[0].line() == "Set('"@ + property + "', u'"@ + value
            + "')"@,
        raw_setting(property, Some(value))[0].line() == "Set('"@ + property + "', "@ + value
            + ")"@,
{
}

/// The lines of part `i` stand in the lines of all parts, as they are,
/// behind the lines of the parts before it and before those of the parts
/// behind it.
pub proof fn lemma_part_place(parts: Seq<Seq<Command>>, i: int)
    requires
        0 <= i < parts.len(),
    ensures
        start_of(parts, i) + parts[i].len() == start_of(parts, i + 1),
        start_of(parts, i + 1) <= concat(parts).len(),
        concat(parts).subrange(start_of(parts, i), start_of(parts, i + 1)) == parts[i],
{
    lemma_concat_take(parts, i);
    let before = concat(parts.take(i));
    let upto = concat(parts.take(i + 1));
    assert(upto.subrange(before.len() as int, upto.len() as int) =~= parts[i]);
    assert(concat(parts).subrange(0, upto.len() as int).subrange(
        before.len() as int,
        upto.len() as int,
    ) =~= concat(parts).subrange(before.len() as int, upto.len() as int));
}

/// The parts stand in the lines of all parts in their order.
pub proof fn lemma_parts_in_order(parts: Seq<Seq<Command>>, i: int, j: int)
    requires
        0 <= i <= j <= parts.len(),
    ensures
        start_of(parts, i) <= start_of(parts, j),
    decreases j - i,
{
    if i < j {
        lemma_parts_in_order(parts, i, j - 1);
        lemma_part_place(parts, j - 1);
    }
}

/// The lines of a single part are that part.
pub proof fn lemma_concat_one(part: Seq<Command>)
    ensures
        concat(seq![part]) == part,
{
    assert(seq![part] =~= Seq::<Seq<Command>>::empty().push(part));
    lemma_concat_push(Seq::<Seq<Command>>::empty(), part);
    assert(concat(Seq::<Seq<Command>>::empty()) + part =~= part);
}

/// Where part `i` is empty, putting the one line `c` in its place puts `c`
/// into the lines of all parts, behind the lines of the parts before part
/// `i`, and leaves every other line as it was.
pub proof fn lemma_part_set(parts: Seq<Seq<Command>>, i: int, c: Command)
    requires
        0 <= i < parts.len(),
        parts[i].len() == 0,
    ensures
        0 <= start_of(parts, i) <= concat(parts).len(),
        concat(parts.update(i, seq![c])) == concat(parts).insert(start_of(parts, i), c),
{
    let head = parts.take(i);
    let tail = parts.skip(i + 1);
    let set = parts.update(i, seq![c]);
    assert(parts =~= head + seq![parts[i]] + tail);
    assert(set =~= head + seq![seq![c]] + tail);
    lemma_concat_add(head, seq![parts[i]]);
    lemma_concat_add(head + seq![parts[i]], tail);
    lemma_concat_add(head, seq![seq![c]]);
    lemma_concat_add(head + seq![seq![c]], tail);
    lemma_concat_one(parts[i]);
    lemma_concat_one(seq![c]);
    assert(concat(set) =~= concat(parts).insert(start_of(parts, i), c));
}

/// Where part `i` is empty, the lines of all parts are those of the other
/// parts.
pub proof fn lemma_part_unset(parts: Seq<Seq<Command>>, i: int)
    requires
        0 <= i < parts.len(),
        parts[i].len() == 0,
    ensures
        concat(parts) == concat(parts.remove(i)),
{
    let head = parts.take(i);
    let tail = parts.skip(i + 1);
    assert(parts =~= head + seq![parts[i]] + tail);
    assert(parts.remove(i) =~= head + tail);
    lemma_concat_add(head, seq![parts[i]]);
    lemma_concat_add(head + seq![parts[i]], tail);
    lemma_concat_add(head, tail);
    lemma_concat_one(parts[i]);
    assert(concat(parts) =~= concat(parts.remove(i)));
}

/// A line put into what is written inside the scope of an object stands in
/// the lines of the object two lines further on, behind the declaration
/// and the line that enters the scope.
pub proof fn lemma_object_insert(
    kind: Seq<char>,
    name: Seq<char>,
    inner: Seq<Command>,
    at: int,
    c: Command,
)
    requires
        0 <= at <= inner.len(),
    ensures
        object(kind, name, inner.insert(at, c)) == object(kind, name, inner).insert(at + 2, c),
{
    assert(object(kind, name, inner.insert(at, c)) =~= object(kind, name, inner).insert(
        at + 2,
        c,
    ));
}

/// Parts that are all empty have no lines.
pub proof fn lemma_concat_empty(parts: Seq<Seq<Command>>)
    requires
        forall|i: int| 0 <= i < parts.len() ==> (#[trigger] parts[i]).len() == 0,
    ensures
        concat(parts) == Seq::<Command>::empty(),
    decreases parts.len(),
{
    if parts.len() > 0 {
        assert forall|i: int| 0 <= i < parts.drop_last().len() implies (
        #[trigger] parts.drop_last()[i]).len() == 0 by {
            assert(parts.drop_last()[i] == parts[i]);
        }
        lemma_concat_empty(parts.drop_last());
        assert(parts[parts.len() - 1].len() == 0);
        assert(concat(parts) =~= Seq::<Command>::empty());
    }
}

} // verus!
