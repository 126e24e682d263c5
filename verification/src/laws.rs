//! What holds of the executor's scheduling passes: the laws that tie the
//! ticks, the edges, the flag and the output together.

use crate::blink::{after_ticks, decision, lemma_level_follows_toggles};
use crate::button::{ButtonState, ButtonTask};
use crate::executor::{lemma_poll_keeps_shape, ExecutorView};
use crate::flag::flipped;
use crate::task::TaskView;
use crate::ticker::{lemma_catch_up, lemma_due_after_firings, lemma_no_drift, TickerView};
use vstd::prelude::*;

verus! {

/// Over a stretch of the table in which no button task runs, the shared flag
/// keeps its value: a blink task only reads it.
pub proof fn lemma_flag_kept(executor: ExecutorView, from: nat, to: nat)
    requires
        from <= to <= executor.tasks.len(),
        forall|i: int|
            from <= i < to ==> !((#[trigger] executor.tasks[i]) is Button
                && executor.tasks[i].runnable()),
    ensures
        executor.flag_before(to) == executor.flag_before(from),
    decreases to,
{
    if from < to {
        lemma_flag_kept(executor, from, (to - 1) as nat);
        assert(!(executor.tasks[to - 1] is Button && executor.tasks[to - 1].runnable()));
    }
}

/// With no tick due, no edge pending and no task waiting to run, a scheduling
/// pass resumes no task and changes nothing.
pub proof fn lemma_idle_poll_changes_nothing(executor: ExecutorView, now: nat)
    requires
        executor.idle(now),
    ensures
        executor.polled(now) == executor,
        executor.ready_count(now, executor.tasks.len()) == 0,
{
    let woken = executor.woken(now);
    assert(woken.tasks =~= executor.tasks) by {
        assert forall|i: int| 0 <= i < executor.tasks.len() implies woken.tasks[i]
            == executor.tasks[i] by {
            assert(!executor.tasks[i].ready(now));
        }
    }
    assert forall|i: nat| i <= executor.tasks.len() implies #[trigger] woken.flag_before(i)
        == executor.flag by {
        assert forall|j: int| 0 <= j < i implies !((#[trigger] woken.tasks[j]) is Button
            && woken.tasks[j].runnable()) by {
            assert(!executor.tasks[j].ready(now));
        }
        lemma_flag_kept(woken, 0, i);
    }
    assert(woken.ran().tasks =~= executor.tasks) by {
        assert forall|i: int| 0 <= i < executor.tasks.len() implies woken.ran().tasks[i]
            == executor.tasks[i] by {
            assert(!executor.tasks[i].ready(now));
            assert(woken.flag_before(i as nat) == executor.flag);
        }
    }
    assert(woken.flag_before(executor.tasks.len()) == executor.flag);
    lemma_ready_count_zero(executor, now, executor.tasks.len());
}

/// No task is counted where none is ready.
proof fn lemma_ready_count_zero(executor: ExecutorView, now: nat, n: nat)
    requires
        executor.idle(now),
        n <= executor.tasks.len(),
    ensures
        executor.ready_count(now, n) == 0,
    decreases n,
{
    if n > 0 {
        lemma_ready_count_zero(executor, now, (n - 1) as nat);
        assert(!executor.tasks[n - 1].ready(now));
    }
}

/// Ticks never write the flag: a scheduling pass in which no button task is
/// ready leaves the shared flag as it was, however many blink tasks run.
pub proof fn lemma_ticks_keep_flag(executor: ExecutorView, now: nat)
    requires
        forall|i: int|
            0 <= i < executor.tasks.len() && (#[trigger] executor.tasks[i]) is Button
                ==> !executor.tasks[i].ready(now),
    ensures
        executor.polled(now).flag == executor.flag,
        forall|i: nat|
            i <= executor.tasks.len() ==> #[trigger] executor.woken(now).flag_before(i)
                == executor.flag,
{
    let woken = executor.woken(now);
    assert forall|i: nat| i <= executor.tasks.len() implies #[trigger] woken.flag_before(i)
        == executor.flag by {
        assert forall|j: int| 0 <= j < i implies !((#[trigger] woken.tasks[j]) is Button
            && woken.tasks[j].runnable()) by {
            if executor.tasks[j] is Button {
                assert(!executor.tasks[j].ready(now));
            }
        }
        lemma_flag_kept(woken, 0, i);
    }
    assert(woken.flag_before(executor.tasks.len()) == executor.flag);
}

/// In a scheduling pass in which no button task is ready, a suspended blink
/// task acts on its output exactly when its tick is due: it toggles if it is
/// free-running or the flag is set, and leaves the output alone if it is
/// gated and the flag is clear. Its ticker fires once if it is due. Without a
/// tick the task and its output stay as they are.
pub proof fn lemma_poll_drives_output(executor: ExecutorView, id: int, now: nat)
    requires
        0 <= id < executor.tasks.len(),
        executor.tasks[id] is Blink,
        executor.tasks[id].is_suspended(),
        forall|i: int|
            0 <= i < executor.tasks.len() && (#[trigger] executor.tasks[i]) is Button
                ==> !executor.tasks[i].ready(now),
    ensures
        executor.polled(now).tasks[id] == match executor.tasks[id] {
            TaskView::Blink { blink, ticker, led } => TaskView::Blink {
                blink,
                ticker: ticker.polled(now),
                led: if ticker.due(now) {
                    decision(blink.mode, executor.flag).applied_to(led)
                } else {
                    led
                },
            },
            TaskView::Button { .. } => executor.tasks[id],
        },
{
    lemma_ticks_keep_flag(executor, now);
    lemma_poll_keeps_shape(executor, now);
    assert(executor.woken(now).flag_before(id as nat) == executor.flag);
}

/// A rising edge delivered to a waiting button task flips the shared flag
/// exactly once, whatever the blink tasks do in the meantime: the pass that
/// follows the edge flips the flag, and a pass after that does not flip it
/// again. A second edge that arrives before the task has been resumed is
/// merged with the first.
pub proof fn lemma_edge_flips_flag_once(executor: ExecutorView, id: int, now: nat, later: nat)
    requires
        0 <= id < executor.tasks.len(),
        executor.tasks[id] is Button,
        executor.tasks[id].is_suspended(),
        forall|i: int|
            0 <= i < executor.tasks.len() && i != id ==> (#[trigger] executor.tasks[i]) is Blink,
    ensures
        executor.edge_signalled(id).polled(now).flag == flipped(executor.flag),
        executor.edge_signalled(id).polled(now).polled(later).flag == flipped(executor.flag),
        executor.edge_signalled(id).edge_signalled(id) == executor.edge_signalled(id),
        executor.edge_signalled(id).polled(now).tasks[id] == (TaskView::Button {
            button: ButtonTask { state: ButtonState::WaitingForEdge },
            edge_pending: false,
        }),
{
    let signalled = executor.edge_signalled(id);
    let woken = signalled.woken(now);
    let n = executor.tasks.len();
    assert(signalled.edge_signalled(id).tasks =~= signalled.tasks);
    // Up to the button task the flag is only read.
    assert forall|i: int| 0 <= i < id implies !((#[trigger] woken.tasks[i]) is Button
        && woken.tasks[i].runnable()) by {
        assert(executor.tasks[i] is Blink);
    }
    lemma_flag_kept(woken, 0, id as nat);
    // The button task flips it.
    assert(woken.tasks[id].runnable());
    assert(woken.flag_before((id + 1) as nat) == flipped(executor.flag));
    // After the button task it is only read again.
    assert forall|i: int| id + 1 <= i < n implies !((#[trigger] woken.tasks[i]) is Button
        && woken.tasks[i].runnable()) by {
        assert(executor.tasks[i] is Blink);
    }
    lemma_flag_kept(woken, (id + 1) as nat, n);
    // The next pass finds the button task suspended with no edge pending.
    let after = signalled.polled(now);
    lemma_poll_keeps_shape(signalled, now);
    assert forall|i: int| 0 <= i < after.tasks.len() && (#[trigger] after.tasks[i]) is Button
        implies !after.tasks[i].ready(later) by {
        if i != id {
            assert(executor.tasks[i] is Blink);
        }
    }
    lemma_ticks_keep_flag(after, later);
}

/// Two edges, each followed by a scheduling pass, leave the shared flag as it
/// was before the first, whenever the passes are made and whatever the blink
/// tasks do.
pub proof fn lemma_two_edges_restore_flag(
    executor: ExecutorView,
    id: int,
    first: nat,
    second: nat,
)
    requires
        0 <= id < executor.tasks.len(),
        executor.tasks[id] is Button,
        executor.tasks[id].is_suspended(),
        forall|i: int|
            0 <= i < executor.tasks.len() && i != id ==> (#[trigger] executor.tasks[i]) is Blink,
    ensures
        executor.edge_signalled(id).polled(first).edge_signalled(id).polled(second).flag
            == executor.flag,
{
    let signalled = executor.edge_signalled(id);
    let between = signalled.polled(first);
    lemma_edge_flips_flag_once(executor, id, first, first);
    lemma_poll_keeps_shape(signalled, first);
    assert forall|i: int| 0 <= i < between.tasks.len() && i != id implies (
    #[trigger] between.tasks[i]) is Blink by {
        assert(executor.tasks[i] is Blink);
    }
    lemma_edge_flips_flag_once(between, id, second, second);
}

/// An idle executor stays idle until one of the two outside events occurs:
/// as long as no deadline has been reached and no edge has arrived, a pass
/// finds nothing to do.
pub proof fn lemma_idle_until_event(executor: ExecutorView, now: nat, later: nat)
    requires
        executor.idle(now),
        forall|i: int|
            0 <= i < executor.tasks.len() && (#[trigger] executor.tasks[i]).deadline().is_some()
                ==> later < executor.tasks[i].deadline().unwrap(),
    ensures
        executor.idle(later),
        executor.polled(later) == executor,
{
    assert forall|i: int| 0 <= i < executor.tasks.len() implies !(
    #[trigger] executor.tasks[i]).ready(later) by {
        assert(!executor.tasks[i].ready(now));
    }
    lemma_idle_poll_changes_nothing(executor, later);
}

/// Passes made one after the other at one time are passes at a series of
/// times that are all that time.
pub proof fn lemma_polled_times_is_polled_at(executor: ExecutorView, now: nat, passes: nat)
    ensures
        executor.polled_times(now, passes) == executor.polled_at(Seq::new(passes, |i: int| now)),
    decreases passes,
{
    if passes > 0 {
        lemma_polled_times_is_polled_at(executor, now, (passes - 1) as nat);
        assert(Seq::new(passes, |i: int| now).drop_last() =~= Seq::new(
            (passes - 1) as nat,
            |i: int| now,
        ));
    }
}

/// As long as no edge arrives, the output of a blink task follows its ticker
/// and nothing else. After passes at any series of times, however late or
/// early they come, the flag is as it was, the ticker has been polled at each
/// of those times, and the output has seen one tick resumption for each time
/// that the ticker fired, with the flag at its unchanged value.
pub proof fn lemma_output_follows_ticks(executor: ExecutorView, id: int, nows: Seq<nat>)
    requires
        0 <= id < executor.tasks.len(),
        executor.tasks[id] is Blink,
        executor.tasks[id].is_suspended(),
        executor.buttons_quiet(),
    ensures
        executor.polled_at(nows).flag == executor.flag,
        executor.polled_at(nows).buttons_quiet(),
        executor.polled_at(nows).tasks.len() == executor.tasks.len(),
        match executor.tasks[id] {
            TaskView::Blink { blink, ticker, led } => executor.polled_at(nows).tasks[id]
                == (TaskView::Blink {
                blink,
                ticker: ticker.polled_at(nows),
                led: after_ticks(
                    blink,
                    led,
                    Seq::new(ticker.fired_count(nows), |k: int| executor.flag),
                ).level,
            }),
            TaskView::Button { .. } => true,
        },
    decreases nows.len(),
{
    match executor.tasks[id] {
        TaskView::Blink { blink, ticker, led } => {
            if nows.len() == 0 {
                assert(Seq::new(0, |k: int| executor.flag).len() == 0);
            } else {
                let init = nows.drop_last();
                let now = nows.last();
                lemma_output_follows_ticks(executor, id, init);
                let before = executor.polled_at(init);
                assert forall|i: int|
                    0 <= i < before.tasks.len() && (#[trigger] before.tasks[i]) is Button
                    implies !before.tasks[i].ready(now) by {}
                lemma_poll_drives_output(before, id, now);
                lemma_ticks_keep_flag(before, now);
                lemma_poll_keeps_shape(before, now);
                let after = before.polled(now);
                assert forall|i: int| 0 <= i < after.tasks.len() implies match (
                #[trigger] after.tasks[i]) {
                    TaskView::Blink { .. } => true,
                    TaskView::Button { button, edge_pending } => button.is_suspended()
                        && !edge_pending,
                } by {
                    let quiet = before.tasks[i];
                    assert(after.tasks[i] == quiet.woken(now).ran(
                        before.woken(now).flag_before(i as nat),
                    ).0);
                }
                let fired = ticker.fired_count(init);
                let flags = Seq::new(fired, |k: int| executor.flag);
                if ticker.polled_at(init).due(now) {
                    let more = Seq::new(fired + 1, |k: int| executor.flag);
                    assert(more.drop_last() =~= flags);
                    assert(more.last() == executor.flag);
                    lemma_level_follows_toggles(blink, led, flags);
                }
            }
        },
        TaskView::Button { .. } => {},
    }
}

/// What the executor has done once it is idle again. As long as no edge
/// arrives, passes made at `now` until nothing is left to do serve every
/// deadline that a blink task's ticker has reached, one tick resumption
/// each, and no other: the ticker then waits for its first deadline after
/// `now`, and the output has seen as many tick resumptions as deadlines were
/// reached.
pub proof fn lemma_settled_output(executor: ExecutorView, id: int, now: nat, passes: nat)
    requires
        0 <= id < executor.tasks.len(),
        executor.tasks[id] is Blink,
        executor.tasks[id].is_suspended(),
        executor.tasks[id].wf(),
        executor.buttons_quiet(),
        executor.polled_times(now, passes).idle(now),
    ensures
        executor.polled_times(now, passes).flag == executor.flag,
        match executor.tasks[id] {
            TaskView::Blink { blink, ticker, led } => executor.polled_times(now, passes).tasks[id]
                == (TaskView::Blink {
                blink,
                ticker: TickerView {
                    period: ticker.period,
                    deadline: ticker.deadline + ticker.deadlines_reached(now) * ticker.period,
                },
                led: after_ticks(
                    blink,
                    led,
                    Seq::new(ticker.deadlines_reached(now), |k: int| executor.flag),
                ).level,
            }),
            TaskView::Button { .. } => true,
        },
{
    match executor.tasks[id] {
        TaskView::Blink { blink, ticker, led } => {
            let times = Seq::new(passes, |i: int| now);
            lemma_polled_times_is_polled_at(executor, now, passes);
            lemma_output_follows_ticks(executor, id, times);
            lemma_catch_up(ticker, now, passes);
            lemma_no_drift(ticker, times);
            lemma_due_after_firings(ticker, now, ticker.fired_count(times));
            let settled = executor.polled_times(now, passes);
            assert(!settled.tasks[id].ready(now));
        },
        TaskView::Button { .. } => {},
    }
}

} // verus!
