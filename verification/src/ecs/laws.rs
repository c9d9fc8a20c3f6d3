//! What holds of every world, whichever way it was reached.

use crate::ecs::column::{empty_slots, padded, ColumnState};
use crate::ecs::skeleton::{lemma_ran_in_order_concat, ran_in_order, Phase, SkeletonView};
use crate::ecs::world::WorldView;
use crate::engine::frame::Event;
use vstd::prelude::*;

verus! {

/// Creating `n` entities adds exactly `n` to the entity count, creates and
/// removes no column, and leaves every column at home with one slot per
/// entity: the slots it had, then `n` empty ones.
pub proof fn lemma_spawn_many<C>(world: WorldView<C>, n: nat)
    requires
        world.valid(),
    ensures
        world.spawn_many(n).valid(),
        world.spawn_many(n).entity_count == world.entity_count + n,
        forall|kind: u64| world.spawn_many(n).has_column(kind) == world.has_column(kind),
        forall|kind: u64| world.spawn_many(n).is_lent(kind) == world.is_lent(kind),
        forall|kind: u64| #[trigger]
            world.is_home(kind) ==> world.spawn_many(n).is_home(kind) && world.spawn_many(n).cells(
                kind,
            ) == world.cells(kind) + empty_slots::<C>(n),
    decreases n,
{
    if n == 0 {
        assert forall|kind: u64| #[trigger] world.is_home(kind) implies world.cells(kind)
            == world.cells(kind) + empty_slots::<C>(0) by {
            assert(world.cells(kind) =~= world.cells(kind) + empty_slots::<C>(0));
        }
    } else {
        let before = world.spawn_many((n - 1) as nat);
        lemma_spawn_many(world, (n - 1) as nat);
        let after = before.spawn();
        assert(after == world.spawn_many(n));
        assert forall|kind: u64| #[trigger] world.is_home(kind) implies after.is_home(kind)
            && after.cells(kind) == world.cells(kind) + empty_slots::<C>(n) by {
            assert(before.is_home(kind));
            assert(after.cells(kind) == before.cells(kind).push(None));
            assert(before.cells(kind).push(None) =~= world.cells(kind) + empty_slots::<C>(n));
        }
        assert forall|kind: u64| #[trigger] after.is_home(kind) implies after.cells(kind).len()
            == after.entity_count by {
            assert(before.is_home(kind));
        }
    }
}

/// A world that starts empty and has `n` entities created in it counts `n`
/// entities and has no column.
pub proof fn lemma_spawn_from_empty<C>(n: nat)
    ensures
        WorldView::<C>::empty().spawn_many(n).entity_count == n,
        WorldView::<C>::empty().spawn_many(n).valid(),
        forall|kind: u64| !WorldView::<C>::empty().spawn_many(n).has_column(kind),
{
    let start = WorldView::<C>::empty();
    lemma_spawn_many(start, n);
    assert forall|kind: u64| !start.spawn_many(n).has_column(kind) by {
        assert(start.spawn_many(n).has_column(kind) == start.has_column(kind));
    }
}

/// Right after `entity` was given `value`, the column of that kind is at
/// home with one slot per entity; the slot of `entity` holds `value`; every
/// other slot is what it was, and empty if the column is new. The entity
/// count and the columns of other kinds are untouched.
pub proof fn lemma_add_then_borrow<C>(world: WorldView<C>, entity: nat, kind: u64, value: C)
    requires
        world.valid(),
        entity < world.entity_count,
        !world.is_lent(kind),
    ensures
        ({
            let after = world.add(entity, kind, value);
            &&& after.valid()
            &&& after.entity_count == world.entity_count
            &&& after.is_home(kind)
            &&& after.cells(kind).len() == world.entity_count
            &&& after.cells(kind)[entity as int] == Some(value)
            &&& forall|other: int|
                0 <= other < world.entity_count && other != entity ==> #[trigger] after.cells(
                    kind,
                )[other] == if world.has_column(kind) {
                    world.cells(kind)[other]
                } else {
                    None
                }
            &&& forall|k: u64|
                k != kind ==> after.has_column(k) == world.has_column(k) && after.columns[k]
                    == world.columns[k]
        }),
{
    let after = world.add(entity, kind, value);
    assert(world.has_column(kind) ==> world.is_home(kind));
    assert forall|k: u64| #[trigger] after.is_home(k) implies after.cells(k).len()
        == after.entity_count by {
        if k != kind {
            assert(world.is_home(k));
        }
    }
}

/// The first component of a kind makes a column with one slot per entity,
/// all of them empty but the one that was set.
pub proof fn lemma_add_new_kind<C>(world: WorldView<C>, entity: nat, kind: u64, value: C)
    requires
        world.valid(),
        entity < world.entity_count,
        !world.has_column(kind),
    ensures
        world.add(entity, kind, value).is_home(kind),
        world.add(entity, kind, value).cells(kind).len() == world.entity_count,
        world.add(entity, kind, value).cells(kind) == empty_slots::<C>(world.entity_count).update(
            entity as int,
            Some(value),
        ),
{
}

/// Lending a column and taking the same slots back leaves the world as it
/// was: a second look at the column shows what the first one showed.
pub proof fn lemma_borrow_release_round_trip<C>(world: WorldView<C>, kind: u64)
    requires
        world.valid(),
        world.is_home(kind),
    ensures
        world.lend(kind).accepts(kind, world.cells(kind)),
        world.lend(kind).restore(kind, world.cells(kind)) == world,
{
    let back = world.lend(kind).restore(kind, world.cells(kind));
    assert(padded(world.cells(kind), world.entity_count) == world.cells(kind));
    assert(world.columns[kind] == ColumnState::Home(world.cells(kind)));
    assert(back.columns =~= world.columns);
}

/// A slot emptied through a lease is empty at the next look, and stays so
/// for as long as nothing writes to it: once the slots are back, looking
/// again any number of times changes neither them nor the world.
pub proof fn lemma_cleared_slot_stays_cleared<C>(world: WorldView<C>, entity: nat, kind: u64)
    requires
        world.valid(),
        world.is_home(kind),
        entity < world.entity_count,
    ensures
        ({
            let cleared = world.lend(kind).restore(
                kind,
                world.cells(kind).update(entity as int, None),
            );
            &&& cleared.valid()
            &&& cleared.is_home(kind)
            &&& cleared.cells(kind) == world.cells(kind).update(entity as int, None)
            &&& cleared.cells(kind)[entity as int] == None::<C>
            &&& cleared.lend(kind).restore(kind, cleared.cells(kind)) == cleared
        }),
{
    let emptied = world.cells(kind).update(entity as int, None);
    let cleared = world.lend(kind).restore(kind, emptied);
    assert(padded(emptied, world.entity_count) == emptied);
    assert forall|k: u64| #[trigger] cleared.is_home(k) implies cleared.cells(k).len()
        == cleared.entity_count by {
        if k != kind {
            assert(world.is_home(k));
        }
    }
    lemma_borrow_release_round_trip(cleared, kind);
}

/// While the slots of a column are out, the column is on loan, so asking
/// for it again is a conflict; the columns of other kinds are as they were.
/// Once the slots are back the column is at home and can be lent anew.
pub proof fn lemma_loan_is_exclusive<C>(world: WorldView<C>, kind: u64, returned: Seq<Option<C>>)
    requires
        world.valid(),
        world.is_home(kind),
        returned.len() <= world.entity_count,
    ensures
        world.lend(kind).valid(),
        world.lend(kind).is_lent(kind),
        !world.lend(kind).is_home(kind),
        forall|k: u64|
            k != kind ==> world.lend(kind).has_column(k) == world.has_column(k) && world.lend(
                kind,
            ).columns[k] == world.columns[k],
        world.lend(kind).accepts(kind, returned),
        world.lend(kind).restore(kind, returned).valid(),
        world.lend(kind).restore(kind, returned).is_home(kind),
        !world.lend(kind).restore(kind, returned).is_lent(kind),
{
    let lent = world.lend(kind);
    assert forall|k: u64| #[trigger] lent.is_home(k) implies lent.cells(k).len()
        == lent.entity_count by {
        assert(world.is_home(k));
    }
    let back = lent.restore(kind, returned);
    assert forall|k: u64| #[trigger] back.is_home(k) implies back.cells(k).len()
        == back.entity_count by {
        if k != kind {
            assert(world.is_home(k));
        }
    }
}

/// Starting a skeleton that is running runs nothing: the world stays as it
/// is, whichever start-up systems are registered.
pub proof fn lemma_start_runs_nothing_twice<W, S: Fn(W) -> W>(
    skeleton: SkeletonView<W, S>,
    next: SkeletonView<W, S>,
)
    requires
        skeleton.phase == Phase::Running,
        skeleton.started(next),
    ensures
        next.world == skeleton.world,
        next.phase == Phase::Running,
{
}

/// `systems`, `n` times over.
pub open spec fn repeated<S>(systems: Seq<S>, n: nat) -> Seq<S>
    decreases n,
{
    if n == 0 {
        Seq::empty()
    } else {
        repeated(systems, (n - 1) as nat) + systems
    }
}

/// `trace` is a skeleton before start-up followed by what it was after each
/// of one or more ticks.
pub open spec fn ticks_from_start<W, S: Fn(W) -> W>(trace: Seq<SkeletonView<W, S>>) -> bool {
    &&& trace.len() >= 2
    &&& trace[0].phase == Phase::Initializing
    &&& forall|i: int| 0 <= i < trace.len() - 1 ==> (#[trigger] trace[i]).ticked(trace[i + 1])
}

/// However many ticks follow, the start-up systems run once, in
/// registration order and ahead of the first frame system; after them the
/// frame systems run in registration order once per tick, and nothing else
/// runs. From the first tick on the skeleton is running, and a tick is due
/// to run the frame systems alone.
pub proof fn lemma_init_runs_once<W, S: Fn(W) -> W>(trace: Seq<SkeletonView<W, S>>)
    requires
        ticks_from_start(trace),
    ensures
        ran_in_order(
            trace[0].init_systems + repeated(trace[0].frame_systems, (trace.len() - 1) as nat),
            trace[0].world,
            trace.last().world,
        ),
        forall|i: int|
            1 <= i < trace.len() ==> {
                &&& (#[trigger] trace[i]).phase == Phase::Running
                &&& trace[i].init_systems == trace[0].init_systems
                &&& trace[i].frame_systems == trace[0].frame_systems
                &&& trace[i].due_at_tick() == trace[0].frame_systems
            },
    decreases trace.len(),
{
    let first = trace[0];
    let init = first.init_systems;
    let frame = first.frame_systems;
    if trace.len() == 2 {
        assert(first.ticked(trace[1]));
        assert(repeated(frame, 1) == frame) by {
            assert(repeated(frame, 0) + frame == frame);
        }
        assert(trace[1].due_at_tick() == frame) by {
            assert(Seq::<S>::empty() + frame == frame);
        }
    } else {
        let shorter = trace.drop_last();
        assert forall|i: int| 0 <= i < shorter.len() - 1 implies (#[trigger] shorter[i]).ticked(
            shorter[i + 1],
        ) by {
            assert(trace[i].ticked(trace[i + 1]));
        }
        lemma_init_runs_once(shorter);
        let n = (trace.len() - 1) as nat;
        let before_last = trace[n - 1];
        assert(before_last == shorter[n - 1]);
        assert(before_last.ticked(trace[n as int]));
        assert(before_last.due_at_tick() == frame);
        lemma_ran_in_order_concat(
            init + repeated(frame, (n - 1) as nat),
            frame,
            first.world,
            before_last.world,
            trace.last().world,
        );
        assert((init + repeated(frame, (n - 1) as nat)) + frame == init + repeated(frame, n));
        assert forall|i: int| 1 <= i < trace.len() implies {
            &&& (#[trigger] trace[i]).phase == Phase::Running
            &&& trace[i].init_systems == init
            &&& trace[i].frame_systems == frame
            &&& trace[i].due_at_tick() == frame
        } by {
            if i < n {
                assert(trace[i] == shorter[i]);
            } else {
                assert(Seq::<S>::empty() + frame == frame);
            }
        }
    }
}

/// How many of `events` are frame ticks.
pub open spec fn frame_ticks(events: Seq<Event>) -> nat
    decreases events.len(),
{
    if events.len() == 0 {
        0
    } else {
        frame_ticks(events.drop_last()) + if events.last().is_frame_tick() {
            1nat
        } else {
            0nat
        }
    }
}

/// `trace` is a skeleton followed by what it was after each of `events` was
/// delivered to it, in turn.
pub open spec fn deliveries<W, S: Fn(W) -> W>(
    trace: Seq<SkeletonView<W, S>>,
    events: Seq<Event>,
) -> bool {
    &&& trace.len() == events.len() + 1
    &&& forall|i: int|
        0 <= i < events.len() ==> (#[trigger] trace[i]).answered(events[i], trace[i + 1])
}

/// Whatever else the loop delivers, the frame systems run one round per
/// frame tick and no more: after deliveries of which `n` are frame ticks,
/// the world is what `n` rounds of the frame systems make of it, behind
/// the start-up systems if these were still due and a frame tick came.
/// Without a frame tick nothing has run and the phase is what it was.
pub proof fn lemma_rounds_follow_frame_ticks<W, S: Fn(W) -> W>(
    trace: Seq<SkeletonView<W, S>>,
    events: Seq<Event>,
)
    requires
        deliveries(trace, events),
    ensures
        ({
            let first = trace[0];
            let last = trace.last();
            let n = frame_ticks(events);
            &&& last.init_systems == first.init_systems
            &&& last.frame_systems == first.frame_systems
            &&& n == 0 ==> last.world == first.world && last.phase == first.phase
            &&& n > 0 ==> last.phase == Phase::Running && ran_in_order(
                first.due_at_start() + repeated(first.frame_systems, n),
                first.world,
                last.world,
            )
        }),
    decreases events.len(),
{
    if events.len() > 0 {
        let first = trace[0];
        let frame = first.frame_systems;
        let before = trace[trace.len() - 2];
        let last = trace.last();
        let earlier = events.drop_last();
        let shorter = trace.drop_last();
        assert forall|i: int| 0 <= i < earlier.len() implies (#[trigger] shorter[i]).answered(
            earlier[i],
            shorter[i + 1],
        ) by {
            assert(trace[i].answered(events[i], trace[i + 1]));
        }
        lemma_rounds_follow_frame_ticks(shorter, earlier);
        assert(shorter[0] == first && shorter.last() == before);
        assert(before.answered(events.last(), last));
        let m = frame_ticks(earlier);
        if events.last().is_frame_tick() {
            if m == 0 {
                assert(before.due_at_tick() == first.due_at_start() + frame);
                assert(repeated(frame, 1) == frame) by {
                    assert(repeated(frame, 0) + frame == frame);
                }
            } else {
                assert(before.due_at_tick() == frame) by {
                    assert(Seq::<S>::empty() + frame == frame);
                }
                lemma_ran_in_order_concat(
                    first.due_at_start() + repeated(frame, m),
                    frame,
                    first.world,
                    before.world,
                    last.world,
                );
                assert((first.due_at_start() + repeated(frame, m)) + frame == first.due_at_start()
                    + repeated(frame, m + 1));
            }
        }
    }
}

} // verus!