//! The scheduler: start-up systems that run once, frame systems that run on
//! every tick, both in the order in which they were registered.

use crate::engine::frame::{Directive, Event, State, SurfaceStatus};
use vstd::prelude::*;

verus! {

/// Where a skeleton is in its life.
#[derive(Clone, Copy, Debug, PartialEq, Eq, Structural)]
pub enum Phase {
    /// The start-up systems have not run yet.
    Initializing,
    /// The start-up systems have run; only frame systems run from here on.
    Running,
}

/// `after` is a world that running `systems` one after the other, first to
/// last, each on the world the one before it left, can make of `before`.
pub open spec fn ran_in_order<W, S: Fn(W) -> W>(systems: Seq<S>, before: W, after: W) -> bool
    decreases systems.len(),
{
    if systems.len() == 0 {
        after == before
    } else {
        exists|mid: W|
            ran_in_order(systems.drop_last(), before, mid) && #[trigger] call_ensures(
                systems.last(),
                (mid,),
                after,
            )
    }
}

/// A system that can be called on any world.
pub open spec fn runs_anywhere<W, S: Fn(W) -> W>(system: S) -> bool {
    forall|world: W| #[trigger] call_requires(system, (world,))
}

/// A skeleton as contracts see it.
pub struct SkeletonView<W, S> {
    pub world: W,
    pub state: State,
    pub init_systems: Seq<S>,
    pub frame_systems: Seq<S>,
    pub phase: Phase,
}

impl<W, S: Fn(W) -> W> SkeletonView<W, S> {
    /// The systems that starting runs: the start-up systems if they have
    /// not run yet, none if they have.
    pub open spec fn due_at_start(self) -> Seq<S> {
        match self.phase {
            Phase::Initializing => self.init_systems,
            Phase::Running => Seq::empty(),
        }
    }

    /// The systems that the next tick runs: the frame systems, behind the
    /// start-up systems if those have not run yet.
    pub open spec fn due_at_tick(self) -> Seq<S> {
        self.due_at_start() + self.frame_systems
    }

    /// `next` is this skeleton after `systems` ran on its world: running,
    /// with the same systems registered.
    pub open spec fn ran(self, systems: Seq<S>, next: Self) -> bool {
        &&& next.init_systems == self.init_systems
        &&& next.frame_systems == self.frame_systems
        &&& next.phase == Phase::Running
        &&& ran_in_order(systems, self.world, next.world)
    }

    /// `next` is this skeleton after it was started, whatever became of
    /// the engine state.
    pub open spec fn started(self, next: Self) -> bool {
        self.ran(self.due_at_start(), next)
    }

    /// `next` is this skeleton after one tick, whatever became of the
    /// engine state.
    pub open spec fn ticked(self, next: Self) -> bool {
        self.ran(self.due_at_tick(), next)
    }

    /// `next` is this skeleton after `event` was delivered, whatever became
    /// of the engine state: ticked once if the event is a frame tick, and
    /// otherwise the same world, systems and phase.
    pub open spec fn answered(self, event: Event, next: Self) -> bool {
        if event.is_frame_tick() {
            self.ticked(next)
        } else {
            next == (SkeletonView::<W, S> { state: next.state, ..self })
        }
    }
}

/// A world, the engine state, and the systems that work on the world.
///
/// A system takes the world, which makes its access exclusive, and gives
/// it back when it is done. It keeps nothing between two calls: whatever
/// is to last is in the world.
#[verifier::reject_recursive_types(W)]
pub struct Skeleton<W, S: Fn(W) -> W> {
    world: W,
    state: State,
    init_system: Vec<S>,
    system: Vec<S>,
    phase: Phase,
}

impl<W, S: Fn(W) -> W> View for Skeleton<W, S> {
    type V = SkeletonView<W, S>;

    closed spec fn view(&self) -> SkeletonView<W, S> {
        SkeletonView {
            world: self.world,
            state: self.state,
            init_systems: self.init_system@,
            frame_systems: self.system@,
            phase: self.phase,
        }
    }
}

/// Running `first` and then `second` is running the two lists as one.
pub proof fn lemma_ran_in_order_concat<W, S: Fn(W) -> W>(
    first: Seq<S>,
    second: Seq<S>,
    before: W,
    mid: W,
    after: W,
)
    requires
        ran_in_order(first, before, mid),
        ran_in_order(second, mid, after),
    ensures
        ran_in_order(first + second, before, after),
    decreases second.len(),
{
    if second.len() == 0 {
        assert(first + second == first);
    } else {
        let last_in = choose|w: W|
            ran_in_order(second.drop_last(), mid, w) && #[trigger] call_ensures(
                second.last(),
                (w,),
                after,
            );
        lemma_ran_in_order_concat(first, second.drop_last(), before, mid, last_in);
        assert((first + second).drop_last() == first + second.drop_last());
        assert((first + second).last() == second.last());
    }
}

/// Runs `systems` in order, handing each the world that the one before
/// returned.
fn run_systems<W, S: Fn(W) -> W>(systems: &Vec<S>, world: W) -> (after: W)
    requires
        forall|i: int| 0 <= i < systems.len() ==> runs_anywhere(#[trigger] systems[i]),
    ensures
        ran_in_order(systems@, world, after),
{
    let mut current = world;
    let mut i: usize = 0;
    while i < systems.len()
        invariant
            i <= systems.len(),
            forall|i: int| 0 <= i < systems.len() ==> runs_anywhere(#[trigger] systems[i]),
            ran_in_order(systems@.take(i as int), world, current),
        decreases systems.len() - i,
    {
        let ghost mid = current;
        assert(runs_anywhere(systems[i as int]));
        current = (systems[i])(current);
        proof {
            let done = systems@.take(i + 1);
            assert(done.drop_last() == systems@.take(i as int));
            assert(done.last() == systems[i as int]);
            assert(call_ensures(done.last(), (mid,), current));
        }
        i = i + 1;
    }
    assert(systems@.take(i as int) == systems@);
    current
}

impl<W, S: Fn(W) -> W> Skeleton<W, S> {
    #[verifier::type_invariant]
    spec fn well_formed(&self) -> bool {
        &&& forall|i: int|
            0 <= i < self.init_system.len() ==> runs_anywhere(#[trigger] self.init_system[i])
        &&& forall|i: int| 0 <= i < self.system.len() ==> runs_anywhere(#[trigger] self.system[i])
    }

    /// A skeleton around `world` with no systems yet, before start-up.
    pub fn new(world: W, state: State) -> (skeleton: Self)
        ensures
            skeleton@ == (SkeletonView::<W, S> {
                world,
                state,
                init_systems: Seq::empty(),
                frame_systems: Seq::empty(),
                phase: Phase::Initializing,
            }),
    {
        Skeleton { world, state, init_system: Vec::new(), system: Vec::new(), phase: Phase::Initializing }
    }

    /// Registers `system` behind the start-up systems registered so far.
    pub fn add_init_system(self, system: S) -> (skeleton: Self)
        requires
            runs_anywhere(system),
        ensures
            skeleton@ == (SkeletonView::<W, S> {
                init_systems: self@.init_systems.push(system),
                ..self@
            }),
    {
        proof {
            use_type_invariant(&self);
        }
        let Skeleton { world, state, init_system, system: frame, phase } = self;
        let mut init_system = init_system;
        init_system.push(system);
        Skeleton { world, state, init_system, system: frame, phase }
    }

    /// Registers `system` behind the frame systems registered so far.
    pub fn add_system(self, system: S) -> (skeleton: Self)
        requires
            runs_anywhere(system),
        ensures
            skeleton@ == (SkeletonView::<W, S> {
                frame_systems: self@.frame_systems.push(system),
                ..self@
            }),
    {
        proof {
            use_type_invariant(&self);
        }
        let Skeleton { world, state, init_system, system: frame, phase } = self;
        let mut frame = frame;
        frame.push(system);
        Skeleton { world, state, init_system, system: frame, phase }
    }

    /// Runs the start-up systems, in registration order, if they have not
    /// run yet. Afterwards the skeleton is running.
    pub fn start(self) -> (skeleton: Self)
        ensures
            self@.started(skeleton@),
            skeleton@.state == self@.state,
    {
        proof {
            use_type_invariant(&self);
        }
        let Skeleton { world, state, init_system, system, phase } = self;
        let world = match phase {
            Phase::Initializing => run_systems(&init_system, world),
            Phase::Running => world,
        };
        Skeleton { world, state, init_system, system, phase: Phase::Running }
    }

    /// One tick: the start-up systems first if they have not run yet, then
    /// every frame system, in registration order.
    pub fn tick(self) -> (skeleton: Self)
        ensures
            self@.ticked(skeleton@),
            skeleton@.state == self@.state,
    {
        proof {
            use_type_invariant(&self);
        }
        let ghost before = self@;
        let started = self.start();
        proof {
            use_type_invariant(&started);
        }
        let Skeleton { world, state, init_system, system, phase } = started;
        let ghost mid = world;
        let world = run_systems(&system, world);
        proof {
            lemma_ran_in_order_concat(before.due_at_start(), system@, before.world, mid, world);
        }
        Skeleton { world, state, init_system, system, phase }
    }

    /// Answers one delivery of the window loop. A request to redraw the
    /// engine's own window is a frame tick: the systems that are due run
    /// first, so that every one of them is done before anything is drawn.
    /// Any other delivery runs no system and leaves the world and the phase
    /// as they are. Either way the engine state takes the event in, and the
    /// directive says what the loop does next.
    pub fn on_event(self, event: &Event) -> (r: (Self, Directive))
        ensures
            match *event {
                Event::RedrawRequested { own: true } => self@.ticked(r.0@),
                _ => r.0@ == (SkeletonView::<W, S> { state: r.0@.state, ..self@ }),
            },
            self@.answered(*event, r.0@),
            (r.0@.state, r.1) == self@.state.after_event(*event),
    {
        let ready = match event {
            Event::RedrawRequested { own: true } => self.tick(),
            _ => self,
        };
        proof {
            use_type_invariant(&ready);
        }
        let Skeleton { world, state, init_system, system, phase } = ready;
        let mut state = state;
        let directive = state.dispatch(event);
        (Skeleton { world, state, init_system, system, phase }, directive)
    }

    /// Answers the end of an attempt to show a frame. Nothing runs and
    /// nothing changes; the directive says how the loop goes on.
    pub fn presented(&self, status: SurfaceStatus) -> (directive: Directive)
        ensures
            directive == self@.state.after_present(status),
    {
        self.state.presented(status)
    }

    /// The world, as the systems that ran last left it.
    pub fn world(&self) -> (world: &W)
        ensures
            *world == self@.world,
    {
        &self.world
    }

    /// Lets `work` act on the world between two ticks, outside the
    /// schedule: no system runs, and the phase stays what it is.
    pub fn with_world<F: FnOnce(W) -> W>(self, work: F) -> (skeleton: Self)
        requires
            call_requires(work, (self@.world,)),
        ensures
            call_ensures(work, (self@.world,), skeleton@.world),
            skeleton@ == (SkeletonView::<W, S> { world: skeleton@.world, ..self@ }),
    {
        proof {
            use_type_invariant(&self);
        }
        let Skeleton { world, state, init_system, system, phase } = self;
        let world = work(world);
        Skeleton { world, state, init_system, system, phase }
    }

    /// Ends the skeleton and hands out its world.
    pub fn into_world(self) -> (world: W)
        ensures
            world == self@.world,
    {
        self.world
    }

    /// The engine state.
    pub fn state(&self) -> (state: State)
        ensures
            state == self@.state,
    {
        self.state
    }

    /// Whether the start-up systems have run.
    pub fn phase(&self) -> (phase: Phase)
        ensures
            phase == self@.phase,
    {
        self.phase
    }
}

} // verus!
