use skeleton::ecs::{Phase, Skeleton, World};
use skeleton::engine::{Directive, Event, Size, State, SurfaceStatus, WindowEvent};

type Log = Vec<char>;
type System = fn(Log) -> Log;

fn a(mut log: Log) -> Log {
    log.push('A');
    log
}

fn b(mut log: Log) -> Log {
    log.push('B');
    log
}

fn c(mut log: Log) -> Log {
    log.push('C');
    log
}

fn state() -> State {
    State::new(Size { width: 800, height: 600 })
}

fn skeleton() -> Skeleton<Log, System> {
    Skeleton::new(Vec::new(), state())
}

#[test]
fn init_system_runs_once_and_frame_systems_every_tick() {
    let mut skeleton = skeleton().add_init_system(a as System).add_system(b as System).add_system(c as System);
    assert_eq!(skeleton.phase(), Phase::Initializing);
    for _ in 0..3 {
        skeleton = skeleton.tick();
    }
    assert_eq!(skeleton.phase(), Phase::Running);
    assert_eq!(skeleton.into_world(), vec!['A', 'B', 'C', 'B', 'C', 'B', 'C']);
}

#[test]
fn nothing_runs_before_the_first_tick() {
    let skeleton = skeleton().add_init_system(a as System).add_system(b as System);
    assert_eq!(skeleton.phase(), Phase::Initializing);
    assert!(skeleton.world().is_empty());
}

#[test]
fn start_runs_the_init_systems_in_registration_order_and_only_once() {
    let skeleton = skeleton()
        .add_system(c as System)
        .add_init_system(b as System)
        .add_init_system(a as System)
        .start();
    assert_eq!(skeleton.world(), &vec!['B', 'A']);
    assert_eq!(skeleton.phase(), Phase::Running);
    let skeleton = skeleton.start().start();
    assert_eq!(skeleton.world(), &vec!['B', 'A']);
    let skeleton = skeleton.tick().tick();
    assert_eq!(skeleton.world(), &vec!['B', 'A', 'C', 'C']);
}

#[test]
fn init_systems_never_run_again_however_many_ticks_follow() {
    let mut skeleton = skeleton().add_init_system(a as System).add_system(b as System);
    for _ in 0..50 {
        skeleton = skeleton.tick();
    }
    let log = skeleton.into_world();
    assert_eq!(log.len(), 51);
    assert_eq!(log[0], 'A');
    assert!(log[1..].iter().all(|&system| system == 'B'));
}

#[test]
fn an_init_system_registered_after_start_up_never_runs() {
    let skeleton = skeleton().add_system(b as System).tick().add_init_system(a as System).tick();
    assert_eq!(skeleton.into_world(), vec!['B', 'B']);
}

#[test]
fn a_skeleton_without_systems_ticks_and_changes_nothing() {
    let skeleton = skeleton().tick().tick();
    assert_eq!(skeleton.phase(), Phase::Running);
    assert!(skeleton.into_world().is_empty());
}

#[test]
fn a_frame_tick_is_answered_after_the_systems_have_run() {
    let skeleton = skeleton().add_init_system(a as System).add_system(b as System);
    let (skeleton, directive) = skeleton.on_event(&Event::RedrawRequested { own: true });
    assert_eq!(directive, Directive::Redraw);
    assert_eq!(skeleton.phase(), Phase::Running);
    assert_eq!(skeleton.world(), &vec!['A', 'B']);
    let (skeleton, directive) = skeleton.on_event(&Event::RedrawRequested { own: true });
    assert_eq!(directive, Directive::Redraw);
    assert_eq!(skeleton.world(), &vec!['A', 'B', 'B']);
}

#[test]
fn only_frame_ticks_run_the_systems() {
    let skeleton = skeleton().add_init_system(a as System).add_system(b as System).start();
    assert_eq!(skeleton.world(), &vec!['A']);
    let resized = Size { width: 10, height: 20 };
    let others = [
        (Event::Other, Directive::Continue),
        (Event::MouseMotion, Directive::Continue),
        (Event::RedrawEventsCleared, Directive::RequestRedraw),
        (Event::RedrawRequested { own: false }, Directive::Continue),
        (Event::Window { own: true, event: WindowEvent::MouseWheel }, Directive::ZoomCamera),
        (
            Event::Window { own: true, event: WindowEvent::Resized(resized) },
            Directive::Configure(resized),
        ),
        (Event::Window { own: true, event: WindowEvent::CloseRequested }, Directive::Exit),
    ];
    let mut skeleton = skeleton;
    for (event, expected) in others {
        let (next, directive) = skeleton.on_event(&event);
        assert_eq!(directive, expected);
        assert_eq!(next.world(), &vec!['A']);
        assert_eq!(next.phase(), Phase::Running);
        skeleton = next;
    }
    assert_eq!(skeleton.state().size, resized);
    let (skeleton, directive) = skeleton.on_event(&Event::RedrawRequested { own: true });
    assert_eq!(directive, Directive::Redraw);
    assert_eq!(skeleton.into_world(), vec!['A', 'B']);
}

#[test]
fn n_frame_ticks_among_other_events_give_n_rounds() {
    let mut skeleton =
        skeleton().add_init_system(a as System).add_system(b as System).add_system(c as System);
    for _ in 0..3 {
        for event in [Event::MouseMotion, Event::RedrawRequested { own: true }, Event::Other] {
            skeleton = skeleton.on_event(&event).0;
        }
    }
    assert_eq!(skeleton.into_world(), vec!['A', 'B', 'C', 'B', 'C', 'B', 'C']);
}

#[test]
fn an_event_before_start_up_runs_nothing_and_keeps_the_phase() {
    let skeleton = skeleton().add_init_system(a as System).add_system(b as System);
    let (skeleton, directive) = skeleton.on_event(&Event::MouseMotion);
    assert_eq!(directive, Directive::Continue);
    assert_eq!(skeleton.phase(), Phase::Initializing);
    assert!(skeleton.world().is_empty());
}

#[test]
fn the_end_of_a_frame_runs_no_system() {
    let skeleton = skeleton().add_system(b as System).tick();
    assert_eq!(skeleton.presented(SurfaceStatus::Presented), Directive::Continue);
    assert_eq!(skeleton.presented(SurfaceStatus::OutOfMemory), Directive::Exit);
    assert_eq!(skeleton.presented(SurfaceStatus::Timeout), Directive::ReportTimeout);
    assert_eq!(
        skeleton.presented(SurfaceStatus::Lost),
        Directive::Configure(Size { width: 800, height: 600 })
    );
    assert_eq!(skeleton.world(), &vec!['B']);
    assert_eq!(skeleton.state(), state());
}

#[test]
fn systems_work_on_a_world_of_components() {
    type Store = World<u32>;
    fn spawn_two(mut world: Store) -> Store {
        world.spawn_entity();
        world.spawn_entity();
        world.add_component_to_entity(1, 0, 0).unwrap();
        world
    }
    fn count_up(mut world: Store) -> Store {
        let mut lease = world.borrow_component_vec_mut(0).unwrap().unwrap();
        let next = lease.get(1).copied().unwrap() + 1;
        lease.set(1, Some(next));
        assert!(world.release_component_vec(lease).is_ok());
        world
    }
    let mut skeleton: Skeleton<Store, fn(Store) -> Store> = Skeleton::new(World::new(), state())
        .add_init_system(spawn_two as fn(Store) -> Store)
        .add_system(count_up as fn(Store) -> Store);
    for _ in 0..4 {
        skeleton = skeleton.tick();
    }
    let mut world = skeleton.into_world();
    assert_eq!(world.entity_count(), 2);
    let lease = world.borrow_component_vec_mut(0).unwrap().unwrap();
    assert_eq!(lease.cells(), &vec![None, Some(4)]);
}

#[test]
fn work_between_ticks_runs_no_system_and_keeps_the_phase() {
    let skeleton = skeleton().add_init_system(a as System).add_system(b as System);
    let skeleton = skeleton.with_world(|mut log: Log| {
        log.push('x');
        log
    });
    assert_eq!(skeleton.phase(), Phase::Initializing);
    assert_eq!(skeleton.world(), &vec!['x']);
    let skeleton = skeleton.tick().with_world(|mut log: Log| {
        log.push('y');
        log
    });
    assert_eq!(skeleton.phase(), Phase::Running);
    assert_eq!(skeleton.state(), state());
    assert_eq!(skeleton.into_world(), vec!['x', 'A', 'B', 'y']);
}

#[test]
fn closures_serve_as_systems() {
    let double = |log: Vec<u32>| log.iter().map(|n| n * 2).collect::<Vec<u32>>();
    let skeleton = Skeleton::new(vec![1, 2, 3], state()).add_system(double).tick().tick();
    assert_eq!(skeleton.into_world(), vec![4, 8, 12]);
}
