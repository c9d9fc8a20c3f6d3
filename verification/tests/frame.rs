use skeleton::engine::{Directive, Event, Key, Size, State, SurfaceStatus, WindowEvent};

fn size(width: u32, height: u32) -> Size {
    Size { width, height }
}

fn state() -> State {
    State::new(size(800, 600))
}

fn own(event: WindowEvent) -> Event {
    Event::Window { own: true, event }
}

#[test]
fn a_new_state_has_the_given_size_and_no_button_down() {
    assert_eq!(state(), State { size: size(800, 600), mouse_pressed: false });
}

#[test]
fn resize_takes_over_a_size_with_extent() {
    let mut s = state();
    assert!(s.resize(size(1, 1)));
    assert_eq!(s.size, size(1, 1));
    assert!(s.resize(size(u32::MAX, 7)));
    assert_eq!(s.size, size(u32::MAX, 7));
}

#[test]
fn resize_ignores_a_size_without_extent() {
    for refused in [size(0, 0), size(0, 600), size(800, 0)] {
        let mut s = state();
        assert!(!s.resize(refused));
        assert_eq!(s, state());
    }
}

#[test]
fn input_takes_keys_wheel_and_left_button() {
    let mut s = state();
    let key = WindowEvent::KeyboardInput { pressed: true, key: Some(Key::Other) };
    assert_eq!(s.input(&key), Some(Directive::MoveCamera));
    let released = WindowEvent::KeyboardInput { pressed: false, key: Some(Key::Escape) };
    assert_eq!(s.input(&released), Some(Directive::MoveCamera));
    assert_eq!(s.input(&WindowEvent::MouseWheel), Some(Directive::ZoomCamera));
    assert_eq!(s, state());
    let down = WindowEvent::MouseInput { left: true, pressed: true };
    assert_eq!(s.input(&down), Some(Directive::Continue));
    assert!(s.mouse_pressed);
    let up = WindowEvent::MouseInput { left: true, pressed: false };
    assert_eq!(s.input(&up), Some(Directive::Continue));
    assert!(!s.mouse_pressed);
}

#[test]
fn input_leaves_everything_else_to_the_caller() {
    let left_alone = [
        WindowEvent::CloseRequested,
        WindowEvent::KeyboardInput { pressed: true, key: None },
        WindowEvent::MouseInput { left: false, pressed: true },
        WindowEvent::Resized(size(1, 2)),
        WindowEvent::ScaleFactorChanged(size(1, 2)),
        WindowEvent::Other,
    ];
    for event in left_alone {
        let mut s = state();
        assert_eq!(s.input(&event), None);
        assert_eq!(s, state());
    }
}

#[test]
fn pointer_motion_turns_the_camera_only_while_the_button_is_down() {
    let mut s = state();
    assert_eq!(s.dispatch(&Event::MouseMotion), Directive::Continue);
    s.dispatch(&own(WindowEvent::MouseInput { left: true, pressed: true }));
    assert_eq!(s.dispatch(&Event::MouseMotion), Directive::TurnCamera);
    s.dispatch(&own(WindowEvent::MouseInput { left: false, pressed: false }));
    assert_eq!(s.dispatch(&Event::MouseMotion), Directive::TurnCamera);
    s.dispatch(&own(WindowEvent::MouseInput { left: true, pressed: false }));
    assert_eq!(s.dispatch(&Event::MouseMotion), Directive::Continue);
}

#[test]
fn a_close_request_leaves_the_loop() {
    let mut s = state();
    assert_eq!(s.dispatch(&own(WindowEvent::CloseRequested)), Directive::Exit);
    assert_eq!(s, state());
}

#[test]
fn every_key_with_a_code_goes_to_the_camera() {
    let mut s = state();
    for key in [Key::Escape, Key::Other] {
        for pressed in [true, false] {
            let event = own(WindowEvent::KeyboardInput { pressed, key: Some(key) });
            assert_eq!(s.dispatch(&event), Directive::MoveCamera);
        }
    }
    let nameless = own(WindowEvent::KeyboardInput { pressed: true, key: None });
    assert_eq!(s.dispatch(&nameless), Directive::Continue);
}

#[test]
fn a_resize_is_passed_on_only_with_extent() {
    let mut s = state();
    assert_eq!(
        s.dispatch(&own(WindowEvent::Resized(size(640, 480)))),
        Directive::Configure(size(640, 480))
    );
    assert_eq!(s.size, size(640, 480));
    assert_eq!(
        s.dispatch(&own(WindowEvent::ScaleFactorChanged(size(1280, 960)))),
        Directive::Configure(size(1280, 960))
    );
    assert_eq!(s.size, size(1280, 960));
    assert_eq!(s.dispatch(&own(WindowEvent::Resized(size(0, 480)))), Directive::Continue);
    assert_eq!(s.dispatch(&own(WindowEvent::ScaleFactorChanged(size(5, 0)))), Directive::Continue);
    assert_eq!(s.size, size(1280, 960));
}

#[test]
fn events_of_other_windows_are_ignored() {
    let mut s = state();
    let events = [
        Event::Window { own: false, event: WindowEvent::CloseRequested },
        Event::Window { own: false, event: WindowEvent::Resized(size(1, 1)) },
        Event::Window { own: false, event: WindowEvent::MouseInput { left: true, pressed: true } },
        Event::RedrawRequested { own: false },
        Event::Other,
    ];
    for event in events {
        assert_eq!(s.dispatch(&event), Directive::Continue);
        assert_eq!(s, state());
    }
}

#[test]
fn redraw_events_drive_the_frame() {
    let mut s = state();
    assert_eq!(s.dispatch(&Event::RedrawRequested { own: true }), Directive::Redraw);
    assert_eq!(s.dispatch(&Event::RedrawEventsCleared), Directive::RequestRedraw);
    assert_eq!(s.dispatch(&own(WindowEvent::MouseWheel)), Directive::ZoomCamera);
    assert_eq!(s.dispatch(&own(WindowEvent::Other)), Directive::Continue);
    assert_eq!(s, state());
}

#[test]
fn a_stale_surface_is_configured_again_for_its_size() {
    for status in [SurfaceStatus::Lost, SurfaceStatus::Outdated] {
        let s = state();
        assert_eq!(s.presented(status), Directive::Configure(size(800, 600)));
        assert_eq!(s, state());
    }
    let flat = State::new(size(0, 600));
    assert_eq!(flat.presented(SurfaceStatus::Lost), Directive::Continue);
    assert_eq!(flat, State::new(size(0, 600)));
}

#[test]
fn the_other_outcomes_of_a_frame() {
    let s = state();
    assert_eq!(s.presented(SurfaceStatus::Presented), Directive::Continue);
    assert_eq!(s.presented(SurfaceStatus::OutOfMemory), Directive::Exit);
    assert_eq!(s.presented(SurfaceStatus::Timeout), Directive::ReportTimeout);
    assert_eq!(s, state());
}
