use region_capture::buffer::PixelBuffer;
use region_capture::compositor::CaptureRect;
use region_capture::lifecycle::{Action, CaptureState, Event, Lifecycle, SelectionRect};
use region_capture::topology::DisplayDescriptor;

fn displays() -> Vec<DisplayDescriptor> {
    vec![
        DisplayDescriptor { x: -5, y: -7, width: 1920, height: 1080 },
        DisplayDescriptor { x: 1915, y: -7, width: 1280, height: 1024 },
    ]
}

fn armed_machine() -> Lifecycle {
    let mut machine = Lifecycle::new();
    machine.step(Event::HotkeyArmed, &displays());
    machine
}

#[test]
fn arming_configures_and_shows_the_overlay() {
    let mut machine = Lifecycle::new();
    assert_eq!(machine.state, CaptureState::Idle);
    let actions = machine.step(Event::HotkeyArmed, &displays());
    assert_eq!(machine.state, CaptureState::Armed);
    assert_eq!(
        actions,
        vec![
            Action::ConfigureUi { x: -5, y: -7, width: 3200, height: 1080 },
            Action::ShowUi,
        ]
    );
}

#[test]
fn rearming_while_armed_is_a_no_op_arming_happens_exactly_once() {
    let mut machine = Lifecycle::new();
    let first = machine.step(Event::HotkeyArmed, &displays());
    assert_eq!(machine.state, CaptureState::Armed);
    let before = machine.clone();
    let second = machine.step(Event::HotkeyArmed, &displays());
    assert_eq!(machine.state, CaptureState::Armed);
    assert_eq!(machine, before);
    assert!(second.is_empty());
    let shows = |actions: &Vec<Action>| {
        actions.iter().filter(|a| matches!(a, Action::ShowUi)).count()
    };
    assert_eq!(shows(&first) + shows(&second), 1);
}

#[test]
fn rearming_while_composing_is_a_no_op() {
    let mut machine = armed_machine();
    machine.step(
        Event::SelectionCommitted(SelectionRect { x: 0, y: 0, width: 50, height: 50 }),
        &displays(),
    );
    assert_eq!(machine.state, CaptureState::Composing);
    let before = machine.clone();
    let actions = machine.step(Event::HotkeyArmed, &displays());
    assert!(actions.is_empty());
    assert_eq!(machine, before);
}

#[test]
fn arming_with_no_displays_stays_idle() {
    let mut machine = Lifecycle::new();
    let actions = machine.step(Event::HotkeyArmed, &Vec::new());
    assert_eq!(machine.state, CaptureState::Idle);
    assert!(actions.is_empty());
}

#[test]
fn committing_hides_settles_then_captures_the_adjusted_rect() {
    let mut machine = armed_machine();
    let selection = SelectionRect { x: 10, y: 20, width: 100, height: 60 };
    let actions = machine.step(Event::SelectionCommitted(selection), &displays());
    assert_eq!(machine.state, CaptureState::Composing);
    // Translated by the bounds origin (-5,-7) and trimmed by the 2-pixel
    // inset on each edge.
    let expected = CaptureRect { x: 7, y: 15, width: 96, height: 56 };
    assert_eq!(
        actions,
        vec![Action::HideUi, Action::Settle, Action::Capture(expected)]
    );
    let hide = actions.iter().position(|a| matches!(a, Action::HideUi)).unwrap();
    let capture = actions.iter().position(|a| matches!(a, Action::Capture(_))).unwrap();
    assert!(hide < capture);
}

#[test]
fn a_selection_thinner_than_the_insets_trims_to_a_no_op() {
    let mut machine = armed_machine();
    let selection = SelectionRect { x: 0, y: 0, width: 3, height: 60 };
    let actions = machine.step(Event::SelectionCommitted(selection), &displays());
    match &actions[2] {
        Action::Capture(r) => {
            assert_eq!(r.width, 0);
            assert_eq!(r.height, 56);
        }
        other => panic!("expected a capture action, got {:?}", other),
    }
}

#[test]
fn a_finished_compose_dispatches_at_the_selection_position() {
    let mut machine = armed_machine();
    machine.step(
        Event::SelectionCommitted(SelectionRect { x: 10, y: 20, width: 100, height: 60 }),
        &displays(),
    );
    let buffer = PixelBuffer { width: 96, height: 56, pixels: vec![0; 96 * 56 * 4] };
    let actions = machine.step(Event::ComposeFinished(Some(buffer.clone())), &displays());
    assert_eq!(machine.state, CaptureState::Idle);
    assert_eq!(actions, vec![Action::Dispatch { buffer, x: 7, y: 15 }]);
}

#[test]
fn a_failed_compose_resets_silently() {
    let mut machine = armed_machine();
    machine.step(
        Event::SelectionCommitted(SelectionRect { x: 10, y: 20, width: 100, height: 60 }),
        &displays(),
    );
    let actions = machine.step(Event::ComposeFinished(None), &displays());
    assert_eq!(machine.state, CaptureState::Idle);
    assert!(actions.is_empty());
}

#[test]
fn cancel_while_armed_hides_and_idles() {
    for cancel in [Event::HotkeyCancel, Event::SelectionCancelled] {
        let mut machine = armed_machine();
        let actions = machine.step(cancel, &displays());
        assert_eq!(machine.state, CaptureState::Idle);
        assert_eq!(actions, vec![Action::HideUi]);
    }
}

#[test]
fn cancel_while_idle_is_a_no_op() {
    let mut machine = Lifecycle::new();
    let actions = machine.step(Event::HotkeyCancel, &displays());
    assert_eq!(machine.state, CaptureState::Idle);
    assert!(actions.is_empty());
}
