//! The hotkey-driven capture lifecycle state machine.
//!
//! One instance owns the whole cycle: it reacts to hotkey and overlay
//! events, sequences the compositor, and dispatches the finished buffer
//! to the clipboard and preview sinks.  The machine itself performs no
//! I/O: [`Lifecycle::step`] maps the current state and one event to the
//! next state and an ordered list of [`Action`]s for the surrounding
//! application to carry out.  [`spec_step`] is the machine's exact
//! transition function; `step` returns precisely what it says.

use vstd::prelude::*;

use crate::buffer::PixelBuffer;
use crate::compositor::CaptureRect;
use crate::topology::{all_wf, bounds, spec_bounds, DisplayDescriptor, VirtualDesktopBounds};

verus! {

/// Pixels trimmed from each edge of a committed selection, so the
/// overlay's own border stroke never leaks into the captured bitmap.
/// A fixed configuration constant, never recomputed per call.
pub const BORDER_INSET: u32 = 2;

/// Where the capture cycle stands.  Exactly one instance of the machine
/// mutates this, on a single scheduling context.
#[derive(Debug, Clone, Copy, PartialEq, Eq, Structural)]
pub enum CaptureState {
    /// Nothing in flight.
    Idle,
    /// The selection overlay is visible, awaiting the user's rectangle.
    Armed,
    /// The overlay is hidden and the compositor is running.
    Composing,
}

/// A selection as the overlay reports it, in the overlay's local
/// coordinate space; the fields are non-negative there.
#[derive(Debug, Clone, Copy, PartialEq, Eq, Structural)]
pub struct SelectionRect {
    pub x: i32,
    pub y: i32,
    pub width: u32,
    pub height: u32,
}

/// One event from a collaborator: the hotkey source, the selection
/// overlay, or the compositor reporting back.
#[derive(Debug, Clone, PartialEq, Eq)]
pub enum Event {
    /// The capture hotkey fired.
    HotkeyArmed,
    /// The cancel hotkey fired.
    HotkeyCancel,
    /// The overlay reports a committed selection.
    SelectionCommitted(SelectionRect),
    /// The overlay reports that the user cancelled.
    SelectionCancelled,
    /// The compositor finished: the buffer on success, `None` on failure.
    ComposeFinished(Option<PixelBuffer>),
}

/// One command to a collaborator, to be carried out in list order.
#[derive(Debug, Clone, PartialEq, Eq)]
pub enum Action {
    /// Size and position the selection overlay, in virtual-desktop
    /// coordinates.
    ConfigureUi { x: i32, y: i32, width: u32, height: u32 },
    /// Show the selection overlay.
    ShowUi,
    /// Hide the selection overlay.
    HideUi,
    /// Wait a brief settle delay, so no transient redraw of the
    /// just-hidden overlay ends up in the captured pixels.
    Settle,
    /// Run the compositor on this rectangle, in virtual-desktop
    /// coordinates.
    Capture(CaptureRect),
    /// Hand the finished buffer to the clipboard sink and show it in the
    /// preview, positioned at the given virtual-desktop coordinates.
    Dispatch { buffer: PixelBuffer, x: i32, y: i32 },
}

/// The capture lifecycle state machine.
#[derive(Debug, Clone, PartialEq, Eq)]
pub struct Lifecycle {
    pub state: CaptureState,
    /// The virtual-desktop bounds taken when the overlay was armed.
    pub bounds: Option<VirtualDesktopBounds>,
    /// The adjusted selection now being composed; the preview window is
    /// placed at its origin.
    pub pending: Option<CaptureRect>,
}

/// The machine at rest.
pub open spec fn spec_idle() -> Lifecycle {
    Lifecycle { state: CaptureState::Idle, bounds: None, pending: None }
}

/// The committed selection shifted from overlay-local into
/// virtual-desktop coordinates — the overlay sits at the bounds'
/// origin — and trimmed by [`BORDER_INSET`] on each edge.  A selection
/// thinner than the two insets trims to zero area, which the compositor
/// treats as a successful no-op.
pub open spec fn spec_adjust(r: SelectionRect, b: VirtualDesktopBounds) -> CaptureRect {
    CaptureRect {
        x: (r.x + b.x + BORDER_INSET) as i32,
        y: (r.y + b.y + BORDER_INSET) as i32,
        width: if r.width >= 2 * BORDER_INSET {
            (r.width - 2 * BORDER_INSET) as u32
        } else {
            0u32
        },
        height: if r.height >= 2 * BORDER_INSET {
            (r.height - 2 * BORDER_INSET) as u32
        } else {
            0u32
        },
    }
}

/// The shift in [`spec_adjust`] stays inside `i32`.  The overlay
/// reports non-negative coordinates, so only the upper end needs a
/// check.
pub open spec fn can_adjust(r: SelectionRect, b: VirtualDesktopBounds) -> bool {
    &&& 0 <= r.x
    &&& 0 <= r.y
    &&& r.x + b.x + BORDER_INSET <= i32::MAX
    &&& r.y + b.y + BORDER_INSET <= i32::MAX
}

/// The machine's transition function: from a state and one event to the
/// next state and the ordered actions the application must carry out.
///
/// `displays` is the fresh topology snapshot taken for this step; it
/// matters only when a hotkey-armed event finds the machine idle.
pub open spec fn spec_step(m: Lifecycle, event: Event, displays: Seq<DisplayDescriptor>) -> (
    Lifecycle,
    Seq<Action>,
) {
    match event {
        Event::HotkeyArmed => {
            if m.state is Idle && displays.len() > 0 {
                let b = spec_bounds(displays);
                (
                    Lifecycle { state: CaptureState::Armed, bounds: Some(b), pending: None },
                    seq![
                        Action::ConfigureUi { x: b.x, y: b.y, width: b.width, height: b.height },
                        Action::ShowUi,
                    ],
                )
            } else {
                (m, Seq::empty())
            }
        },
        Event::HotkeyCancel => {
            if m.state is Armed {
                (spec_idle(), seq![Action::HideUi])
            } else {
                (m, Seq::empty())
            }
        },
        Event::SelectionCancelled => {
            if m.state is Armed {
                (spec_idle(), seq![Action::HideUi])
            } else {
                (m, Seq::empty())
            }
        },
        Event::SelectionCommitted(r) => {
            if m.state is Armed {
                let c = spec_adjust(r, m.bounds->Some_0);
                (
                    Lifecycle { state: CaptureState::Composing, bounds: m.bounds, pending: Some(c) },
                    seq![Action::HideUi, Action::Settle, Action::Capture(c)],
                )
            } else {
                (m, Seq::empty())
            }
        },
        Event::ComposeFinished(result) => {
            if m.state is Composing {
                match result {
                    Some(buffer) => (
                        spec_idle(),
                        seq![
                            Action::Dispatch {
                                buffer,
                                x: m.pending->Some_0.x,
                                y: m.pending->Some_0.y,
                            },
                        ],
                    ),
                    None => (spec_idle(), Seq::empty()),
                }
            } else {
                (m, Seq::empty())
            }
        },
    }
}

impl Lifecycle {
    /// Each state has at hand what its transitions read.
    pub open spec fn wf(self) -> bool {
        &&& (self.state is Armed ==> self.bounds is Some)
        &&& (self.state is Composing ==> self.bounds is Some && self.pending is Some)
    }

    /// A fresh machine, idle.
    pub fn new() -> (m: Lifecycle)
        ensures
            m == spec_idle(),
            m.wf(),
    {
        Lifecycle { state: CaptureState::Idle, bounds: None, pending: None }
    }

    /// Feed one event to the machine.  The new state and the returned
    /// actions are exactly what [`spec_step`] says; in particular a
    /// hotkey-armed event while the machine is not idle is a no-op, and
    /// a committed selection hides the overlay, waits the settle delay,
    /// and only then runs the compositor.
    pub fn step(&mut self, event: Event, displays: &Vec<DisplayDescriptor>) -> (actions: Vec<
        Action,
    >)
        requires
            old(self).wf(),
            all_wf(displays@),
            event matches Event::SelectionCommitted(r) ==> (old(self).state is Armed ==> can_adjust(
                r,
                old(self).bounds->Some_0,
            )),
        ensures
            *final(self) == spec_step(*old(self), event, displays@).0,
            actions@ == spec_step(*old(self), event, displays@).1,
            final(self).wf(),
    {
        let ghost pre: Lifecycle = *self;
        let ghost ev: Event = event;
        let mut actions: Vec<Action> = Vec::new();
        match event {
            Event::HotkeyArmed => {
                if matches!(self.state, CaptureState::Idle) && displays.len() > 0 {
                    let b = match bounds(displays) {
                        Ok(b) => b,
                        Err(_) => {
                            proof {
                                assert(false);
                            }
                            VirtualDesktopBounds { x: 0, y: 0, width: 0, height: 0 }
                        },
                    };
                    self.state = CaptureState::Armed;
                    self.bounds = Some(b);
                    self.pending = None;
                    actions.push(
                        Action::ConfigureUi { x: b.x, y: b.y, width: b.width, height: b.height },
                    );
                    actions.push(Action::ShowUi);
                    proof {
                        assert(actions@ =~= spec_step(pre, ev, displays@).1);
                    }
                }
            },
            Event::HotkeyCancel => {
                if matches!(self.state, CaptureState::Armed) {
                    self.state = CaptureState::Idle;
                    self.bounds = None;
                    self.pending = None;
                    actions.push(Action::HideUi);
                    proof {
                        assert(actions@ =~= spec_step(pre, ev, displays@).1);
                    }
                }
            },
            Event::SelectionCancelled => {
                if matches!(self.state, CaptureState::Armed) {
                    self.state = CaptureState::Idle;
                    self.bounds = None;
                    self.pending = None;
                    actions.push(Action::HideUi);
                    proof {
                        assert(actions@ =~= spec_step(pre, ev, displays@).1);
                    }
                }
            },
            Event::SelectionCommitted(r) => {
                if matches!(self.state, CaptureState::Armed) {
                    let b = match &self.bounds {
                        Some(b) => *b,
                        None => {
                            proof {
                                assert(false);
                            }
                            VirtualDesktopBounds { x: 0, y: 0, width: 0, height: 0 }
                        },
                    };
                    let cx: i32 = r.x + b.x + BORDER_INSET as i32;
                    let cy: i32 = r.y + b.y + BORDER_INSET as i32;
                    let cw: u32 = if r.width >= 2 * BORDER_INSET {
                        r.width - 2 * BORDER_INSET
                    } else {
                        0
                    };
                    let ch: u32 = if r.height >= 2 * BORDER_INSET {
                        r.height - 2 * BORDER_INSET
                    } else {
                        0
                    };
                    let c = CaptureRect { x: cx, y: cy, width: cw, height: ch };
                    self.state = CaptureState::Composing;
                    self.pending = Some(c);
                    actions.push(Action::HideUi);
                    actions.push(Action::Settle);
                    actions.push(Action::Capture(c));
                    proof {
                        assert(c == spec_adjust(r, pre.bounds->Some_0));
                        assert(actions@ =~= spec_step(pre, ev, displays@).1);
                    }
                }
            },
            Event::ComposeFinished(result) => {
                if matches!(self.state, CaptureState::Composing) {
                    let (px, py) = match &self.pending {
                        Some(p) => (p.x, p.y),
                        None => {
                            proof {
                                assert(false);
                            }
                            (0, 0)
                        },
                    };
                    self.state = CaptureState::Idle;
                    self.bounds = None;
                    self.pending = None;
                    match result {
                        Some(buffer) => {
                            actions.push(Action::Dispatch { buffer, x: px, y: py });
                            proof {
                                assert(actions@ =~= spec_step(pre, ev, displays@).1);
                            }
                        },
                        None => {},
                    }
                }
            },
        }
        actions
    }
}

/// Law: the re-entrancy guard.  A hotkey-armed event that arrives while
/// the machine is not idle — the overlay is up, or a compose is in
/// flight — changes nothing and asks for nothing.
pub proof fn lemma_rearm_guard(m: Lifecycle, displays: Seq<DisplayDescriptor>)
    requires
        m.state is Armed || m.state is Composing,
    ensures
        spec_step(m, Event::HotkeyArmed, displays).0 == m,
        spec_step(m, Event::HotkeyArmed, displays).1 =~= Seq::<Action>::empty(),
{
}

/// Law: two hotkey-armed events in a row arm the machine exactly once.
/// The first, from idle with displays attached, arms it and shows the
/// overlay; the second leaves the state `Armed` untouched, with no
/// further actions — the overlay is not configured or shown again.
pub proof fn lemma_rearm_idempotent(
    m: Lifecycle,
    ds1: Seq<DisplayDescriptor>,
    ds2: Seq<DisplayDescriptor>,
)
    requires
        m.state is Idle,
        ds1.len() > 0,
    ensures
        ({
            let first = spec_step(m, Event::HotkeyArmed, ds1);
            let second = spec_step(first.0, Event::HotkeyArmed, ds2);
            &&& first.0.state is Armed
            &&& first.1.len() == 2
            &&& first.1[1] == Action::ShowUi
            &&& second.0 == first.0
            &&& second.1.len() == 0
        }),
{
}

/// Law: the overlay is hidden before the compositor starts.  In every
/// action list the machine emits, a `Capture` action is preceded by a
/// `HideUi` action, so the overlay cannot end up in its own screenshot.
pub proof fn lemma_hide_before_capture(
    m: Lifecycle,
    event: Event,
    displays: Seq<DisplayDescriptor>,
)
    ensures
        forall|i: int|
            (0 <= i < spec_step(m, event, displays).1.len() && ((#[trigger] spec_step(
                m,
                event,
                displays,
            ).1[i]) matches Action::Capture(_))) ==> exists|j: int|
                0 <= j < i && spec_step(m, event, displays).1[j] == Action::HideUi,
{
    let acts = spec_step(m, event, displays).1;
    assert forall|i: int|
        0 <= i < acts.len() && ((#[trigger] acts[i]) matches Action::Capture(_)) implies exists|
        j: int,
    | 0 <= j < i && acts[j] == Action::HideUi by {
        match event {
            Event::SelectionCommitted(r) => {
                if m.state is Armed {
                    assert(acts[0] == Action::HideUi);
                } else {
                    assert(false);
                }
            },
            _ => {
                assert(false);
            },
        }
    }
}

} // verus!
