//! The track list's interaction state, apart from drawing: which row the
//! pointer is over, which is selected, how far the list is scrolled, and
//! what each input event changes.
use vstd::prelude::*;
use crate::numbers::tdiv;

verus! {

/// Height of one row in pixels.
pub const ROW_HEIGHT: i32 = 26;

/// Rows scrolled per wheel notch.
pub const WHEEL_ROWS: i32 = 3;

/// What the list shows and where the user is in it.
#[derive(Clone, Copy, Debug)]
pub struct ListState {
    /// Number of rows.
    pub rows: usize,
    pub selected: Option<usize>,
    pub playing: Option<usize>,
    pub hover: Option<usize>,
    /// Pixels scrolled from the top.
    pub scroll: i32,
}

/// Direction of a wheel notch.
#[derive(Clone, Copy, Debug, PartialEq, Eq, Structural)]
pub enum Wheel {
    Down,
    Up,
    Other,
}

/// A key the list reacts to.
#[derive(Clone, Copy, Debug, PartialEq, Eq, Structural)]
pub enum Key {
    Enter,
    Down,
    Up,
    Other,
}

/// An input event, with positions relative to the list's top edge.
#[derive(Clone, Copy, Debug, PartialEq, Eq, Structural)]
pub enum ListEvent {
    Focus,
    Unfocus,
    /// The pointer moved to height `y`.
    Move { y: i32 },
    /// The pointer left the list.
    Leave,
    /// A click at height `y`; `double` for the second click of a double-click.
    Push { y: i32, double: bool },
    /// A wheel notch while the list is `height` pixels tall.
    Wheel { dir: Wheel, height: i32 },
    KeyDown(Key),
    Other,
}

/// What handling an event asks of the widget.
#[derive(Clone, Copy, Debug, PartialEq, Eq, Structural)]
pub struct ListOutcome {
    /// The event was the list's.
    pub handled: bool,
    pub redraw: bool,
    /// Play this row.
    pub activate: Option<usize>,
}

impl ListState {
    /// A list of `rows` rows, nothing selected, at the top.
    pub fn new(rows: usize) -> (s: ListState)
        ensures
            s == (ListState { rows, selected: None, playing: None, hover: None, scroll: 0 }),
    {
        ListState { rows, selected: None, playing: None, hover: None, scroll: 0 }
    }
}

/// The row under height `y` (by the truncating division and the cast to
/// `usize` the list uses; above the top this wraps to a huge index).
pub open spec fn row_at_spec(scroll: i32, y: i32) -> usize {
    tdiv(scroll + y, ROW_HEIGHT as int) as usize
}

/// The largest scroll offset: the rows that do not fit, in pixels.
pub open spec fn max_scroll_spec(rows: usize, height: i32) -> int {
    let over = (rows as i32) - tdiv(height as int, ROW_HEIGHT as int);
    (if over > 0 {
        over
    } else {
        0
    }) * ROW_HEIGHT
}

/// `x` clamped to `[lo, hi]`.
pub open spec fn clamp_spec(x: int, lo: int, hi: int) -> int {
    if x < lo {
        lo
    } else if x > hi {
        hi
    } else {
        x
    }
}

/// The events whose arithmetic stays within `i32`.
pub open spec fn event_ok(s: ListState, ev: ListEvent) -> bool {
    match ev {
        ListEvent::Move { y } => i32::MIN <= s.scroll + y <= i32::MAX,
        ListEvent::Push { y, double } => i32::MIN <= s.scroll + y <= i32::MAX,
        ListEvent::Wheel { dir, height } => {
            let over = (s.rows as i32) - tdiv(height as int, ROW_HEIGHT as int);
            &&& dir != Wheel::Other ==> i32::MIN <= over <= i32::MAX
            &&& dir != Wheel::Other ==> (if over > 0 {
                over
            } else {
                0
            }) * ROW_HEIGHT <= i32::MAX
            &&& dir != Wheel::Other ==> i32::MIN <= s.scroll + WHEEL_ROWS * ROW_HEIGHT <= i32::MAX
            &&& dir != Wheel::Other ==> i32::MIN <= s.scroll - WHEEL_ROWS * ROW_HEIGHT <= i32::MAX
        },
        _ => true,
    }
}

/// Whether `handle_event` takes `ev` in state `s`: the pixel arithmetic it
/// does fits an `i32`.
pub fn event_fits(s: &ListState, ev: ListEvent) -> (r: bool)
    ensures
        r == event_ok(*s, ev),
{
    match ev {
        ListEvent::Move { y } => {
            let t = s.scroll as i64 + y as i64;
            i32::MIN as i64 <= t && t <= i32::MAX as i64
        },
        ListEvent::Push { y, double: _ } => {
            let t = s.scroll as i64 + y as i64;
            i32::MIN as i64 <= t && t <= i32::MAX as i64
        },
        ListEvent::Wheel { dir, height } => {
            if dir == Wheel::Other {
                true
            } else {
                let over = (s.rows as i32) as i64 - (height / ROW_HEIGHT) as i64;
                let kept = if over > 0 {
                    over
                } else {
                    0
                };
                let step = (WHEEL_ROWS * ROW_HEIGHT) as i64;
                i32::MIN as i64 <= over && over <= i32::MAX as i64 && kept <= (i32::MAX / ROW_HEIGHT) as i64
                    && s.scroll as i64 + step <= i32::MAX as i64 && s.scroll as i64 - step >= i32::MIN as i64
            }
        },
        _ => true,
    }
}

/// The state after `ev`.
pub open spec fn handle_state(s: ListState, ev: ListEvent) -> ListState {
    match ev {
        ListEvent::Move { y } => {
            let idx = row_at_spec(s.scroll, y);
            ListState { hover: if idx < s.rows { Some(idx) } else { None }, ..s }
        },
        ListEvent::Leave => ListState { hover: None, ..s },
        ListEvent::Push { y, double } => {
            let idx = row_at_spec(s.scroll, y);
            if idx < s.rows {
                ListState { selected: Some(idx), ..s }
            } else {
                s
            }
        },
        ListEvent::Wheel { dir, height } => match dir {
            Wheel::Other => s,
            _ => {
                let delta = if dir == Wheel::Down {
                    WHEEL_ROWS * ROW_HEIGHT
                } else {
                    -(WHEEL_ROWS * ROW_HEIGHT)
                };
                ListState {
                    scroll: clamp_spec(s.scroll + delta, 0, max_scroll_spec(s.rows, height)) as i32,
                    ..s
                }
            },
        },
        ListEvent::KeyDown(k) => if s.rows > 0 && (k == Key::Down || k == Key::Up) {
            ListState {
                selected: Some(
                    match s.selected {
                        Some(i) => if k == Key::Down {
                            if i + 1 < s.rows {
                                (i + 1) as usize
                            } else {
                                (s.rows - 1) as usize
                            }
                        } else if i > 0 {
                            (i - 1) as usize
                        } else {
                            0
                        },
                        None => 0,
                    },
                ),
                ..s
            }
        } else {
            s
        },
        _ => s,
    }
}

/// What the widget is asked to do after `ev`.
pub open spec fn handle_outcome(s: ListState, ev: ListEvent) -> ListOutcome {
    match ev {
        ListEvent::Focus | ListEvent::Unfocus => ListOutcome {
            handled: true,
            redraw: false,
            activate: None,
        },
        ListEvent::Move { y } => ListOutcome {
            handled: true,
            redraw: handle_state(s, ev).hover != s.hover,
            activate: None,
        },
        ListEvent::Leave => ListOutcome { handled: true, redraw: s.hover is Some, activate: None },
        ListEvent::Push { y, double } => {
            let idx = row_at_spec(s.scroll, y);
            ListOutcome {
                handled: true,
                redraw: idx < s.rows,
                activate: if idx < s.rows && double {
                    Some(idx)
                } else {
                    None
                },
            }
        },
        ListEvent::Wheel { dir, height } => ListOutcome {
            handled: true,
            redraw: dir != Wheel::Other,
            activate: None,
        },
        ListEvent::KeyDown(k) => if k == Key::Enter {
            ListOutcome { handled: true, redraw: false, activate: s.selected }
        } else if s.rows > 0 && (k == Key::Down || k == Key::Up) {
            ListOutcome { handled: true, redraw: true, activate: None }
        } else {
            ListOutcome { handled: false, redraw: false, activate: None }
        },
        _ => ListOutcome { handled: false, redraw: false, activate: None },
    }
}

fn row_at(scroll: i32, y: i32) -> (idx: usize)
    requires
        i32::MIN <= scroll + y <= i32::MAX,
    ensures
        idx == row_at_spec(scroll, y),
{
    let q = (scroll + y) / ROW_HEIGHT;
    q as usize
}

/// Handles one input event.
pub fn handle_event(s: &mut ListState, ev: ListEvent) -> (o: ListOutcome)
    requires
        event_ok(*old(s), ev),
    ensures
        *final(s) == handle_state(*old(s), ev),
        o == handle_outcome(*old(s), ev),
{
    match ev {
        ListEvent::Focus | ListEvent::Unfocus => ListOutcome {
            handled: true,
            redraw: false,
            activate: None,
        },
        ListEvent::Move { y } => {
            let idx = row_at(s.scroll, y);
            let new_hover = if idx < s.rows {
                Some(idx)
            } else {
                None
            };
            let changed = match (s.hover, new_hover) {
                (Some(a), Some(b)) => a != b,
                (None, None) => false,
                _ => true,
            };
            s.hover = new_hover;
            ListOutcome { handled: true, redraw: changed, activate: None }
        },
        ListEvent::Leave => {
            let had = s.hover.is_some();
            s.hover = None;
            ListOutcome { handled: true, redraw: had, activate: None }
        },
        ListEvent::Push { y, double } => {
            let idx = row_at(s.scroll, y);
            if idx < s.rows {
                s.selected = Some(idx);
                ListOutcome {
                    handled: true,
                    redraw: true,
                    activate: if double {
                        Some(idx)
                    } else {
                        None
                    },
                }
            } else {
                ListOutcome { handled: true, redraw: false, activate: None }
            }
        },
        ListEvent::Wheel { dir, height } => {
            match dir {
                Wheel::Other => ListOutcome { handled: true, redraw: false, activate: None },
                _ => {
                    let delta = if dir == Wheel::Down {
                        WHEEL_ROWS * ROW_HEIGHT
                    } else {
                        -(WHEEL_ROWS * ROW_HEIGHT)
                    };
                    let over = (s.rows as i32) - height / ROW_HEIGHT;
                    let max_scroll = (if over > 0 {
                        over
                    } else {
                        0
                    }) * ROW_HEIGHT;
                    let x = s.scroll + delta;
                    s.scroll = if x < 0 {
                        0
                    } else if x > max_scroll {
                        max_scroll
                    } else {
                        x
                    };
                    ListOutcome { handled: true, redraw: true, activate: None }
                },
            }
        },
        ListEvent::KeyDown(k) => {
            if k == Key::Enter {
                return ListOutcome { handled: true, redraw: false, activate: s.selected };
            }
            let len = s.rows;
            if len == 0 {
                return ListOutcome { handled: false, redraw: false, activate: None };
            }
            let next = match k {
                Key::Down => match s.selected {
                    Some(i) => Some(
                        if i < len - 1 {
                            i + 1
                        } else {
                            len - 1
                        },
                    ),
                    None => Some(0),
                },
                Key::Up => match s.selected {
                    Some(i) => Some(
                        if i > 0 {
                            i - 1
                        } else {
                            0
                        },
                    ),
                    None => Some(0),
                },
                _ => None,
            };
            match next {
                Some(n) => {
                    s.selected = Some(n);
                    ListOutcome { handled: true, redraw: true, activate: None }
                },
                None => ListOutcome { handled: false, redraw: false, activate: None },
            }
        },
        ListEvent::Other => ListOutcome { handled: false, redraw: false, activate: None },
    }
}

/// The rows to lay out for a list `height` pixels tall: from the first one
/// scrolled into view, one screenful plus two, cut at the end of the list.
pub fn visible_range(s: &ListState, height: i32) -> (r: (usize, usize))
    requires
        height > -ROW_HEIGHT,
    ensures
        r.0 == (if s.scroll / ROW_HEIGHT > 0 {
            s.scroll / ROW_HEIGHT
        } else {
            0
        }),
        r.1 == (if r.0 + tdiv(height as int, ROW_HEIGHT as int) + 2 < s.rows {
            r.0 + tdiv(height as int, ROW_HEIGHT as int) + 2
        } else {
            s.rows as int
        }),
{
    let q = s.scroll / ROW_HEIGHT;
    let first: usize = if q > 0 {
        q as usize
    } else {
        0
    };
    let count: usize = (height / ROW_HEIGHT) as usize + 2;
    let last = if first + count < s.rows {
        first + count
    } else {
        s.rows
    };
    (first, last)
}

/// Keyboard navigation never leaves the list: after an arrow key on a
/// non-empty list, the selected row is a row of the list.
pub proof fn lemma_arrows_stay_in_list(s: ListState, k: Key)
    requires
        s.rows > 0,
        k == Key::Down || k == Key::Up,
        s.selected matches Some(i) ==> i < s.rows,
    ensures
        handle_state(s, ListEvent::KeyDown(k)).selected matches Some(i) && i < s.rows,
{
}

/// Scrolling by wheel stays between the top and the last full screen.
pub proof fn lemma_wheel_scroll_in_range(s: ListState, dir: Wheel, height: i32)
    requires
        dir != Wheel::Other,
        event_ok(s, ListEvent::Wheel { dir, height }),
    ensures
        0 <= handle_state(s, ListEvent::Wheel { dir, height }).scroll <= max_scroll_spec(
            s.rows,
            height,
        ),
{
}

} // verus!
