//! Where the dashboard opens, from the position the panel reported for a click.

use vstd::prelude::*;

verus! {

/// A monitor in the logical coordinates panels report clicks in.
#[derive(Debug, Clone, Copy, PartialEq, Eq, Structural)]
pub struct Rect {
    pub x: i32,
    pub y: i32,
    pub width: i32,
    pub height: i32,
}

impl Rect {
    /// Whether a point lies on the monitor.
    pub open spec fn holds(self, x: int, y: int) -> bool {
        self.x <= x < self.x + self.width && self.y <= y < self.y + self.height
    }

    /// Whether a point lies on the monitor.
    pub fn contains(&self, x: i32, y: i32) -> (r: bool)
        ensures
            r == self.holds(x as int, y as int),
    {
        x >= self.x && (x as i64) < self.x as i64 + self.width as i64 && y >= self.y && (y as i64)
            < self.y as i64 + self.height as i64
    }
}

/// Layer-shell anchoring for the dashboard.
#[derive(Debug, Clone, Copy, PartialEq, Eq, Structural)]
pub struct Placement {
    /// Index into the monitors passed to `place`.
    pub monitor: usize,
    /// Anchor to the top edge (true) or the bottom edge (false).
    pub top: bool,
    /// Margin from the monitor's right edge.
    pub right_margin: i32,
}

/// Distance kept from every monitor edge.
pub const INSET: i32 = 8;

/// The first monitor, at or after position `i`, that a point lies on.
pub open spec fn monitor_at(monitors: Seq<Rect>, x: int, y: int, i: int) -> int
    decreases monitors.len() - i,
{
    if i >= monitors.len() || i < 0 {
        monitors.len() as int
    } else if monitors[i].holds(x, y) {
        i
    } else {
        monitor_at(monitors, x, y, i + 1)
    }
}

/// A number moved into a range.
pub open spec fn within(n: int, low: int, high: int) -> int {
    if n < low {
        low
    } else if n > high {
        high
    } else {
        n
    }
}

/// The furthest the window may stand from a monitor's right edge.
pub open spec fn furthest(m: Rect, width: int) -> int {
    if m.width - width - INSET > INSET {
        m.width - width - INSET
    } else {
        INSET as int
    }
}

/// Whether this is where the window opens for a click.
pub open spec fn placed(
    r: Option<Placement>,
    x: int,
    y: int,
    monitors: Seq<Rect>,
    width: int,
) -> bool {
    let at = if x == 0 && y == 0 {
        monitors.len() as int
    } else {
        monitor_at(monitors, x, y, 0)
    };
    match r {
        None => monitors.len() == 0,
        Some(p) => monitors.len() > 0 && if at == monitors.len() {
            p.monitor == 0 && p.top && p.right_margin == INSET
        } else {
            &&& p.monitor == at
            &&& p.top == (y - monitors[at].y < monitors[at].height / 2)
            &&& p.right_margin == within(
                monitors[at].x + monitors[at].width - x,
                INSET as int,
                furthest(monitors[at], width),
            )
        },
    }
}

/// Open on the monitor that contains the click, at the edge of whichever half
/// the click was in, with the window's right edge at the click and the whole
/// window on screen. A click reported as (0, 0), or outside every monitor,
/// opens in the top right corner of the first monitor. None without monitors.
pub fn place(click_x: i32, click_y: i32, monitors: &[Rect], width: i32) -> (r: Option<Placement>)
    ensures
        r is None <==> monitors@.len() == 0,
        r matches Some(p) ==> {
            let at = if click_x == 0 && click_y == 0 {
                monitors@.len() as int
            } else {
                monitor_at(monitors@, click_x as int, click_y as int, 0)
            };
            if at == monitors@.len() {
                p.monitor == 0 && p.top && p.right_margin == INSET
            } else {
                let m = monitors@[at];
                &&& p.monitor == at
                &&& p.top == (click_y - m.y < m.height / 2)
                &&& p.right_margin == within(
                    m.x + m.width - click_x,
                    INSET as int,
                    furthest(m, width as int),
                )
            }
        },
        placed(r, click_x as int, click_y as int, monitors@, width as int),
{
    if monitors.len() == 0 {
        return None;
    }
    let mut i: usize = monitors.len();
    if click_x != 0 || click_y != 0 {
        i = 0;
        while i < monitors.len() && !monitors[i].contains(click_x, click_y)
            invariant
                i <= monitors@.len(),
                monitor_at(monitors@, click_x as int, click_y as int, 0) == monitor_at(
                    monitors@,
                    click_x as int,
                    click_y as int,
                    i as int,
                ),
            decreases monitors@.len() - i,
        {
            i += 1;
        }
    }
    if i == monitors.len() {
        return Some(Placement { monitor: 0, top: true, right_margin: INSET });
    }
    let m = monitors[i];
    assert(m.holds(click_x as int, click_y as int));
    let top = (click_y as i64 - m.y as i64) < (m.height / 2) as i64;
    let from_right: i64 = m.x as i64 + m.width as i64 - click_x as i64;
    let room: i64 = m.width as i64 - width as i64 - INSET as i64;
    let most: i64 = if room > INSET as i64 {
        room
    } else {
        INSET as i64
    };
    let margin: i64 = if from_right < INSET as i64 {
        INSET as i64
    } else if from_right > most {
        most
    } else {
        from_right
    };
    Some(Placement { monitor: i, top, right_margin: margin as i32 })
}

/// A window that fits on the monitor with room to spare stays on screen: its
/// right edge and its left edge both keep their distance.
pub proof fn the_window_stays_on_screen(m: Rect, from_right: int, width: int)
    requires
        0 < width,
        width + 2 * INSET <= m.width,
    ensures
        ({
            let margin = within(from_right, INSET as int, furthest(m, width));
            INSET <= margin && margin + width + INSET <= m.width
        }),
{
}

/// The window opens on the first monitor that the point lies on, edges at the left and
/// top counted in.
pub proof fn the_monitor_under_the_point(monitors: Seq<Rect>, x: int, y: int, i: int)
    requires
        0 <= i <= monitors.len(),
    ensures
        ({
            let at = monitor_at(monitors, x, y, i);
            &&& i <= at <= monitors.len()
            &&& at < monitors.len() ==> monitors[at].x <= x && x < monitors[at].x
                + monitors[at].width && monitors[at].y <= y && y < monitors[at].y
                + monitors[at].height
            &&& forall|k: int|
                i <= k < at ==> !((#[trigger] monitors[k]).x <= x && x < monitors[k].x
                    + monitors[k].width && monitors[k].y <= y && y < monitors[k].y
                    + monitors[k].height)
        }),
    decreases monitors.len() - i,
{
    if i < monitors.len() {
        the_monitor_under_the_point(monitors, x, y, i + 1);
    }
}

/// The right edge of the window is at the point, as near as the margins let it be.
pub proof fn the_window_is_at_the_point(m: Rect, from_right: int, width: int)
    ensures
        ({
            let margin = within(from_right, INSET as int, furthest(m, width));
            &&& margin >= 8
            &&& from_right < 8 ==> margin == 8
            &&& 8 <= from_right && from_right + width + 8 <= m.width ==> margin == from_right
            &&& from_right + width + 8 > m.width && m.width >= width + 16 ==> margin + width + 8
                == m.width
            &&& m.width < width + 16 ==> margin == 8
        }),
{
}

/// The window opens on the monitor of the click, at the top where the click was in the
/// upper half and else at the bottom, eight units or more from the right edge; a click
/// on no monitor opens it in the corner of the first.
pub proof fn the_window_opens_where_the_click_was(
    r: Option<Placement>,
    x: int,
    y: int,
    monitors: Seq<Rect>,
    width: int,
)
    requires
        placed(r, x, y, monitors, width),
    ensures
        r is None <==> monitors.len() == 0,
        r matches Some(p) ==> {
            let m = monitors[p.monitor as int];
            let on_it = m.x <= x < m.x + m.width && m.y <= y < m.y + m.height;
            &&& p.monitor < monitors.len()
            &&& p.right_margin >= 8
            &&& (x != 0 || y != 0) && (exists|i: int|
                0 <= i < monitors.len() && (#[trigger] monitors[i]).x <= x && x < monitors[i].x
                    + monitors[i].width && monitors[i].y <= y && y < monitors[i].y
                    + monitors[i].height) ==> on_it && (p.top <==> y - m.y < m.height / 2)
            &&& (x == 0 && y == 0) || !(exists|i: int|
                0 <= i < monitors.len() && (#[trigger] monitors[i]).x <= x && x < monitors[i].x
                    + monitors[i].width && monitors[i].y <= y && y < monitors[i].y
                    + monitors[i].height) ==> p.monitor == 0 && p.top && p.right_margin == 8
        },
{
    the_monitor_under_the_point(monitors, x, y, 0);
    if let Some(p) = r {
        let at = monitor_at(monitors, x, y, 0);
        if at < monitors.len() {
            assert(monitors[at].x <= x);
        }
    }
}

} // verus!
