//! The displays, from what Windows tells of each monitor.

use vstd::prelude::*;

use super::wide::from_wide_null;
use crate::capture::{CaptureError, DisplayInfo};
use crate::text::concat;

verus! {

/// What Windows tells of a monitor: its handle, the edges of its rectangle, its
/// flags and the name of its device, which a zero ends.
#[derive(Debug, Clone, PartialEq, Eq)]
pub struct Monitor {
    pub handle: u64,
    pub left: i32,
    pub top: i32,
    pub right: i32,
    pub bottom: i32,
    pub flags: u32,
    pub device: Vec<u16>,
}

impl Monitor {
    /// Width and height can be counted.
    pub open spec fn measurable(&self) -> bool {
        &&& i32::MIN <= self.right - self.left <= i32::MAX
        &&& i32::MIN <= self.bottom - self.top <= i32::MAX
    }
}

/// `d` is the display of this monitor. Its id is the low half of the handle, and
/// the lowest flag marks the primary one.
pub open spec fn is_display_of(d: DisplayInfo, m: Monitor) -> bool {
    &&& d.id == m.handle as int % 0x1_0000_0000
    &&& d.title@ == super::wide::text_of(super::wide::until_zero(m.device@))
    &&& d.x == m.left
    &&& d.y == m.top
    &&& d.width == crate::arith::max(m.right - m.left, 0)
    &&& d.height == crate::arith::max(m.bottom - m.top, 0)
    &&& d.primary == (m.flags as int % 2 == 1)
}

/// The display of a monitor.
pub fn monitor_info(m: &Monitor) -> (r: DisplayInfo)
    requires
        m.measurable(),
    ensures
        is_display_of(r, *m),
{
    let width: i32 = m.right - m.left;
    let height: i32 = m.bottom - m.top;
    DisplayInfo {
        id: (m.handle % 0x1_0000_0000) as u32,
        title: from_wide_null(m.device.as_slice()),
        x: m.left,
        y: m.top,
        width: if width > 0 {
            width as u32
        } else {
            0
        },
        height: if height > 0 {
            height as u32
        } else {
            0
        },
        primary: m.flags % 2 == 1,
    }
}

/// `failed` tells why monitor `i` is the first that could not be asked.
pub open spec fn first_failure(
    monitors: Seq<Result<Monitor, String>>,
    i: int,
    failed: Seq<char>,
) -> bool {
    &&& 0 <= i < monitors.len()
    &&& monitors[i] matches Err(err) && err@ == failed
    &&& forall|j: int| 0 <= j < i ==> #[trigger] monitors[j] is Ok
}

/// `failed` tells why the first monitor that could not be asked could not.
pub open spec fn reports_failure(monitors: Seq<Result<Monitor, String>>, failed: Seq<char>) -> bool {
    exists|i: int| first_failure(monitors, i, failed)
}

/// Lists the displays. `enumerated` tells whether the monitors could be
/// enumerated, `monitors` what asking about each came to. The first failure is
/// the one that is reported.
pub fn list(enumerated: Result<(), String>, monitors: Vec<Result<Monitor, String>>) -> (r: Result<
    Vec<DisplayInfo>,
    CaptureError,
>)
    requires
        forall|i: int|
            0 <= i < monitors@.len() ==> (#[trigger] monitors@[i] matches Ok(m) ==> m.measurable()),
    ensures
        match enumerated {
            Err(err) => r matches Err(CaptureError::Backend(text)) && text@
                == "EnumDisplayMonitors: "@ + err@,
            Ok(_) => match r {
                Ok(displays) => {
                    &&& displays@.len() == monitors@.len()
                    &&& forall|i: int|
                        0 <= i < monitors@.len() ==> (#[trigger] monitors@[i] matches Ok(m)
                            && is_display_of(displays@[i], m))
                },
                Err(err) => err matches CaptureError::Backend(text) && reports_failure(
                    monitors@,
                    text@,
                ),
            },
        },
{
    match &enumerated {
        Err(err) => {
            return Err(CaptureError::Backend(concat("EnumDisplayMonitors: ", err.as_str())));
        },
        Ok(_) => {},
    }
    let mut displays: Vec<DisplayInfo> = Vec::new();
    let mut i: usize = 0;
    while i < monitors.len()
        invariant
            enumerated is Ok,
            i <= monitors@.len(),
            displays@.len() == i,
            forall|j: int|
                0 <= j < monitors@.len() ==> (#[trigger] monitors@[j] matches Ok(m)
                    ==> m.measurable()),
            forall|j: int|
                0 <= j < i ==> (#[trigger] monitors@[j] matches Ok(m) && is_display_of(
                    displays@[j],
                    m,
                )),
        decreases monitors@.len() - i,
    {
        match &monitors[i] {
            Ok(m) => {
                displays.push(monitor_info(m));
            },
            Err(err) => {
                let text: String = err.as_str().to_owned();
                assert(first_failure(monitors@, i as int, text@));
                assert(reports_failure(monitors@, text@));
                return Err(CaptureError::Backend(text));
            },
        }
        i = i + 1;
    }
    Ok(displays)
}

/// A display lies where its monitor does: it begins at the monitor's left and upper
/// edge and reaches to the right and lower one. It is the primary one by the lowest
/// flag, and is known by the low half of the monitor's handle.
pub proof fn law_displays_cover_their_monitors(d: DisplayInfo, m: Monitor)
    requires
        is_display_of(d, m),
    ensures
        d.x == m.left && d.y == m.top,
        m.right >= m.left ==> d.x + d.width == m.right,
        m.bottom >= m.top ==> d.y + d.height == m.bottom,
        m.right < m.left ==> d.width == 0,
        m.bottom < m.top ==> d.height == 0,
        d.primary == (m.flags & 1 == 1),
        (m.handle - d.id) % 0x1_0000_0000 == 0,
{
    let flags = m.flags;
    assert((flags & 1 == 1) == (flags % 2 == 1)) by (bit_vector);
}

/// The failure that is reported is the first: every monitor before it answered.
pub proof fn law_the_first_failure_is_reported(
    monitors: Seq<Result<Monitor, String>>,
    i: int,
    failed: Seq<char>,
)
    requires
        reports_failure(monitors, failed),
        0 <= i < monitors.len(),
        monitors[i] is Err,
        forall|j: int| 0 <= j < i ==> #[trigger] monitors[j] is Ok,
    ensures
        monitors[i] matches Err(err) && err@ == failed,
{
    let k = choose|k: int| first_failure(monitors, k, failed);
    assert(first_failure(monitors, k, failed));
    if k < i {
        assert(monitors[k] is Ok);
    } else if i < k {
        assert(monitors[i] is Ok);
    }
}

} // verus!
