//! What the platform is asked to do for each call on an injector. Where enigo
//! reaches too short on Windows, keys go by scancode.

use vstd::prelude::*;

use super::{Call, Injector};
use crate::platform::windows::keyboard::{send_scancode, KeyEvent};
use crate::proto::{HostOs, PointerButton};

verus! {

/// A direction to scroll in.
#[derive(Debug, Clone, Copy, PartialEq, Eq, Structural)]
pub enum ScrollAxis {
    Vertical,
    Horizontal,
}

/// One request to the platform.
#[derive(Debug, Clone, Copy, PartialEq, Eq, Structural)]
pub enum Request {
    MoveTo(i32, i32),
    Button(PointerButton, bool),
    Scroll(i32, ScrollAxis),
    /// A key by the keycode of the platform.
    RawKey(u16, bool),
    /// A key by its scancode.
    Scancode(KeyEvent),
}

/// The event for a scancode: its low byte, and the flags.
pub open spec fn scancode_event(scan: u16, pressed: bool) -> KeyEvent {
    KeyEvent {
        scan: scan % 256,
        flags: (8 + (if scan / 256 == 0xe0 {
            1int
        } else {
            0
        }) + (if pressed {
            0int
        } else {
            2
        })) as u32,
    }
}

/// What a call asks of the platform. The platform scrolls along one axis at a
/// time, and not at all by nothing.
pub open spec fn requests_for(os: HostOs, call: Call) -> Seq<Request> {
    match call {
        Call::PointerMove(x, y) => seq![Request::MoveTo(x, y)],
        Call::Button(button, pressed) => seq![Request::Button(button, pressed)],
        Call::Wheel(dx, dy) => (if dy != 0 {
            seq![Request::Scroll(dy, ScrollAxis::Vertical)]
        } else {
            Seq::empty()
        }) + (if dx != 0 {
            seq![Request::Scroll(dx, ScrollAxis::Horizontal)]
        } else {
            Seq::empty()
        }),
        Call::Key(keycode, pressed) => if os == HostOs::Windows {
            seq![Request::Scancode(scancode_event(keycode, pressed))]
        } else {
            seq![Request::RawKey(keycode, pressed)]
        },
    }
}

/// The injector of a platform: it collects what the platform is to be asked.
pub struct EnigoInjector {
    pub os: HostOs,
    /// The size of the main display, where the platform tells it.
    pub display: Option<(i32, i32)>,
    /// What is still to be asked, in order.
    pub requests: Vec<Request>,
    pub log: Ghost<Seq<Call>>,
}

impl EnigoInjector {
    pub fn new(os: HostOs, display: Option<(i32, i32)>) -> (r: Self)
        ensures
            r.os == os,
            r.display == display,
            r.requests@.len() == 0,
            r.calls() == Seq::<Call>::empty(),
    {
        EnigoInjector { os, display, requests: Vec::new(), log: Ghost(Seq::empty()) }
    }

    /// Hands over what is to be asked.
    pub fn take(&mut self) -> (r: Vec<Request>)
        ensures
            r@ == old(self).requests@,
            final(self).requests@.len() == 0,
            final(self).os == old(self).os,
            final(self).display == old(self).display,
            final(self).calls() == old(self).calls(),
    {
        let mut out: Vec<Request> = Vec::new();
        out.append(&mut self.requests);
        assert(out@ =~= old(self).requests@);
        out
    }

    fn ask(&mut self, request: Request)
        ensures
            final(self).requests@ == old(self).requests@.push(request),
            final(self).os == old(self).os,
            final(self).display == old(self).display,
            final(self).log == old(self).log,
    {
        self.requests.push(request);
    }
}

impl Injector for EnigoInjector {
    open spec fn calls(&self) -> Seq<Call> {
        self.log@
    }

    fn pointer_move(&mut self, x: i32, y: i32)
        ensures
            final(self).os == old(self).os,
            final(self).requests@ == old(self).requests@ + requests_for(
                old(self).os,
                Call::PointerMove(x, y),
            ),
    {
        self.ask(Request::MoveTo(x, y));
        self.log = Ghost(self.log@.push(Call::PointerMove(x, y)));
    }

    fn button(&mut self, button: PointerButton, pressed: bool)
        ensures
            final(self).os == old(self).os,
            final(self).requests@ == old(self).requests@ + requests_for(
                old(self).os,
                Call::Button(button, pressed),
            ),
    {
        self.ask(Request::Button(button, pressed));
        self.log = Ghost(self.log@.push(Call::Button(button, pressed)));
    }

    fn wheel(&mut self, dx: i32, dy: i32)
        ensures
            final(self).os == old(self).os,
            final(self).requests@ == old(self).requests@ + requests_for(
                old(self).os,
                Call::Wheel(dx, dy),
            ),
    {
        if dy != 0 {
            self.ask(Request::Scroll(dy, ScrollAxis::Vertical));
        }
        if dx != 0 {
            self.ask(Request::Scroll(dx, ScrollAxis::Horizontal));
        }
        assert(self.requests@ =~= old(self).requests@ + requests_for(
            old(self).os,
            Call::Wheel(dx, dy),
        ));
        self.log = Ghost(self.log@.push(Call::Wheel(dx, dy)));
    }

    fn key(&mut self, keycode: u16, pressed: bool)
        ensures
            final(self).os == old(self).os,
            final(self).requests@ == old(self).requests@ + requests_for(
                old(self).os,
                Call::Key(keycode, pressed),
            ),
    {
        if self.os == HostOs::Windows {
            self.ask(Request::Scancode(send_scancode(keycode, pressed)));
        } else {
            self.ask(Request::RawKey(keycode, pressed));
        }
        self.log = Ghost(self.log@.push(Call::Key(keycode, pressed)));
    }

    /// The main display, or a plausible one where the platform does not tell.
    fn screen_size(&self) -> (r: (i32, i32))
        ensures
            r == (match self.display {
                Some(size) => size,
                None => (1920i32, 1080i32),
            }),
    {
        match self.display {
            Some(size) => size,
            None => (1920, 1080),
        }
    }
}

/// Every press asks for one thing, and the release of the same key or button
/// asks for the same thing the other way.
pub proof fn law_releases_mirror_presses(os: HostOs, keycode: u16, button: PointerButton)
    ensures
        requests_for(os, Call::Key(keycode, true)).len() == 1,
        requests_for(os, Call::Key(keycode, false)).len() == 1,
        requests_for(os, Call::Button(button, false)) == seq![Request::Button(button, false)],
        os != HostOs::Windows ==> requests_for(os, Call::Key(keycode, false)) == seq![
            Request::RawKey(keycode, false),
        ],
        scancode_event(keycode, false).scan == scancode_event(keycode, true).scan,
        scancode_event(keycode, false).flags == scancode_event(keycode, true).flags + 2,
{
}

/// The platform is asked for what the call says and for nothing else: a move to
/// the same place, the same button, each axis once by its own lines and only
/// where there are any, the same key.
pub proof fn law_requests_say_what_the_calls_say(
    os: HostOs,
    x: i32,
    y: i32,
    button: PointerButton,
    keycode: u16,
    pressed: bool,
)
    ensures
        requests_for(os, Call::PointerMove(x, y)) == seq![Request::MoveTo(x, y)],
        requests_for(os, Call::Button(button, pressed)) == seq![Request::Button(button, pressed)],
        ({
            let scrolls = requests_for(os, Call::Wheel(x, y));
            &&& scrolls.contains(Request::Scroll(y, ScrollAxis::Vertical)) <==> y != 0
            &&& scrolls.contains(Request::Scroll(x, ScrollAxis::Horizontal)) <==> x != 0
            &&& scrolls.len() == if x != 0 && y != 0 {
                2nat
            } else if x != 0 || y != 0 {
                1nat
            } else {
                0nat
            }
        }),
        ({
            let keys = requests_for(os, Call::Key(keycode, pressed));
            &&& keys.len() == 1
            &&& if os == HostOs::Windows {
                keys[0] matches Request::Scancode(event) && event.scan == keycode % 256
                    && event.flags == 8 + if keycode / 256 == 0xe0 {
                    1int
                } else {
                    0
                } + if pressed {
                    0int
                } else {
                    2
                }
            } else {
                keys[0] == Request::RawKey(keycode, pressed)
            }
        }),
{
    let scrolls = requests_for(os, Call::Wheel(x, y));
    if y != 0 {
        assert(scrolls[0] == Request::Scroll(y, ScrollAxis::Vertical));
    }
    if x != 0 {
        assert(scrolls[scrolls.len() - 1] == Request::Scroll(x, ScrollAxis::Horizontal));
    }
}

} // verus!
