//! Mouse and keyboard input: turns the messages of a session into calls on an
//! [`Injector`], and keeps track of what is held down so that it can be let go.

use std::collections::VecDeque;

use vstd::prelude::*;

use crate::capture::DisplayInfo;
use crate::proto::{HostOs, InputMessage, PointerButton, COORD_ONE};

pub mod enigo;
pub mod keymap;

verus! {

/// One call on an injector.
#[derive(Debug, Clone, Copy, PartialEq, Eq, Structural)]
pub enum Call {
    PointerMove(i32, i32),
    Button(PointerButton, bool),
    Wheel(i32, i32),
    Key(u16, bool),
}

/// Something that injects mouse and keyboard input into the host. A failed
/// injection is the implementation's to report: bad input never ends a session.
pub trait Injector {
    /// Every call made so far. An implementation that is to be verified says what
    /// these are; the value here only spares one in plain Rust, for which the
    /// clauses below are a promise, from naming a ghost function.
    open spec fn calls(&self) -> Seq<Call> {
        Seq::empty()
    }

    /// Moves the pointer to an absolute position, in pixels.
    fn pointer_move(&mut self, x: i32, y: i32)
        ensures
            final(self).calls() == old(self).calls().push(Call::PointerMove(x, y)),
    ;

    /// Presses or releases a mouse button where the pointer is.
    fn button(&mut self, button: PointerButton, pressed: bool)
        ensures
            final(self).calls() == old(self).calls().push(Call::Button(button, pressed)),
    ;

    /// Scrolls, in lines.
    fn wheel(&mut self, dx: i32, dy: i32)
        ensures
            final(self).calls() == old(self).calls().push(Call::Wheel(dx, dy)),
    ;

    /// Presses or releases a key by its raw keycode.
    fn key(&mut self, keycode: u16, pressed: bool)
        ensures
            final(self).calls() == old(self).calls().push(Call::Key(keycode, pressed)),
    ;

    /// The size of the main screen, in the units of `pointer_move`.
    fn screen_size(&self) -> (i32, i32);
}

/// An injector that does nothing: the session is view-only.
pub struct NoopInjector {
    pub screen: (i32, i32),
    pub log: Ghost<Seq<Call>>,
}

impl NoopInjector {
    /// Claims a plausible 1080p screen.
    pub fn new() -> (r: Self)
        ensures
            r.screen == (1920i32, 1080i32),
            r.calls() == Seq::<Call>::empty(),
    {
        NoopInjector { screen: (1920, 1080), log: Ghost(Seq::empty()) }
    }
}

impl Default for NoopInjector {
    fn default() -> (r: Self)
        ensures
            r.screen == (1920i32, 1080i32),
            r.calls() == Seq::<Call>::empty(),
    {
        NoopInjector::new()
    }
}

impl Injector for NoopInjector {
    open spec fn calls(&self) -> Seq<Call> {
        self.log@
    }

    fn pointer_move(&mut self, x: i32, y: i32) {
        self.log = Ghost(self.log@.push(Call::PointerMove(x, y)));
    }

    fn button(&mut self, button: PointerButton, pressed: bool) {
        self.log = Ghost(self.log@.push(Call::Button(button, pressed)));
    }

    fn wheel(&mut self, dx: i32, dy: i32) {
        self.log = Ghost(self.log@.push(Call::Wheel(dx, dy)));
    }

    fn key(&mut self, keycode: u16, pressed: bool) {
        self.log = Ghost(self.log@.push(Call::Key(keycode, pressed)));
    }

    fn screen_size(&self) -> (r: (i32, i32))
        ensures
            r == self.screen,
    {
        self.screen
    }
}

/// The pixel of `0..size` that a normalized coordinate (in units of
/// `1 / COORD_ONE`) falls on: to the nearest, and at the edges the outermost
/// one. Zero on an empty axis.
pub open spec fn scaled(value: i64, size: i32) -> int {
    if size <= 0 {
        0
    } else {
        crate::arith::clamp(
            (value * size + COORD_ONE / 2) / (COORD_ONE as int),
            0,
            size - 1,
        )
    }
}

/// Scales a normalized coordinate to a pixel.
pub fn scale_and_clamp(value: i64, size: i32) -> (r: i32)
    ensures
        r == scaled(value, size),
{
    if size <= 0 {
        return 0;
    }
    if value < 0 {
        proof {
            assert(value * size <= -size) by (nonlinear_arith)
                requires
                    value <= -1,
                    size > 0,
            ;
            assert((value * size + COORD_ONE / 2) / (COORD_ONE as int) <= 0);
        }
        return 0;
    }
    let product: u128 = crate::arith::wide_mul(value as u64, size as u64);
    proof {
        assert(value * size <= 0x7fff_ffff_ffff_ffff * 0x7fff_ffff) by (nonlinear_arith)
            requires
                0 <= value <= 0x7fff_ffff_ffff_ffff,
                0 <= size <= 0x7fff_ffff,
        ;
    }
    let pixel: u128 = (product + (COORD_ONE / 2) as u128) / (COORD_ONE as u128);
    if pixel > (size - 1) as u128 {
        size - 1
    } else {
        pixel as i32
    }
}

/// The display being captured, in the units of [`Injector::pointer_move`].
/// Normalized coordinates are relative to it, so that a click lands on the
/// right monitor.
#[derive(Debug, Clone, Copy, PartialEq, Eq, Structural)]
pub struct CaptureRect {
    pub x: i32,
    pub y: i32,
    pub width: i32,
    pub height: i32,
}

impl CaptureRect {
    /// Every pixel of the rectangle has coordinates.
    pub open spec fn addressable(self) -> bool {
        &&& self.x + self.width - 1 <= i32::MAX
        &&& self.y + self.height - 1 <= i32::MAX
    }
}

impl From<&DisplayInfo> for CaptureRect {
    fn from(display: &DisplayInfo) -> (r: Self) {
        CaptureRect {
            x: display.x,
            y: display.y,
            width: display.width as i32,
            height: display.height as i32,
        }
    }
}

impl vstd::std_specs::convert::FromSpecImpl<&DisplayInfo> for CaptureRect {
    open spec fn obeys_from_spec() -> bool {
        true
    }

    open spec fn from_spec(display: &DisplayInfo) -> Self {
        CaptureRect {
            x: display.x,
            y: display.y,
            width: display.width as i32,
            height: display.height as i32,
        }
    }
}

/// The pixel of `rect` that a normalized point falls on.
pub open spec fn pixel_of(x: i64, y: i64, rect: CaptureRect) -> (int, int) {
    (rect.x + scaled(x, rect.width), rect.y + scaled(y, rect.height))
}

/// Scales a normalized point to an absolute pixel position within `rect`.
pub fn to_pixel(x: i64, y: i64, rect: CaptureRect) -> (r: (i32, i32))
    requires
        rect.addressable(),
    ensures
        (r.0 as int, r.1 as int) == pixel_of(x, y, rect),
{
    (rect.x + scale_and_clamp(x, rect.width), rect.y + scale_and_clamp(y, rect.height))
}

/// A fixed-point number of lines to the nearest whole one, halves away from
/// zero, within the range of `i32`.
pub open spec fn rounded(v: i64) -> int {
    let magnitude = (if v < 0 {
        -v
    } else {
        v as int
    } + COORD_ONE / 2) / (COORD_ONE as int);
    crate::arith::clamp(
        if v < 0 {
            -magnitude
        } else {
            magnitude
        },
        i32::MIN as int,
        i32::MAX as int,
    )
}

/// Rounds a fixed-point number of lines.
pub fn round_lines(v: i64) -> (r: i32)
    ensures
        r == rounded(v),
{
    let wide: i128 = v as i128;
    if wide < 0 {
        let magnitude: i128 = (-wide + (COORD_ONE / 2) as i128) / (COORD_ONE as i128);
        (-magnitude) as i32
    } else {
        let magnitude: i128 = (wide + (COORD_ONE / 2) as i128) / (COORD_ONE as i128);
        if magnitude > 0x7fff_ffff {
            i32::MAX
        } else {
            magnitude as i32
        }
    }
}

/// Keys and buttons held down, each once, in the order they went down.
#[derive(Debug)]
pub struct Held {
    pub keys: Vec<u16>,
    pub buttons: Vec<PointerButton>,
}

/// What is held: keys, then buttons.
pub struct HeldView {
    pub keys: Seq<u16>,
    pub buttons: Seq<PointerButton>,
}

impl View for Held {
    type V = HeldView;

    open spec fn view(&self) -> HeldView {
        HeldView { keys: self.keys@, buttons: self.buttons@ }
    }
}

impl HeldView {
    pub open spec fn wf(self) -> bool {
        self.keys.no_duplicates() && self.buttons.no_duplicates()
    }

    pub open spec fn none() -> HeldView {
        HeldView { keys: Seq::empty(), buttons: Seq::empty() }
    }
}

/// `held` after `x` went down or up.
pub open spec fn toggled<T>(held: Seq<T>, x: T, pressed: bool) -> Seq<T> {
    if pressed {
        if held.contains(x) {
            held
        } else {
            held.push(x)
        }
    } else {
        held.remove_value(x)
    }
}

/// The calls that let go of everything in `held`: keys first, then buttons.
pub open spec fn release_calls(held: HeldView) -> Seq<Call> {
    Seq::new(held.keys.len(), |i: int| Call::Key(held.keys[i], false)) + Seq::new(
        held.buttons.len(),
        |i: int| Call::Button(held.buttons[i], false),
    )
}

/// The calls that a message makes. Clicks and scrolls move the pointer first:
/// moves travel on a channel of their own, so the last one may be stale.
pub open spec fn calls_for(
    msg: InputMessage,
    held: HeldView,
    rect: CaptureRect,
    os: HostOs,
) -> Seq<Call> {
    match msg {
        InputMessage::PointerMove { x, y } => seq![move_call(x, y, rect)],
        InputMessage::PointerButton { button, pressed, x, y } => seq![
            move_call(x, y, rect),
            Call::Button(button, pressed),
        ],
        InputMessage::Wheel { dx, dy, x, y } => seq![
            move_call(x, y, rect),
            Call::Wheel(rounded(dx) as i32, rounded(dy) as i32),
        ],
        InputMessage::Key { code, pressed } => match keymap::keycode(os, code@) {
            Some(keycode) => seq![Call::Key(keycode, pressed)],
            None => Seq::empty(),
        },
        InputMessage::ReleaseAll => release_calls(held),
        InputMessage::ClipboardText { .. } => Seq::empty(),
    }
}

pub open spec fn move_call(x: i64, y: i64, rect: CaptureRect) -> Call {
    Call::PointerMove(pixel_of(x, y, rect).0 as i32, pixel_of(x, y, rect).1 as i32)
}

/// What is held after a message.
pub open spec fn held_after(msg: InputMessage, held: HeldView, os: HostOs) -> HeldView {
    match msg {
        InputMessage::PointerButton { button, pressed, .. } => HeldView {
            buttons: toggled(held.buttons, button, pressed),
            ..held
        },
        InputMessage::Key { code, pressed } => match keymap::keycode(os, code@) {
            Some(keycode) => HeldView { keys: toggled(held.keys, keycode, pressed), ..held },
            None => held,
        },
        InputMessage::ReleaseAll => HeldView::none(),
        _ => held,
    }
}

impl Held {
    pub fn new() -> (r: Self)
        ensures
            r@ == HeldView::none(),
            r@.wf(),
    {
        Held { keys: Vec::new(), buttons: Vec::new() }
    }
}

/// A key goes down or up.
fn toggle_key(held: &mut Vec<u16>, x: u16, pressed: bool)
    requires
        old(held)@.no_duplicates(),
    ensures
        final(held)@ == toggled(old(held)@, x, pressed),
        final(held)@.no_duplicates(),
{
    let mut i: usize = 0;
    while i < held.len()
        invariant
            *held == *old(held),
            i <= held@.len(),
            forall|j: int| 0 <= j < i ==> held@[j] != x,
            old(held)@.no_duplicates(),
        decreases held@.len() - i,
    {
        if held[i] == x {
            assert(held@.contains(x));
            proof {
                held@.index_of_first_ensures(x);
            }
            if !pressed {
                held.remove(i);
            }
            return;
        }
        i = i + 1;
    }
    proof {
        held@.index_of_first_ensures(x);
    }
    if pressed {
        held.push(x);
    }
}

/// A button goes down or up.
fn toggle_button(held: &mut Vec<PointerButton>, x: PointerButton, pressed: bool)
    requires
        old(held)@.no_duplicates(),
    ensures
        final(held)@ == toggled(old(held)@, x, pressed),
        final(held)@.no_duplicates(),
{
    let mut i: usize = 0;
    while i < held.len()
        invariant
            *held == *old(held),
            i <= held@.len(),
            forall|j: int| 0 <= j < i ==> held@[j] != x,
            old(held)@.no_duplicates(),
        decreases held@.len() - i,
    {
        if held[i] == x {
            assert(held@.contains(x));
            proof {
                held@.index_of_first_ensures(x);
            }
            if !pressed {
                held.remove(i);
            }
            return;
        }
        i = i + 1;
    }
    proof {
        held@.index_of_first_ensures(x);
    }
    if pressed {
        held.push(x);
    }
}

/// Applies one message to `injector` and keeps `held` in step. `rect` is the
/// captured display.
pub fn apply<I: Injector>(
    msg: &InputMessage,
    injector: &mut I,
    held: &mut Held,
    rect: CaptureRect,
    os: HostOs,
)
    requires
        rect.addressable(),
        old(held)@.wf(),
    ensures
        final(held)@.wf(),
        final(held)@ == held_after(*msg, old(held)@, os),
        final(injector).calls() == old(injector).calls() + calls_for(*msg, old(held)@, rect, os),
{
    match msg {
        InputMessage::PointerMove { x, y } => {
            let (px, py) = to_pixel(*x, *y, rect);
            injector.pointer_move(px, py);
        },
        InputMessage::PointerButton { button, pressed, x, y } => {
            let (px, py) = to_pixel(*x, *y, rect);
            injector.pointer_move(px, py);
            injector.button(*button, *pressed);
            toggle_button(&mut held.buttons, *button, *pressed);
        },
        InputMessage::Wheel { dx, dy, x, y } => {
            let (px, py) = to_pixel(*x, *y, rect);
            injector.pointer_move(px, py);
            injector.wheel(round_lines(*dx), round_lines(*dy));
        },
        InputMessage::Key { code, pressed } => {
            if let Some(keycode) = keymap::to_keycode(os, code.as_str()) {
                injector.key(keycode, *pressed);
                toggle_key(&mut held.keys, keycode, *pressed);
            }
        },
        InputMessage::ReleaseAll => {
            release_all(injector, held);
        },
        InputMessage::ClipboardText { .. } => {},
    }
    assert(injector.calls() =~= old(injector).calls() + calls_for(*msg, old(held)@, rect, os));
}

/// Lets go of everything held.
pub fn release_all<I: Injector>(injector: &mut I, held: &mut Held)
    ensures
        final(held)@ == HeldView::none(),
        final(injector).calls() == old(injector).calls() + release_calls(old(held)@),
{
    let ghost start = injector.calls();
    let ghost all = release_calls(held@);
    let ghost nk = held.keys@.len();
    let mut i: usize = 0;
    while i < held.keys.len()
        invariant
            *held == *old(held),
            all == release_calls(held@),
            nk == held.keys@.len(),
            i <= nk,
            injector.calls() == start + all.take(i as int),
        decreases nk - i,
    {
        let keycode: u16 = held.keys[i];
        injector.key(keycode, false);
        assert(all.take(i + 1) =~= all.take(i as int).push(Call::Key(keycode, false)));
        i = i + 1;
    }
    let mut j: usize = 0;
    while j < held.buttons.len()
        invariant
            *held == *old(held),
            all == release_calls(held@),
            nk == held.keys@.len(),
            j <= held.buttons@.len(),
            injector.calls() == start + all.take(nk + j),
        decreases held.buttons@.len() - j,
    {
        let button: PointerButton = held.buttons[j];
        injector.button(button, false);
        assert(all.take(nk + j + 1) =~= all.take(nk + j).push(Call::Button(button, false)));
        j = j + 1;
    }
    assert(all.take(all.len() as int) =~= all);
    held.keys.clear();
    held.buttons.clear();
    assert(held@ == HeldView::none());
}

/// How many pointer moves `queue` starts with.
pub open spec fn leading_moves(queue: Seq<InputMessage>) -> int
    decreases queue.len(),
{
    if queue.len() > 0 && queue[0] is PointerMove {
        1 + leading_moves(queue.drop_first())
    } else {
        0
    }
}

/// Where `first` is a pointer move, takes every move that waits right behind it
/// off the queue and returns the last: a position is worthless once a newer one
/// is known. Every other message matters and is returned as it is.
pub fn coalesce_pointer_move(first: InputMessage, queue: &mut VecDeque<InputMessage>) -> (r:
    InputMessage)
    ensures
        first is PointerMove ==> {
            let n = leading_moves(old(queue)@);
            &&& final(queue)@ == old(queue)@.skip(n)
            &&& r == if n == 0 {
                first
            } else {
                old(queue)@[n - 1]
            }
        },
        !(first is PointerMove) ==> r == first && final(queue)@ == old(queue)@,
{
    match first {
        InputMessage::PointerMove { .. } => {},
        _ => return first,
    }
    let mut latest: InputMessage = first;
    let ghost all = queue@;
    let ghost mut n: int = 0;
    proof {
        assert(all.skip(0) =~= all);
        lemma_leading_moves(all);
    }
    loop
        invariant
            0 <= n <= leading_moves(all) <= all.len(),
            all == old(queue)@,
            queue@ == all.skip(n),
            latest == if n == 0 {
                first
            } else {
                all[n - 1]
            },
            n + leading_moves(all.skip(n)) == leading_moves(all),
        ensures
            n == leading_moves(all),
            queue@ == all.skip(n),
            latest == if n == 0 {
                first
            } else {
                all[n - 1]
            },
        decreases all.len() - n,
    {
        let is_move: bool = if queue.len() == 0 {
            false
        } else {
            match &queue[0] {
                InputMessage::PointerMove { .. } => true,
                _ => false,
            }
        };
        if !is_move {
            break;
        }
        let next: Option<InputMessage> = queue.pop_front();
        proof {
            assert(all.skip(n).drop_first() =~= all.skip(n + 1));
            lemma_leading_moves(all.skip(n + 1));
            n = n + 1;
        }
        if let Some(msg) = next {
            latest = msg;
        }
    }
    latest
}

proof fn lemma_leading_moves(queue: Seq<InputMessage>)
    ensures
        0 <= leading_moves(queue) <= queue.len(),
        forall|i: int| 0 <= i < leading_moves(queue) ==> queue[i] is PointerMove,
        leading_moves(queue) < queue.len() ==> !(queue[leading_moves(queue)] is PointerMove),
    decreases queue.len(),
{
    if queue.len() > 0 && queue[0] is PointerMove {
        let rest = queue.drop_first();
        lemma_leading_moves(rest);
        assert forall|i: int| 0 <= i < leading_moves(queue) implies queue[i] is PointerMove by {
            if i > 0 {
                assert(queue[i] == rest[i - 1]);
            }
        }
        if leading_moves(queue) < queue.len() {
            assert(queue[leading_moves(queue)] == rest[leading_moves(rest)]);
        }
    }
}

/// A queue without the moves that a newer move right behind them makes
/// worthless.
pub open spec fn coalesced(queue: Seq<InputMessage>) -> Seq<InputMessage>
    decreases queue.len(),
{
    if queue.len() == 0 {
        Seq::empty()
    } else if queue[0] is PointerMove && queue.len() > 1 && queue[1] is PointerMove {
        coalesced(queue.drop_first())
    } else {
        seq![queue[0]] + coalesced(queue.drop_first())
    }
}

/// What is held after all of `msgs`.
pub open spec fn held_after_all(msgs: Seq<InputMessage>, held: HeldView, os: HostOs) -> HeldView
    decreases msgs.len(),
{
    if msgs.len() == 0 {
        held
    } else {
        held_after_all(msgs.drop_first(), held_after(msgs[0], held, os), os)
    }
}

/// The calls that all of `msgs` make, one after the other.
pub open spec fn calls_for_all(
    msgs: Seq<InputMessage>,
    held: HeldView,
    rect: CaptureRect,
    os: HostOs,
) -> Seq<Call>
    decreases msgs.len(),
{
    if msgs.len() == 0 {
        Seq::empty()
    } else {
        calls_for(msgs[0], held, rect, os) + calls_for_all(
            msgs.drop_first(),
            held_after(msgs[0], held, os),
            rect,
            os,
        )
    }
}

/// Coalescing takes a run of leading moves down to its last.
proof fn lemma_coalesced_skip(queue: Seq<InputMessage>)
    requires
        queue.len() > 0,
        queue[0] is PointerMove,
    ensures
        ({
            let n = leading_moves(queue);
            &&& 1 <= n <= queue.len()
            &&& coalesced(queue) == seq![queue[n - 1]] + coalesced(queue.skip(n))
        }),
    decreases queue.len(),
{
    let rest = queue.drop_first();
    lemma_leading_moves(queue);
    if queue.len() > 1 && queue[1] is PointerMove {
        assert(rest[0] == queue[1]);
        lemma_coalesced_skip(rest);
        let m = leading_moves(rest);
        assert(queue[m] == rest[m - 1]);
        assert(rest.skip(m) =~= queue.skip(m + 1));
    } else {
        assert(rest.len() > 0 ==> rest[0] == queue[1]);
        assert(leading_moves(rest) == 0);
        assert(queue.skip(1) =~= rest);
    }
}

/// Turns queued messages into calls on an injector.
pub struct InputRouter<I: Injector> {
    pub injector: I,
    pub held: Held,
    pub capture_rect: CaptureRect,
    pub os: HostOs,
}

impl<I: Injector> InputRouter<I> {
    pub open spec fn wf(self) -> bool {
        self.held@.wf() && self.capture_rect.addressable()
    }

    /// A router that holds nothing and takes the main screen for the captured
    /// display.
    pub fn new(injector: I, os: HostOs) -> (r: Self)
        ensures
            r.wf(),
            r.injector == injector,
            r.held@ == HeldView::none(),
            r.capture_rect.x == 0 && r.capture_rect.y == 0,
            call_ensures(I::screen_size, (&injector,), (r.capture_rect.width, r.capture_rect.height)),
            r.os == os,
    {
        let (width, height) = injector.screen_size();
        InputRouter {
            injector,
            held: Held::new(),
            capture_rect: CaptureRect { x: 0, y: 0, width, height },
            os,
        }
    }

    /// Moves on to another captured display; messages from now on are relative
    /// to it.
    pub fn set_capture_rect(&mut self, rect: CaptureRect)
        requires
            old(self).wf(),
            rect.addressable(),
        ensures
            final(self).wf(),
            *final(self) == (InputRouter { capture_rect: rect, ..*old(self) }),
    {
        self.capture_rect = rect;
    }

    /// Applies every queued message, in order, leaving out moves that a newer
    /// one right behind them makes worthless.
    pub fn drain(&mut self, queue: &mut VecDeque<InputMessage>)
        requires
            old(self).wf(),
        ensures
            final(self).wf(),
            final(self).capture_rect == old(self).capture_rect,
            final(self).os == old(self).os,
            final(queue)@.len() == 0,
            final(self).held@ == held_after_all(
                coalesced(old(queue)@),
                old(self).held@,
                old(self).os,
            ),
            final(self).injector.calls() == old(self).injector.calls() + calls_for_all(
                coalesced(old(queue)@),
                old(self).held@,
                old(self).capture_rect,
                old(self).os,
            ),
    {
        let ghost before = *self;
        let ghost todo = coalesced(queue@);
        while queue.len() > 0
            invariant
                self.wf(),
                before == *old(self),
                todo == coalesced(old(queue)@),
                self.capture_rect == before.capture_rect,
                self.os == before.os,
                held_after_all(coalesced(queue@), self.held@, self.os) == held_after_all(
                    todo,
                    before.held@,
                    before.os,
                ),
                self.injector.calls() + calls_for_all(
                    coalesced(queue@),
                    self.held@,
                    self.capture_rect,
                    self.os,
                ) == before.injector.calls() + calls_for_all(
                    todo,
                    before.held@,
                    before.capture_rect,
                    before.os,
                ),
            decreases queue@.len(),
        {
            let ghost waiting = queue@;
            let ghost mid = *self;
            let first: Option<InputMessage> = queue.pop_front();
            if let Some(msg) = first {
                let msg: InputMessage = coalesce_pointer_move(msg, queue);
                proof {
                    let rest = waiting.drop_first();
                    assert(waiting.subrange(1, waiting.len() as int) =~= rest);
                    lemma_leading_moves(rest);
                    if waiting[0] is PointerMove {
                        lemma_coalesced_skip(waiting);
                        let n = leading_moves(rest);
                        assert(waiting.skip(n + 1) =~= rest.skip(n));
                        if n > 0 {
                            assert(waiting[n] == rest[n - 1]);
                        }
                    }
                    assert(coalesced(waiting) == seq![msg] + coalesced(queue@));
                    assert(coalesced(waiting)[0] == msg);
                    assert(coalesced(waiting).drop_first() =~= coalesced(queue@));
                }
                apply(&msg, &mut self.injector, &mut self.held, self.capture_rect, self.os);
                proof {
                    let step = calls_for(msg, mid.held@, mid.capture_rect, mid.os);
                    let later = calls_for_all(
                        coalesced(queue@),
                        self.held@,
                        self.capture_rect,
                        self.os,
                    );
                    assert(mid.injector.calls() + (step + later) =~= (mid.injector.calls() + step)
                        + later);
                }
            }
        }
        proof {
            assert(self.injector.calls() + Seq::<Call>::empty() =~= self.injector.calls());
        }
    }

    /// Lets go of everything still held, when the session ends.
    pub fn shut_down(&mut self)
        requires
            old(self).wf(),
        ensures
            final(self).wf(),
            final(self).held@ == HeldView::none(),
            final(self).capture_rect == old(self).capture_rect,
            final(self).os == old(self).os,
            final(self).injector.calls() == old(self).injector.calls() + release_calls(
                old(self).held@,
            ),
    {
        release_all(&mut self.injector, &mut self.held);
    }
}

/// A pointer never leaves the captured display.
pub proof fn law_pointer_stays_on_the_display(x: i64, y: i64, rect: CaptureRect)
    requires
        rect.width > 0,
        rect.height > 0,
    ensures
        rect.x <= pixel_of(x, y, rect).0 < rect.x + rect.width,
        rect.y <= pixel_of(x, y, rect).1 < rect.y + rect.height,
{
}

/// Scaling keeps the order of points.
pub proof fn law_scaling_keeps_order(a: i64, b: i64, size: i32)
    requires
        a <= b,
    ensures
        scaled(a, size) <= scaled(b, size),
{
    if size > 0 {
        assert(a * size <= b * size) by (nonlinear_arith)
            requires
                a <= b,
                size > 0,
        ;
        let d = COORD_ONE as int;
        let p = a * size + COORD_ONE / 2;
        let q = b * size + COORD_ONE / 2;
        assert(p / d <= q / d) by (nonlinear_arith)
            requires
                p <= q,
                d == 0x1_0000_0000,
        ;
    }
}

/// The keys that are down after `calls`.
pub open spec fn keys_down(calls: Seq<Call>) -> Set<u16>
    decreases calls.len(),
{
    if calls.len() == 0 {
        Set::empty()
    } else {
        let before = keys_down(calls.drop_last());
        match calls.last() {
            Call::Key(k, true) => before.insert(k),
            Call::Key(k, false) => before.remove(k),
            _ => before,
        }
    }
}

/// The buttons that are down after `calls`.
pub open spec fn buttons_down(calls: Seq<Call>) -> Set<PointerButton>
    decreases calls.len(),
{
    if calls.len() == 0 {
        Set::empty()
    } else {
        let before = buttons_down(calls.drop_last());
        match calls.last() {
            Call::Button(b, true) => before.insert(b),
            Call::Button(b, false) => before.remove(b),
            _ => before,
        }
    }
}

/// What a router takes for held is what its calls have left down.
pub open spec fn in_step(held: HeldView, calls: Seq<Call>) -> bool {
    &&& held.wf()
    &&& held.keys.to_set() == keys_down(calls)
    &&& held.buttons.to_set() == buttons_down(calls)
}

proof fn lemma_pushed(calls: Seq<Call>, call: Call)
    ensures
        keys_down(calls.push(call)) == match call {
            Call::Key(k, true) => keys_down(calls).insert(k),
            Call::Key(k, false) => keys_down(calls).remove(k),
            _ => keys_down(calls),
        },
        buttons_down(calls.push(call)) == match call {
            Call::Button(b, true) => buttons_down(calls).insert(b),
            Call::Button(b, false) => buttons_down(calls).remove(b),
            _ => buttons_down(calls),
        },
{
    assert(calls.push(call).drop_last() =~= calls);
}

proof fn lemma_toggled_set<T>(held: Seq<T>, x: T, pressed: bool)
    requires
        held.no_duplicates(),
    ensures
        toggled(held, x, pressed).no_duplicates(),
        toggled(held, x, pressed).to_set() == if pressed {
            held.to_set().insert(x)
        } else {
            held.to_set().remove(x)
        },
{
    let after = toggled(held, x, pressed);
    held.index_of_first_ensures(x);
    assert forall|y: T| after.contains(y) <==> if pressed {
        held.contains(y) || y == x
    } else {
        held.contains(y) && y != x
    } by {
        if pressed {
            if !held.contains(x) {
                assert(after[held.len() as int] == x);
                if held.contains(y) {
                    let k = held.index_of(y);
                    assert(after[k] == y);
                }
            }
        } else if held.contains(x) {
            let i = held.index_of_first(x)->0;
            if held.contains(y) && y != x {
                let k = held.index_of(y);
                assert(after[if k < i { k } else { k - 1 }] == y);
            }
            if after.contains(y) {
                let k = after.index_of(y);
                assert(held[if k < i { k } else { k + 1 }] == y);
            }
        }
    }
    assert(after.to_set() =~= if pressed {
        held.to_set().insert(x)
    } else {
        held.to_set().remove(x)
    });
}

proof fn lemma_release_keys(held: HeldView, calls: Seq<Call>, n: int)
    requires
        in_step(held, calls),
        0 <= n <= release_calls(held).len(),
    ensures
        ({
            let after = calls + release_calls(held).take(n);
            &&& forall|k: u16| keys_down(after).contains(k) <==> exists|i: int| n <= i < held.keys.len() && held.keys[i] == k
            &&& forall|b: PointerButton| buttons_down(after).contains(b) <==> exists|i: int|
                0 <= i < held.buttons.len() && held.keys.len() + i >= n && held.buttons[i] == b
        }),
    decreases n,
{
    let all = release_calls(held);
    if n == 0 {
        assert(calls + all.take(0) =~= calls);
        assert forall|k: u16| keys_down(calls).contains(k) <==> exists|i: int| 0 <= i < held.keys.len() && held.keys[i] == k by {
            assert(held.keys.to_set().contains(k) <==> held.keys.contains(k));
        }
        assert forall|b: PointerButton| buttons_down(calls).contains(b) <==> exists|i: int| 0 <= i < held.buttons.len() && held.keys.len() + i >= 0 && held.buttons[i] == b by {
            assert(held.buttons.to_set().contains(b) <==> held.buttons.contains(b));
        }
    } else {
        lemma_release_keys(held, calls, n - 1);
        let before = calls + all.take(n - 1);
        assert(calls + all.take(n) =~= before.push(all[n - 1]));
        lemma_pushed(before, all[n - 1]);
    }
}

/// A router never loses track: if what it takes for held is what its calls left
/// down, the same is true after any message.
pub proof fn law_held_follows_the_calls(
    msg: InputMessage,
    held: HeldView,
    calls: Seq<Call>,
    rect: CaptureRect,
    os: HostOs,
)
    requires
        in_step(held, calls),
    ensures
        in_step(held_after(msg, held, os), calls + calls_for(msg, held, rect, os)),
{
    let made = calls_for(msg, held, rect, os);
    let after = calls + made;
    match msg {
        InputMessage::PointerMove { x, y } => {
            assert(after =~= calls.push(made[0]));
            lemma_pushed(calls, made[0]);
        },
        InputMessage::PointerButton { button, pressed, x, y } => {
            assert(after =~= calls.push(made[0]).push(made[1]));
            lemma_pushed(calls, made[0]);
            lemma_pushed(calls.push(made[0]), made[1]);
            lemma_toggled_set(held.buttons, button, pressed);
        },
        InputMessage::Wheel { dx, dy, x, y } => {
            assert(after =~= calls.push(made[0]).push(made[1]));
            lemma_pushed(calls, made[0]);
            lemma_pushed(calls.push(made[0]), made[1]);
        },
        InputMessage::Key { code, pressed } => {
            match keymap::keycode(os, code@) {
                Some(keycode) => {
                    assert(after =~= calls.push(made[0]));
                    lemma_pushed(calls, made[0]);
                    lemma_toggled_set(held.keys, keycode, pressed);
                },
                None => {
                    assert(after =~= calls);
                },
            }
        },
        InputMessage::ReleaseAll => {
            law_release_all_lets_go(held, calls);
            assert(HeldView::none().keys.to_set() =~= Set::empty());
            assert(HeldView::none().buttons.to_set() =~= Set::empty());
        },
        InputMessage::ClipboardText { .. } => {
            assert(after =~= calls);
        },
    }
}

/// Letting go of what is held leaves no key and no button down.
pub proof fn law_release_all_lets_go(held: HeldView, calls: Seq<Call>)
    requires
        in_step(held, calls),
    ensures
        keys_down(calls + release_calls(held)) == Set::<u16>::empty(),
        buttons_down(calls + release_calls(held)) == Set::<PointerButton>::empty(),
{
    let all = release_calls(held);
    lemma_release_keys(held, calls, all.len() as int);
    assert(all.take(all.len() as int) =~= all);
    assert(keys_down(calls + all) =~= Set::empty());
    assert(buttons_down(calls + all) =~= Set::empty());
}

/// Messages that are no pointer moves.
pub open spec fn other_messages(queue: Seq<InputMessage>) -> Seq<InputMessage>
    decreases queue.len(),
{
    if queue.len() == 0 {
        Seq::empty()
    } else if queue[0] is PointerMove {
        other_messages(queue.drop_first())
    } else {
        seq![queue[0]] + other_messages(queue.drop_first())
    }
}

/// Coalescing loses no message but moves, keeps the order, and keeps the last
/// message of the queue, so the pointer ends up where it should.
pub proof fn law_coalescing_loses_only_stale_moves(queue: Seq<InputMessage>)
    ensures
        other_messages(coalesced(queue)) == other_messages(queue),
        queue.len() > 0 ==> coalesced(queue).len() > 0 && coalesced(queue).last() == queue.last(),
        coalesced(queue).len() <= queue.len(),
    decreases queue.len(),
{
    if queue.len() > 0 {
        let rest = queue.drop_first();
        law_coalescing_loses_only_stale_moves(rest);
        if !(queue[0] is PointerMove && queue.len() > 1 && queue[1] is PointerMove) {
            assert(coalesced(queue)[0] == queue[0]);
            assert(coalesced(queue).drop_first() =~= coalesced(rest));
        }
    }
}

/// A pixel of `0..size` is where a normalized coordinate falls: the nearest one,
/// or the outermost where the nearest would lie beyond.
pub open spec fn lands_on(p: int, value: i64, size: i32) -> bool {
    let one = 0x1_0000_0000int;
    &&& 0 <= p < size
    &&& p < size - 1 ==> 2 * (value * size) < (2 * p + 1) * one
    &&& p > 0 ==> 2 * (value * size) >= (2 * p - 1) * one
}

proof fn lemma_lands(value: i64, size: i32)
    requires
        size > 0,
    ensures
        lands_on(scaled(value, size), value, size),
{
    let product = value * size;
    assert(2 * (value * size) == 2 * product);
}

/// Every message that carries a point puts the pointer there before anything
/// else: on the pixel of the captured display that the point falls on.
pub proof fn law_a_point_is_reached_first(
    msg: InputMessage,
    held: HeldView,
    rect: CaptureRect,
    os: HostOs,
    x: i64,
    y: i64,
)
    requires
        rect.addressable(),
        rect.width > 0,
        rect.height > 0,
        ({
            ||| msg == InputMessage::PointerMove { x, y }
            ||| msg matches InputMessage::PointerButton { x: bx, y: by, .. } && bx == x && by == y
            ||| msg matches InputMessage::Wheel { x: wx, y: wy, .. } && wx == x && wy == y
        }),
    ensures
        ({
            let calls = calls_for(msg, held, rect, os);
            &&& calls.len() >= 1
            &&& calls[0] matches Call::PointerMove(px, py) && lands_on(px - rect.x, x, rect.width)
                && lands_on(py - rect.y, y, rect.height)
        }),
{
    lemma_lands(x, rect.width);
    lemma_lands(y, rect.height);
}

/// A fixed-point number of lines is scrolled as the nearest whole one that an
/// `i32` holds.
pub open spec fn nearest_lines(lines: int, v: i64) -> bool {
    ||| -0x1_0000_0000 <= 2 * (lines * 0x1_0000_0000 - v) <= 0x1_0000_0000
    ||| lines == i32::MAX && v > lines * 0x1_0000_0000
}

/// What follows the move is what the message asks for: a click presses or lets go
/// of its own button, a scroll scrolls its own lines on each axis, a plain move
/// nothing.
pub proof fn law_messages_do_what_they_say(
    msg: InputMessage,
    held: HeldView,
    rect: CaptureRect,
    os: HostOs,
)
    ensures
        ({
            let calls = calls_for(msg, held, rect, os);
            &&& msg is PointerMove ==> calls.len() == 1
            &&& msg matches InputMessage::PointerButton { button, pressed, .. } ==> calls.len() == 2
                && calls[1] == Call::Button(button, pressed)
            &&& msg matches InputMessage::Wheel { dx, dy, .. } ==> calls.len() == 2 && (
            calls[1] matches Call::Wheel(lx, ly) && nearest_lines(lx as int, dx) && nearest_lines(
                ly as int,
                dy,
            ))
            &&& msg is ClipboardText ==> calls.len() == 0
        }),
{
}

/// A key that the platform knows makes one call, with its own keycode and
/// direction, and is then held exactly while it is down; an unknown one makes none.
pub proof fn law_a_key_makes_one_call(
    msg: InputMessage,
    held: HeldView,
    rect: CaptureRect,
    os: HostOs,
)
    requires
        msg is Key,
        held.wf(),
    ensures
        ({
            let calls = calls_for(msg, held, rect, os);
            let after = held_after(msg, held, os);
            match keymap::keycode(os, msg->code@) {
                Some(k) => {
                    &&& calls == seq![Call::Key(k, msg->Key_pressed)]
                    &&& after.keys.contains(k) == msg->Key_pressed
                    &&& after.buttons == held.buttons
                },
                None => calls.len() == 0 && after == held,
            }
        }),
{
    if let Some(k) = keymap::keycode(os, msg->code@) {
        lemma_toggled_set(held.keys, k, msg->Key_pressed);
        let after = held_after(msg, held, os);
        assert(after.keys.to_set().contains(k) == after.keys.contains(k));
    }
}

/// Letting go releases what is held and touches nothing else: every call is the
/// release of a held key or button.
pub proof fn law_only_what_is_held_is_released(held: HeldView, i: int)
    requires
        0 <= i < release_calls(held).len(),
    ensures
        release_calls(held).len() == held.keys.len() + held.buttons.len(),
        match release_calls(held)[i] {
            Call::Key(k, pressed) => !pressed && held.keys.contains(k),
            Call::Button(b, pressed) => !pressed && held.buttons.contains(b),
            _ => false,
        },
{
    if i < held.keys.len() {
        assert(held.keys[i] == held.keys[i]);
    } else {
        assert(held.buttons[i - held.keys.len()] == held.buttons[i - held.keys.len()]);
    }
}

/// A message that is no move stays where it is: what comes before it and what
/// comes after are coalesced apart.
pub proof fn law_coalescing_stops_at_other_messages(
    before: Seq<InputMessage>,
    msg: InputMessage,
    after: Seq<InputMessage>,
)
    requires
        !(msg is PointerMove),
    ensures
        coalesced(before + seq![msg] + after) == coalesced(before) + seq![msg] + coalesced(after),
    decreases before.len(),
{
    let all = before + seq![msg] + after;
    if before.len() == 0 {
        assert(all[0] == msg);
        assert(all.drop_first() =~= after);
        assert(coalesced(before) + seq![msg] + coalesced(after) =~= seq![msg] + coalesced(after));
    } else {
        let rest = before.drop_first();
        law_coalescing_stops_at_other_messages(rest, msg, after);
        assert(all.drop_first() =~= rest + seq![msg] + after);
        assert(all[0] == before[0]);
        assert(before.len() > 1 ==> all[1] == before[1]);
        assert(before.len() == 1 ==> all[1] == msg);
        assert(seq![before[0]] + (coalesced(rest) + seq![msg] + coalesced(after)) =~= (
        seq![before[0]] + coalesced(rest)) + seq![msg] + coalesced(after));
    }
}

/// Of moves alone the last one is left.
pub proof fn law_of_moves_the_last_is_left(moves: Seq<InputMessage>)
    requires
        moves.len() > 0,
        forall|i: int| 0 <= i < moves.len() ==> (#[trigger] moves[i]) is PointerMove,
    ensures
        coalesced(moves) == seq![moves.last()],
    decreases moves.len(),
{
    let rest = moves.drop_first();
    assert(moves[0] is PointerMove);
    if moves.len() > 1 {
        assert(moves[1] is PointerMove);
        assert forall|i: int| 0 <= i < rest.len() implies (#[trigger] rest[i]) is PointerMove by {
            assert(rest[i] == moves[i + 1]);
        }
        law_of_moves_the_last_is_left(rest);
    } else {
        assert(coalesced(rest) =~= Seq::empty());
        assert(coalesced(moves) =~= seq![moves.last()]);
    }
}

/// A coordinate falls on a pixel of its axis; on an axis without pixels it stays at
/// the start.
pub proof fn law_coordinates_stay_on_their_axis(value: i64, size: i32)
    ensures
        size > 0 ==> 0 <= scaled(value, size) < size,
        size <= 0 ==> scaled(value, size) == 0,
{
}

} // verus!
