//! Clipboard text sync: decides which clipboard changes of the host are worth
//! sending, and which text from the viewer is written to the host's clipboard.
//! The content of a clipboard is never part of a log line or an error.

use vstd::prelude::*;

use crate::text::str_eq;

verus! {

/// Text of more UTF-8 bytes than this is synchronized in neither direction.
pub const MAX_CLIPBOARD_BYTES: usize = 200_000;

/// How often the clipboard is polled, in nanoseconds.
pub const CLIPBOARD_POLL_INTERVAL: u64 = 250_000_000;

/// One exchange with a clipboard backend.
pub enum ClipboardEvent {
    /// The change counter was read.
    Counted(u64),
    /// The text was read.
    Got(Option<Seq<char>>),
    /// A text was written, and whether that worked.
    Wrote(Seq<char>, bool),
}

/// Something that reads and writes the clipboard's text and counts its changes.
pub trait ClipboardBackend {
    /// Every exchange so far. An implementation that is to be verified says what
    /// these are; the value here only spares one in plain Rust, for which the
    /// clauses below are a promise, from naming a ghost function.
    open spec fn log(&self) -> Seq<ClipboardEvent> {
        Seq::empty()
    }

    /// The system's change counter; only compared for equality.
    fn change_count(&mut self) -> (r: u64)
        ensures
            final(self).log() == old(self).log().push(ClipboardEvent::Counted(r)),
    ;

    /// The clipboard's text, where it holds text.
    fn get_text(&mut self) -> (r: Option<String>)
        ensures
            final(self).log() == old(self).log().push(
                ClipboardEvent::Got(
                    crate::text::chars_if_any(r),
                ),
            ),
    ;

    /// Writes `text`; an error is the reason why that failed.
    fn set_text(&mut self, text: &str) -> (r: Result<(), String>)
        ensures
            final(self).log() == old(self).log().push(ClipboardEvent::Wrote(text@, r is Ok)),
    ;
}

/// UTF-8 bytes of a text.
pub open spec fn byte_len(text: Seq<char>) -> int {
    vstd::utf8::encode_utf8(text).len() as int
}

fn exceeds_limit(text: &str) -> (r: bool)
    ensures
        r == (byte_len(text@) > MAX_CLIPBOARD_BYTES),
{
    text.as_bytes().len() > MAX_CLIPBOARD_BYTES
}

/// What is remembered of the clipboard.
pub struct SyncView {
    pub last_count: u64,
    pub last_text: Option<Seq<char>>,
}

impl SyncView {
    /// A text read from a changed clipboard is sent: it is not empty, not the
    /// last one seen, and within the limit.
    pub open spec fn sends(self, text: Option<Seq<char>>) -> bool {
        &&& text matches Some(t)
        &&& t.len() > 0
        &&& self.last_text != Some(t)
        &&& byte_len(t) <= MAX_CLIPBOARD_BYTES
    }

    /// What a poll reports when the counter reads `count` and the clipboard,
    /// where it has changed, holds `text`.
    pub open spec fn poll_result(self, count: u64, text: Option<Seq<char>>) -> Option<Seq<char>> {
        if count != self.last_count && self.sends(text) {
            text
        } else {
            None
        }
    }

    /// What is remembered after that poll.
    pub open spec fn polled(self, count: u64, text: Option<Seq<char>>) -> SyncView {
        SyncView {
            last_count: count,
            last_text: if count != self.last_count && self.sends(text) {
                text
            } else {
                self.last_text
            },
        }
    }

    /// A text from the viewer is written to the clipboard.
    pub open spec fn writes(self, text: Seq<char>) -> bool {
        byte_len(text) <= MAX_CLIPBOARD_BYTES && self.last_text != Some(text)
    }

    /// What is remembered after a text was written and the counter then read
    /// `count`.
    pub open spec fn wrote(self, text: Seq<char>, count: u64) -> SyncView {
        SyncView { last_count: count, last_text: Some(text) }
    }
}

/// What is remembered of the clipboard between polls. It has no `Debug`, so that
/// no log shows the text.
pub struct SyncState {
    /// The change counter as last read.
    pub last_count: u64,
    /// The text last sent or written.
    pub last_text: Option<String>,
}

impl View for SyncState {
    type V = SyncView;

    open spec fn view(&self) -> SyncView {
        SyncView {
            last_count: self.last_count,
            last_text: crate::text::chars_if_any(self.last_text),
        }
    }
}

impl SyncState {
    /// Remembers only the counter, so that what is already on the clipboard is
    /// never sent.
    pub fn new(count: u64) -> (r: Self)
        ensures
            r@ == (SyncView { last_count: count, last_text: None }),
    {
        SyncState { last_count: count, last_text: None }
    }

    fn is_last(&self, text: &str) -> (r: bool)
        ensures
            r == (self@.last_text == Some(text@)),
    {
        match &self.last_text {
            Some(last) => str_eq(last.as_str(), text),
            None => false,
        }
    }

    /// Whether the counter has moved, remembering it.
    pub fn count_changed(&mut self, count: u64) -> (r: bool)
        ensures
            r == (count != old(self)@.last_count),
            final(self)@ == (SyncView { last_count: count, ..old(self)@ }),
    {
        let changed: bool = count != self.last_count;
        self.last_count = count;
        changed
    }

    /// Decides whether a text read from a changed clipboard is sent, and
    /// remembers it if so.
    pub fn accept(&mut self, text: Option<String>) -> (r: Option<String>)
        ensures
            match (r, text) {
                (Some(sent), Some(t)) => {
                    &&& old(self)@.sends(Some(t@))
                    &&& sent@ == t@
                    &&& final(self)@ == (SyncView { last_text: Some(t@), ..old(self)@ })
                },
                (Some(_), None) => false,
                (None, Some(t)) => !old(self)@.sends(Some(t@)) && final(self)@ == old(self)@,
                (None, None) => final(self)@ == old(self)@,
            },
    {
        let t: String = match text {
            Some(t) => t,
            None => return None,
        };
        if t.as_str().is_empty() || self.is_last(t.as_str()) || exceeds_limit(t.as_str()) {
            return None;
        }
        self.last_text = Some(t.as_str().to_owned());
        Some(t)
    }

    /// Whether a text from the viewer is to be written.
    pub fn should_write(&self, text: &str) -> (r: bool)
        ensures
            r == self@.writes(text@),
    {
        !exceeds_limit(text) && !self.is_last(text)
    }

    /// Remembers a text that was written. `count` is the counter read after the
    /// write, so that the write itself does not look like a change.
    pub fn note_written(&mut self, text: &str, count: u64)
        ensures
            final(self)@ == old(self)@.wrote(text@, count),
    {
        self.last_text = Some(text.to_owned());
        self.last_count = count;
    }
}

/// Change detection over a clipboard backend.
pub struct ClipboardSync<B: ClipboardBackend> {
    pub backend: B,
    pub state: SyncState,
}

/// `events` and `r` are those of a poll in state `before`: the counter is read
/// and, only where it has moved, the text.
pub open spec fn is_poll(
    before: SyncView,
    after: SyncView,
    events: Seq<ClipboardEvent>,
    r: Option<Seq<char>>,
) -> bool {
    &&& events.len() >= 1
    &&& events[0] matches ClipboardEvent::Counted(count)
    &&& if count == before.last_count {
        &&& events.len() == 1
        &&& after == before
        &&& r is None
    } else {
        &&& events.len() == 2
        &&& events[1] matches ClipboardEvent::Got(text)
        &&& after == before.polled(count, text)
        &&& r == before.poll_result(count, text)
    }
}

/// `events` are those of applying `text` in state `before`: nothing where it is
/// not wanted, otherwise a write and, where that worked, a look at the counter.
/// A failed write is not remembered, so the same text gets another try.
pub open spec fn is_apply(
    before: SyncView,
    after: SyncView,
    events: Seq<ClipboardEvent>,
    text: Seq<char>,
) -> bool {
    if !before.writes(text) {
        events.len() == 0 && after == before
    } else {
        &&& events.len() >= 1
        &&& events[0] matches ClipboardEvent::Wrote(written, ok)
        &&& written == text
        &&& if ok {
            &&& events.len() == 2
            &&& events[1] matches ClipboardEvent::Counted(count)
            &&& after == before.wrote(text, count)
        } else {
            events.len() == 1 && after == before
        }
    }
}

impl<B: ClipboardBackend> ClipboardSync<B> {
    /// The exchanges with the backend since `earlier`.
    pub open spec fn events_since(self, earlier: Self) -> Seq<ClipboardEvent> {
        self.backend.log().skip(earlier.backend.log().len() as int)
    }

    /// Wraps a backend. Only its counter is read, never its text: what is on
    /// the clipboard when a session starts is not sent.
    pub fn new(backend: B) -> (r: Self)
        ensures
            r.state@ == (SyncView { last_count: r.state@.last_count, last_text: None }),
            r.backend.log() == backend.log().push(ClipboardEvent::Counted(r.state@.last_count)),
    {
        let mut backend: B = backend;
        let count: u64 = backend.change_count();
        ClipboardSync { backend, state: SyncState::new(count) }
    }

    /// The text to send, where the clipboard has changed to one worth sending.
    pub fn poll(&mut self) -> (r: Option<String>)
        ensures
            final(self).backend.log() == old(self).backend.log() + final(self).events_since(
                *old(self),
            ),
            is_poll(
                old(self).state@,
                final(self).state@,
                final(self).events_since(*old(self)),
                crate::text::chars_if_any(r),
            ),
    {
        let ghost before = *self;
        let count: u64 = self.backend.change_count();
        if !self.state.count_changed(count) {
            assert(self.events_since(before) =~= seq![ClipboardEvent::Counted(count)]);
            assert(self.backend.log() =~= before.backend.log() + self.events_since(before));
            return None;
        }
        let text: Option<String> = self.backend.get_text();
        let ghost got = crate::text::chars_if_any(text);
        let sent: Option<String> = self.state.accept(text);
        assert(self.events_since(before) =~= seq![
            ClipboardEvent::Counted(count),
            ClipboardEvent::Got(got),
        ]);
        assert(self.backend.log() =~= before.backend.log() + self.events_since(before));
        sent
    }

    /// Writes text that came from the viewer to the clipboard.
    pub fn apply_remote(&mut self, text: &str)
        ensures
            final(self).backend.log() == old(self).backend.log() + final(self).events_since(
                *old(self),
            ),
            is_apply(
                old(self).state@,
                final(self).state@,
                final(self).events_since(*old(self)),
                text@,
            ),
    {
        let ghost before = *self;
        if !self.state.should_write(text) {
            assert(self.events_since(before) =~= Seq::empty());
            assert(self.backend.log() =~= before.backend.log() + self.events_since(before));
            return;
        }
        let written: bool = self.backend.set_text(text).is_ok();
        if !written {
            assert(self.events_since(before) =~= seq![ClipboardEvent::Wrote(text@, false)]);
            assert(self.backend.log() =~= before.backend.log() + self.events_since(before));
            return;
        }
        let count: u64 = self.backend.change_count();
        self.state.note_written(text, count);
        assert(self.events_since(before) =~= seq![
            ClipboardEvent::Wrote(text@, true),
            ClipboardEvent::Counted(count),
        ]);
        assert(self.backend.log() =~= before.backend.log() + self.events_since(before));
    }
}

/// Text written for the viewer does not come back as a change: a poll that sees
/// the counter as it was after the write reports nothing.
pub proof fn law_no_echo(s: SyncView, text: Seq<char>, count: u64, found: Option<Seq<char>>)
    ensures
        s.wrote(text, count).poll_result(count, found) is None,
        s.wrote(text, count).polled(count, found) == s.wrote(text, count),
{
}

/// A change is reported once: neither the same counter nor the same text under
/// a new counter is reported again.
pub proof fn law_reported_once(
    s: SyncView,
    count: u64,
    text: Seq<char>,
    later: u64,
    found: Option<Seq<char>>,
)
    requires
        s.poll_result(count, Some(text)) == Some(text),
    ensures
        s.polled(count, Some(text)).poll_result(count, found) is None,
        s.polled(count, Some(text)).poll_result(later, Some(text)) is None,
{
}

/// What is reported is text, not empty and within the limit.
pub proof fn law_only_sendable_text_is_reported(s: SyncView, count: u64, found: Option<Seq<char>>)
    ensures
        s.poll_result(count, found) matches Some(t) ==> {
            &&& found == Some(t)
            &&& t.len() > 0
            &&& byte_len(t) <= MAX_CLIPBOARD_BYTES
        },
{
}

/// Text that was just sent or written is not written again.
pub proof fn law_known_text_is_not_written(
    s: SyncView,
    text: Seq<char>,
    count: u64,
    sent: Seq<char>,
)
    requires
        s.poll_result(count, Some(sent)) == Some(sent),
    ensures
        !s.wrote(text, count).writes(text),
        !s.polled(count, Some(sent)).writes(sent),
{
}

/// Text from the viewer that is within the limit and is not the text last sent or
/// written is written to the clipboard. A write that worked is remembered with
/// the counter read after it, one that failed is not.
pub proof fn law_new_text_is_written(
    before: SyncView,
    after: SyncView,
    events: Seq<ClipboardEvent>,
    text: Seq<char>,
)
    requires
        is_apply(before, after, events, text),
        vstd::utf8::encode_utf8(text).len() <= 200_000,
        before.last_text != Some(text),
    ensures
        events.len() >= 1,
        events[0] == ClipboardEvent::Wrote(text, true) || events[0] == ClipboardEvent::Wrote(
            text,
            false,
        ),
        events[0] == ClipboardEvent::Wrote(text, true) ==> {
            &&& events.len() == 2
            &&& events[1] == ClipboardEvent::Counted(after.last_count)
            &&& after.last_text == Some(text)
        },
        events[0] == ClipboardEvent::Wrote(text, false) ==> events.len() == 1 && after == before,
{
}

/// Text that is too long, or that is on the clipboard already, is not written, and
/// nothing else is done for it.
pub proof fn law_unwanted_text_is_left_alone(
    before: SyncView,
    after: SyncView,
    events: Seq<ClipboardEvent>,
    text: Seq<char>,
)
    requires
        is_apply(before, after, events, text),
        vstd::utf8::encode_utf8(text).len() > 200_000 || before.last_text == Some(text),
    ensures
        events.len() == 0,
        after == before,
{
}

/// A poll that finds the counter moved, and a text on the clipboard that is not
/// empty, within the limit and not the last one sent or written, reports that
/// text and remembers it.
pub proof fn law_a_changed_text_is_reported(
    before: SyncView,
    after: SyncView,
    events: Seq<ClipboardEvent>,
    r: Option<Seq<char>>,
    count: u64,
    text: Seq<char>,
)
    requires
        is_poll(before, after, events, r),
        events[0] == ClipboardEvent::Counted(count),
        count != before.last_count,
        events[1] == ClipboardEvent::Got(Some(text)),
        text.len() > 0,
        vstd::utf8::encode_utf8(text).len() <= 200_000,
        before.last_text != Some(text),
    ensures
        r == Some(text),
        after.last_text == Some(text),
        after.last_count == count,
{
}

/// A poll looks at the counter first, and at the text exactly where it has moved.
/// Whatever comes of that, the counter is remembered; a text that is not reported
/// is not.
pub proof fn law_a_poll_looks_only_at_changes(
    before: SyncView,
    after: SyncView,
    events: Seq<ClipboardEvent>,
    r: Option<Seq<char>>,
)
    requires
        is_poll(before, after, events, r),
    ensures
        events[0] is Counted,
        after.last_count == events[0]->Counted_0,
        events.len() == if events[0]->Counted_0 == before.last_count {
            1nat
        } else {
            2nat
        },
        events.len() == 2 ==> events[1] is Got,
        r is None ==> after.last_text == before.last_text,
        r matches Some(t) ==> after.last_text == Some(t) && events.len() == 2 && events[1]
            == ClipboardEvent::Got(Some(t)) && t.len() > 0 && vstd::utf8::encode_utf8(t).len()
            <= 200_000 && before.last_text != Some(t),
{
}

} // verus!
