//! What the command line prints, and what it makes of a typed password.

use vstd::prelude::*;

use crate::capture::DisplayInfo;
use crate::proto::AgentStatus;
use crate::text::{chars_of, concat, concat3, decimal_of, signed_decimal_of, str_eq, string_of};

verus! {

/// A display as a line of columns: id, title, size and place, and whether it is
/// the primary one.
pub open spec fn display_columns(d: DisplayInfo) -> Seq<char> {
    crate::text::decimal(d.id as nat) + "\t"@ + d.title@ + "\t"@ + crate::text::decimal(
        d.width as nat,
    ) + "x"@ + crate::text::decimal(d.height as nat) + "@"@ + crate::text::signed_decimal(
        d.x as int,
    ) + ","@ + crate::text::signed_decimal(d.y as int) + "\t"@ + (if d.primary {
        "primary"@
    } else {
        "-"@
    })
}

/// The line for a display.
pub fn display_line(d: &DisplayInfo) -> (r: String)
    ensures
        r@ == display_columns(*d),
{
    let mut out: String = decimal_of(d.id as u64);
    out.append("\t");
    out.append(d.title.as_str());
    out.append("\t");
    out.append(decimal_of(d.width as u64).as_str());
    out.append("x");
    out.append(decimal_of(d.height as u64).as_str());
    out.append("@");
    out.append(signed_decimal_of(d.x).as_str());
    out.append(",");
    out.append(signed_decimal_of(d.y).as_str());
    out.append("\t");
    if d.primary {
        out.append("primary");
    } else {
        out.append("-");
    }
    out
}

/// The lines of `list-displays`.
pub fn list_displays_lines(displays: &[DisplayInfo]) -> (r: Vec<String>)
    ensures
        displays@.len() == 0 ==> r@.len() == 1 && r@[0]@ == "no capturable displays found"@,
        displays@.len() > 0 ==> r@.len() == displays@.len(),
        forall|i: int|
            0 <= i < displays@.len() ==> (#[trigger] r@[i])@ == display_columns(displays@[i]),
{
    let mut lines: Vec<String> = Vec::new();
    if displays.len() == 0 {
        lines.push(String::from_str("no capturable displays found"));
        return lines;
    }
    let mut i: usize = 0;
    while i < displays.len()
        invariant
            i <= displays@.len(),
            lines@.len() == i,
            forall|j: int| 0 <= j < i ==> (#[trigger] lines@[j])@ == display_columns(displays@[j]),
        decreases displays@.len() - i,
    {
        lines.push(display_line(&displays[i]));
        i = i + 1;
    }
    lines
}

/// A password typed twice has to be the same both times.
pub fn confirmed_password(first: String, second: &str) -> (r: Result<String, &'static str>)
    ensures
        match r {
            Ok(password) => first@ == second@ && password@ == first@,
            Err(message) => first@ != second@ && message@ == "Пароли не совпадают"@,
        },
{
    if str_eq(first.as_str(), second) {
        Ok(first)
    } else {
        Err("Пароли не совпадают")
    }
}

/// A line without the characters that end it.
pub open spec fn without_line_end(s: Seq<char>) -> Seq<char>
    decreases s.len(),
{
    if s.len() > 0 && (s.last() == '\n' || s.last() == '\r') {
        without_line_end(s.drop_last())
    } else {
        s
    }
}

/// The password on a line that was read.
pub fn password_line(line: &str) -> (r: String)
    ensures
        r@ == without_line_end(line@),
{
    let chars: Vec<char> = chars_of(line);
    let mut end: usize = chars.len();
    assert(chars@.take(end as int) =~= chars@);
    while end > 0 && (chars[end - 1] == '\n' || chars[end - 1] == '\r')
        invariant
            end <= chars@.len(),
            without_line_end(chars@.take(end as int)) == without_line_end(chars@),
        decreases end,
    {
        assert(chars@.take(end as int).drop_last() =~= chars@.take(end - 1));
        end = end - 1;
    }
    let head: &[char] = vstd::slice::slice_subrange(chars.as_slice(), 0, end);
    assert(head@ =~= chars@.take(end as int));
    string_of(head)
}

/// What is printed once a password is set, and stored in `path`.
pub fn password_set_lines(path: &str) -> (r: (String, &'static str))
    ensures
        r.0@ == "Пароль задан: "@ + path@,
        r.1@ == "Хост применит его при следующем подключении -- перезапуск агента не нужен."@,
{
    (
        concat("Пароль задан: ", path),
        "Хост применит его при следующем подключении -- перезапуск агента не нужен.",
    )
}

/// What is printed once there is no password.
pub fn password_cleared_line(had_password: bool) -> (r: &'static str)
    ensures
        r == (if had_password {
            "Пароль снят"
        } else {
            "Пароль не был задан"
        }),
{
    if had_password {
        "Пароль снят"
    } else {
        "Пароль не был задан"
    }
}

/// Whether there is a password, and where.
pub fn password_status_line(set: bool, path: &str) -> (r: String)
    ensures
        r@ == (if set {
            "Пароль: задан ("@ + path@ + ")"@
        } else {
            "Пароль: не задан"@
        }),
{
    if set {
        concat3("Пароль: задан (", path, ")")
    } else {
        String::from_str("Пароль: не задан")
    }
}

/// Whether the agent starts at login, and from where.
pub fn autostart_line(on: bool, agent: &str) -> (r: String)
    ensures
        r@ == (if on {
            "autostart: on ("@ + agent@ + ")"@
        } else {
            "autostart: off"@
        }),
{
    if on {
        concat3("autostart: on (", agent, ")")
    } else {
        String::from_str("autostart: off")
    }
}

/// Prints the PIN of each registration once. A session that ends brings back the
/// PIN there was before, which is not printed again.
pub struct PinPrinter {
    pub last: Option<String>,
}

/// The PIN to print of a status, given the one printed last.
pub open spec fn pin_to_print(
    last: Option<Seq<char>>,
    status: crate::proto::StatusView,
) -> Option<Seq<char>> {
    match status {
        crate::proto::StatusView::Registered { pin } if last != Some(pin) => Some(pin),
        _ => None,
    }
}

impl PinPrinter {
    pub fn new() -> (r: Self)
        ensures
            r.last is None,
    {
        PinPrinter { last: None }
    }

    /// The line to print for a status, if any.
    pub fn observe(&mut self, status: &AgentStatus) -> (r: Option<String>)
        ensures
            match pin_to_print(crate::text::chars_if_any(old(self).last), status@) {
                Some(pin) => {
                    &&& r matches Some(line) && line@ == "PIN: "@ + pin
                    &&& crate::text::chars_if_any(final(self).last) == Some(pin)
                },
                None => r is None && final(self).last == old(self).last,
            },
    {
        match status {
            AgentStatus::Registered { pin } => {
                let known: bool = match &self.last {
                    Some(last) => str_eq(last.as_str(), pin.as_str()),
                    None => false,
                };
                if known {
                    None
                } else {
                    self.last = Some(pin.as_str().to_owned());
                    Some(concat("PIN: ", pin.as_str()))
                }
            },
            _ => None,
        }
    }
}

/// A PIN is printed once: after it was printed, the same registration, and any
/// status that is none, print nothing.
pub proof fn law_a_pin_is_printed_once(
    last: Option<Seq<char>>,
    status: crate::proto::StatusView,
)
    requires
        status matches crate::proto::StatusView::Registered { pin } ==> last == Some(pin),
    ensures
        pin_to_print(last, status) is None,
{
}

/// A PIN that was not the last one printed is printed with its registration, and
/// at no other time.
pub proof fn law_a_new_pin_is_printed(
    last: Option<Seq<char>>,
    status: crate::proto::StatusView,
)
    ensures
        status matches crate::proto::StatusView::Registered { pin } ==> (last != Some(pin)
            ==> pin_to_print(last, status) == Some(pin)),
        !(status is Registered) ==> pin_to_print(last, status) is None,
{
}

/// What is left of a line is its beginning, without the characters that end it
/// and with all others.
pub proof fn law_only_the_line_end_is_cut(s: Seq<char>)
    ensures
        ({
            let kept = without_line_end(s);
            &&& kept.len() <= s.len() && s.take(kept.len() as int) == kept
            &&& kept.len() > 0 ==> kept.last() != '\n' && kept.last() != '\r'
            &&& forall|i: int| kept.len() <= i < s.len() ==> s[i] == '\n' || s[i] == '\r'
        }),
    decreases s.len(),
{
    if s.len() > 0 && (s.last() == '\n' || s.last() == '\r') {
        let front = s.drop_last();
        law_only_the_line_end_is_cut(front);
        let kept = without_line_end(s);
        assert(s.take(kept.len() as int) =~= front.take(kept.len() as int));
        assert forall|i: int| kept.len() <= i < s.len() implies s[i] == '\n' || s[i] == '\r' by {
            if i < front.len() {
                assert(front[i] == s[i]);
            }
        }
    } else {
        assert(s.take(s.len() as int) =~= s);
    }
}

} // verus!
