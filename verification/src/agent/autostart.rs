//! "Start at login": which program it points at, and the text that each
//! platform's mechanism is built from: a LaunchAgent property list on macOS, a
//! `Run` value in the registry on Windows.

use vstd::prelude::*;

use crate::text::{
    chars_of, concat, concat3, cut_once, join_path, replace_all, str_eq, string_of,
};

verus! {

/// The file name of the agent's binary.
pub open spec fn binary_name(windows: bool) -> &'static str {
    if windows {
        "rcdesk-agent.exe"
    } else {
        "rcdesk-agent"
    }
}

pub fn agent_binary_name(windows: bool) -> (r: &'static str)
    ensures
        r == binary_name(windows),
{
    if windows {
        "rcdesk-agent.exe"
    } else {
        "rcdesk-agent"
    }
}

/// Where the agent's binary lies next to another binary of the same build.
/// `windows` says which system the build is for, `host_windows` how this host
/// writes paths.
pub fn sibling_agent_path(exe_dir: &str, windows: bool, host_windows: bool) -> (r: String)
    ensures
        r@ == crate::text::joined(host_windows, exe_dir@, binary_name(windows)@),
{
    join_path(host_windows, exe_dir, agent_binary_name(windows))
}

/// The program that "start at login" is to launch.
pub enum AgentTarget {
    /// The running program itself.
    Running,
    /// The agent next to it, which has to exist.
    Sibling(String),
    /// The running program lies in no directory.
    NoDirectory,
}

/// Decides which program to launch: the running one where it is the agent
/// (`stem` is its file name without extension), otherwise the agent that lies in
/// the same directory.
pub fn agent_target(stem: Option<&str>, dir: Option<&str>, windows: bool) -> (r: AgentTarget)
    ensures
        match r {
            AgentTarget::Running => stem matches Some(s) && s@ == "rcdesk-agent"@,
            AgentTarget::Sibling(path) => {
                &&& !(stem matches Some(s) && s@ == "rcdesk-agent"@)
                &&& dir matches Some(d) && path@ == crate::text::joined(
                    windows,
                    d@,
                    binary_name(windows)@,
                )
            },
            AgentTarget::NoDirectory => !(stem matches Some(s) && s@ == "rcdesk-agent"@) && dir
                is None,
        },
{
    if let Some(s) = stem {
        if str_eq(s, "rcdesk-agent") {
            return AgentTarget::Running;
        }
    }
    match dir {
        Some(d) => AgentTarget::Sibling(sibling_agent_path(d, windows, windows)),
        None => AgentTarget::NoDirectory,
    }
}

/// The complaint about an agent that is not where it should be.
pub fn missing_agent_message(candidate: &str) -> (r: String)
    ensures
        r@ == "rcdesk-agent not found at "@ + candidate@
            + " -- it ships next to rcdesk-host, see docs/host-windows.md"@,
{
    concat3(
        "rcdesk-agent not found at ",
        candidate,
        " -- it ships next to rcdesk-host, see docs/host-windows.md",
    )
}

/// A path without the prefix that marks it as verbatim on Windows: `\\?\UNC\`
/// becomes `\\`, and `\\?\` goes. What starts a program at login knows neither.
pub open spec fn without_verbatim_prefix(path: Seq<char>) -> Seq<char> {
    let unc = "\\\\?\\UNC\\"@;
    let local = "\\\\?\\"@;
    if crate::text::occurs_at(path, unc, 0) {
        "\\\\"@ + path.skip(unc.len() as int)
    } else if crate::text::occurs_at(path, local, 0) {
        path.skip(local.len() as int)
    } else {
        path
    }
}

/// Strips the verbatim prefix of Windows; any other path stays.
pub fn strip_verbatim_prefix(path: &str) -> (r: String)
    ensures
        r@ == without_verbatim_prefix(path@),
{
    let chars: Vec<char> = chars_of(path);
    let unc: Vec<char> = chars_of("\\\\?\\UNC\\");
    let local: Vec<char> = chars_of("\\\\?\\");
    if crate::text::holds_at(chars.as_slice(), unc.as_slice(), 0) {
        let rest: &[char] = vstd::slice::slice_subrange(chars.as_slice(), unc.len(), chars.len());
        assert(rest@ =~= path@.skip(unc@.len() as int));
        let rest: String = string_of(rest);
        concat("\\\\", rest.as_str())
    } else if crate::text::holds_at(chars.as_slice(), local.as_slice(), 0) {
        let rest: &[char] = vstd::slice::slice_subrange(
            chars.as_slice(),
            local.len(),
            chars.len(),
        );
        assert(rest@ =~= path@.skip(local@.len() as int));
        string_of(rest)
    } else {
        path.to_owned()
    }
}

/// How a character is written in XML text.
pub open spec fn entity(c: char) -> Seq<char> {
    if c == '&' {
        "&amp;"@
    } else if c == '<' {
        "&lt;"@
    } else if c == '>' {
        "&gt;"@
    } else if c == '"' {
        "&quot;"@
    } else if c == '\'' {
        "&apos;"@
    } else {
        seq![c]
    }
}

/// A text as it is written in XML.
pub open spec fn escaped(s: Seq<char>) -> Seq<char>
    decreases s.len(),
{
    if s.len() == 0 {
        Seq::empty()
    } else {
        entity(s[0]) + escaped(s.drop_first())
    }
}

/// Escapes the five predefined entities of XML.
pub fn escape_xml(s: &str) -> (r: String)
    ensures
        r@ == escaped(s@),
{
    let chars: Vec<char> = chars_of(s);
    let mut out: String = String::new();
    let mut i: usize = 0;
    assert(s@.skip(0) =~= s@);
    assert(out@ + escaped(s@) =~= escaped(s@));
    while i < chars.len()
        invariant
            chars@ == s@,
            i <= chars@.len(),
            out@ + escaped(s@.skip(i as int)) == escaped(s@),
        decreases chars@.len() - i,
    {
        let ghost before = out@;
        let c: char = chars[i];
        if c == '&' {
            out.append("&amp;");
        } else if c == '<' {
            out.append("&lt;");
        } else if c == '>' {
            out.append("&gt;");
        } else if c == '"' {
            out.append("&quot;");
        } else if c == '\'' {
            out.append("&apos;");
        } else {
            out.push(c);
        }
        assert(out@ =~= before + entity(c));
        assert(s@.skip(i as int).drop_first() =~= s@.skip(i + 1));
        assert(out@ + escaped(s@.skip(i + 1)) =~= before + escaped(s@.skip(i as int)));
        i = i + 1;
    }
    assert(out@ + escaped(s@.skip(i as int)) =~= out@);
    out
}

/// A text with the five entities turned back, the ampersand last.
pub open spec fn unescaped(s: Seq<char>) -> Seq<char> {
    let s1 = crate::text::replaced(s, "&lt;"@, "<"@);
    let s2 = crate::text::replaced(s1, "&gt;"@, ">"@);
    let s3 = crate::text::replaced(s2, "&quot;"@, "\""@);
    let s4 = crate::text::replaced(s3, "&apos;"@, "'"@);
    crate::text::replaced(s4, "&amp;"@, "&"@)
}

fn replace(s: &[char], pat: &str, to: &str) -> (r: Vec<char>)
    requires
        pat@.len() > 0,
    ensures
        r@ == crate::text::replaced(s@, pat@, to@),
{
    let pat: Vec<char> = chars_of(pat);
    let to: Vec<char> = chars_of(to);
    replace_all(s, pat.as_slice(), to.as_slice())
}

/// Turns the five predefined entities of XML back.
pub fn unescape_xml(s: &[char]) -> (r: String)
    ensures
        r@ == unescaped(s@),
{
    proof {
        reveal_strlit("&lt;");
        reveal_strlit("&gt;");
        reveal_strlit("&quot;");
        reveal_strlit("&apos;");
        reveal_strlit("&amp;");
    }
    let s1: Vec<char> = replace(s, "&lt;", "<");
    let s2: Vec<char> = replace(s1.as_slice(), "&gt;", ">");
    let s3: Vec<char> = replace(s2.as_slice(), "&quot;", "\"");
    let s4: Vec<char> = replace(s3.as_slice(), "&apos;", "'");
    let s5: Vec<char> = replace(s4.as_slice(), "&amp;", "&");
    string_of(s5.as_slice())
}

/// The property list up to the program's key, with the agent's label.
pub const PLIST_INTRO: &'static str = "<?xml version=\"1.0\" encoding=\"UTF-8\"?>\n<!DOCTYPE plist PUBLIC \"-//Apple//DTD PLIST 1.0//EN\" \"http://www.apple.com/DTDs/PropertyList-1.0.dtd\">\n<plist version=\"1.0\">\n<dict>\n    <key>Label</key>\n    <string>app.rcdesk.agent</string>\n    ";

/// The key of the program and its arguments.
pub const PROGRAM_KEY: &'static str = "<key>ProgramArguments</key>";

/// The property list after the program: start at every login, again only after
/// an unclean exit, and only in the session with a screen.
pub const PLIST_OUTRO: &'static str = "\n    </array>\n    <key>RunAtLoad</key>\n    <true/>\n    <key>KeepAlive</key>\n    <dict>\n        <key>SuccessfulExit</key>\n        <false/>\n    </dict>\n    <key>ProcessType</key>\n    <string>Interactive</string>\n    <key>LimitLoadToSessionType</key>\n    <string>Aqua</string>\n</dict>\n</plist>\n";

/// The property list that launches the program at `path`.
pub open spec fn plist(path: Seq<char>) -> Seq<char> {
    PLIST_INTRO@ + PROGRAM_KEY@ + "\n    "@ + "<array>"@ + "\n        "@ + "<string>"@ + escaped(
        path,
    ) + "</string>"@ + PLIST_OUTRO@
}

/// Writes the property list of the LaunchAgent.
pub fn generate_plist(agent: &str) -> (r: String)
    ensures
        r@ == plist(agent@),
{
    let mut out: String = concat3(PLIST_INTRO, PROGRAM_KEY, "\n    ");
    out.append("<array>");
    out.append("\n        ");
    out.append("<string>");
    let path: String = escape_xml(agent);
    out.append(path.as_str());
    out.append("</string>");
    out.append(PLIST_OUTRO);
    out
}

/// The program of a property list: the first string of the array that follows
/// the program's key.
pub open spec fn program_of(xml: Seq<char>) -> Option<Seq<char>> {
    match crate::text::split_once(xml, PROGRAM_KEY@) {
        None => None,
        Some((_, s1)) => match crate::text::split_once(s1, "<array>"@) {
            None => None,
            Some((_, s2)) => match crate::text::split_once(s2, "<string>"@) {
                None => None,
                Some((_, s3)) => match crate::text::split_once(s3, "</string>"@) {
                    None => None,
                    Some((inner, _)) => Some(unescaped(inner)),
                },
            },
        },
    }
}

/// Reads the program back out of a property list that [`generate_plist`] wrote.
pub fn parse_program_arguments_path(xml: &str) -> (r: Option<String>)
    ensures
        crate::text::chars_if_any(r) == program_of(xml@),
{
    let chars: Vec<char> = chars_of(xml);
    let key: Vec<char> = chars_of(PROGRAM_KEY);
    let array: Vec<char> = chars_of("<array>");
    let open: Vec<char> = chars_of("<string>");
    let close: Vec<char> = chars_of("</string>");
    let s1: &[char] = match cut_once(chars.as_slice(), key.as_slice()) {
        Some((_, after)) => after,
        None => return None,
    };
    let s2: &[char] = match cut_once(s1, array.as_slice()) {
        Some((_, after)) => after,
        None => return None,
    };
    let s3: &[char] = match cut_once(s2, open.as_slice()) {
        Some((_, after)) => after,
        None => return None,
    };
    match cut_once(s3, close.as_slice()) {
        Some((inner, _)) => Some(unescape_xml(inner)),
        None => None,
    }
}

/// The name of the value under the `Run` key.
pub const RUN_VALUE_NAME: &'static str = "rcdesk";

/// A path in double quotes, so that spaces in it are safe.
pub open spec fn run_value(agent: Seq<char>) -> Seq<char> {
    "\""@ + agent + "\""@
}

/// The `Run` value that launches the agent.
pub fn format_run_value(agent: &str) -> (r: String)
    ensures
        r@ == run_value(agent@),
{
    concat3("\"", agent, "\"")
}

/// Whether a `Run` value points at the agent, whatever the case of its letters.
pub fn run_value_matches(stored: &str, agent: &str) -> (r: bool)
    ensures
        r == (crate::text::lowercase(stored@) == crate::text::lowercase(run_value(agent@))),
{
    let stored: String = stored.to_lowercase();
    let wanted: String = format_run_value(agent).as_str().to_lowercase();
    str_eq(stored.as_str(), wanted.as_str())
}

/// How a character is written once the first `k` kinds of entities are turned
/// back.
spec fn partly_escaped(k: int, c: char) -> Seq<char> {
    if (c == '<' && k >= 1) || (c == '>' && k >= 2) || (c == '"' && k >= 3) || (c == '\'' && k >= 4)
        || (c == '&' && k >= 5) {
        seq![c]
    } else {
        entity(c)
    }
}

spec fn partly_escaped_text(k: int, s: Seq<char>) -> Seq<char>
    decreases s.len(),
{
    if s.len() == 0 {
        Seq::empty()
    } else {
        partly_escaped(k, s[0]) + partly_escaped_text(k, s.drop_first())
    }
}

/// The character whose entity step `k` turns back.
spec fn special(k: int) -> char {
    if k == 0 {
        '<'
    } else if k == 1 {
        '>'
    } else if k == 2 {
        '"'
    } else if k == 3 {
        '\''
    } else {
        '&'
    }
}

/// Replacing passes over text without an ampersand.
proof fn lemma_replace_skips(u: Seq<char>, rest: Seq<char>, pat: Seq<char>, to: Seq<char>)
    requires
        pat.len() > 0,
        pat[0] == '&',
        forall|i: int| 0 <= i < u.len() ==> u[i] != '&',
    ensures
        crate::text::replaced(u + rest, pat, to) == u + crate::text::replaced(rest, pat, to),
    decreases u.len(),
{
    if u.len() == 0 {
        assert(u + rest =~= rest);
        assert(u + crate::text::replaced(rest, pat, to) =~= crate::text::replaced(rest, pat, to));
    } else {
        let s = u + rest;
        let v = u.drop_first();
        if crate::text::occurs_at(s, pat, 0) {
            assert(s.subrange(0, pat.len() as int)[0] == u[0]);
        }
        assert(s.drop_first() =~= v + rest);
        lemma_replace_skips(v, rest, pat, to);
        assert(seq![s[0]] + (v + crate::text::replaced(rest, pat, to)) =~= u
            + crate::text::replaced(rest, pat, to));
    }
}

proof fn lemma_entities()
    ensures
        entity('&') == seq!['&', 'a', 'm', 'p', ';'],
        entity('<') == seq!['&', 'l', 't', ';'],
        entity('>') == seq!['&', 'g', 't', ';'],
        entity('"') == seq!['&', 'q', 'u', 'o', 't', ';'],
        entity('\'') == seq!['&', 'a', 'p', 'o', 's', ';'],
{
    reveal_strlit("&amp;");
    reveal_strlit("&lt;");
    reveal_strlit("&gt;");
    reveal_strlit("&quot;");
    reveal_strlit("&apos;");
    assert("&amp;"@ =~= seq!['&', 'a', 'm', 'p', ';']);
    assert("&lt;"@ =~= seq!['&', 'l', 't', ';']);
    assert("&gt;"@ =~= seq!['&', 'g', 't', ';']);
    assert("&quot;"@ =~= seq!['&', 'q', 'u', 'o', 't', ';']);
    assert("&apos;"@ =~= seq!['&', 'a', 'p', 'o', 's', ';']);
}

/// A character that is not written as the entity of `special(k)` does not look
/// like it either.
proof fn lemma_other_entity(k: int, c: char, rest: Seq<char>)
    requires
        0 <= k <= 4,
        c != special(k),
    ensures
        !crate::text::occurs_at(partly_escaped(k, c) + rest, entity(special(k)), 0),
{
    lemma_entities();
    let t = partly_escaped(k, c);
    let pat = entity(special(k));
    let s = t + rest;
    if crate::text::occurs_at(s, pat, 0) {
        let head = s.subrange(0, pat.len() as int);
        assert(head[0] == s[0] && head[1] == s[1] && head[2] == s[2]);
        assert(s[0] == t[0]);
        if t.len() > 1 {
            assert(s[1] == t[1] && s[2] == t[2]);
        }
    }
}

/// One step of turning entities back.
proof fn lemma_unescape_step(k: int, s: Seq<char>)
    requires
        0 <= k <= 4,
    ensures
        crate::text::replaced(
            partly_escaped_text(k, s),
            entity(special(k)),
            seq![special(k)],
        ) == partly_escaped_text(k + 1, s),
    decreases s.len(),
{
    lemma_entities();
    let pat = entity(special(k));
    let to = seq![special(k)];
    if s.len() > 0 {
        let c = s[0];
        let t = partly_escaped(k, c);
        let rest = partly_escaped_text(k, s.drop_first());
        let whole = t + rest;
        lemma_unescape_step(k, s.drop_first());
        if c == special(k) {
            assert(whole.subrange(0, pat.len() as int) =~= pat);
            assert(whole.skip(pat.len() as int) =~= rest);
        } else {
            lemma_other_entity(k, c, rest);
            let u = t.drop_first();
            assert(whole.drop_first() =~= u + rest);
            lemma_replace_skips(u, rest, pat, to);
            assert(seq![whole[0]] + (u + crate::text::replaced(rest, pat, to)) =~= t
                + crate::text::replaced(rest, pat, to));
        }
    }
}

proof fn lemma_stages(s: Seq<char>)
    ensures
        partly_escaped_text(0, s) == escaped(s),
        partly_escaped_text(5, s) == s,
    decreases s.len(),
{
    if s.len() > 0 {
        lemma_stages(s.drop_first());
        assert(seq![s[0]] + s.drop_first() =~= s);
    }
}

/// Turning entities back undoes escaping.
pub proof fn law_unescape_undoes_escape(s: Seq<char>)
    ensures
        unescaped(escaped(s)) == s,
{
    lemma_stages(s);
    lemma_unescape_step(0, s);
    lemma_unescape_step(1, s);
    lemma_unescape_step(2, s);
    lemma_unescape_step(3, s);
    lemma_unescape_step(4, s);
    reveal_strlit("<");
    reveal_strlit(">");
    reveal_strlit("\"");
    reveal_strlit("'");
    reveal_strlit("&");
    assert("<"@ =~= seq!['<']);
    assert(">"@ =~= seq!['>']);
    assert("\""@ =~= seq!['"']);
    assert("'"@ =~= seq!['\'']);
    assert("&"@ =~= seq!['&']);
}

/// Escaped text holds no character that XML gives a meaning but the ampersand.
pub proof fn law_escaped_text_is_inert(s: Seq<char>, i: int)
    requires
        0 <= i < escaped(s).len(),
    ensures
        escaped(s)[i] != '<' && escaped(s)[i] != '>' && escaped(s)[i] != '"' && escaped(s)[i] != '\'',
    decreases s.len(),
{
    lemma_entities();
    let head = entity(s[0]);
    if i >= head.len() {
        law_escaped_text_is_inert(s.drop_first(), i - head.len());
    }
}

/// The first occurrence, where nothing before it matches.
proof fn lemma_found(s: Seq<char>, pat: Seq<char>, i: int, from: int)
    requires
        0 <= from <= i,
        crate::text::occurs_at(s, pat, i),
        forall|j: int| from <= j < i ==> !crate::text::occurs_at(s, pat, j),
    ensures
        crate::text::find_from(s, pat, from) == Some(i),
    decreases i - from,
{
    if from < i {
        lemma_found(s, pat, i, from + 1);
    }
}

/// A text that is `before`, `pat` and `after` in a row is cut there if `pat`
/// occurs nowhere earlier; for that it is enough that its first character does
/// not occur in `before`.
proof fn lemma_cut(before: Seq<char>, pat: Seq<char>, after: Seq<char>)
    requires
        pat.len() > 0,
        forall|j: int| 0 <= j < before.len() ==> before[j] != pat[0],
    ensures
        crate::text::split_once(before + pat + after, pat) == Some((before, after)),
{
    let s = before + pat + after;
    let n = before.len() as int;
    assert(s.subrange(n, n + pat.len()) =~= pat);
    assert forall|j: int| 0 <= j < n implies !crate::text::occurs_at(s, pat, j) by {
        if crate::text::occurs_at(s, pat, j) {
            assert(s.subrange(j, j + pat.len())[0] == before[j]);
        }
    }
    lemma_found(s, pat, n, 0);
    assert(s.take(n) =~= before);
    assert(s.skip(n + pat.len()) =~= after);
}

/// In what comes before the program's key no `P` is followed, three places on,
/// by a `g`, and it ends in spaces.
proof fn lemma_intro()
    ensures
        PLIST_INTRO@.len() >= 4,
        forall|k: int|
            0 <= k && k + 3 < PLIST_INTRO@.len() ==> !(#[trigger] PLIST_INTRO@[k] == 'P'
                && PLIST_INTRO@[k + 3] == 'g'),
        forall|k: int|
            PLIST_INTRO@.len() - 4 <= k < PLIST_INTRO@.len() ==> #[trigger] PLIST_INTRO@[k] == ' ',
{
    reveal_strlit(
        "<?xml version=\"1.0\" encoding=\"UTF-8\"?>\n<!DOCTYPE plist PUBLIC \"-//Apple//DTD PLIST 1.0//EN\" \"http://www.apple.com/DTDs/PropertyList-1.0.dtd\">\n<plist version=\"1.0\">\n<dict>\n    <key>Label</key>\n    <string>app.rcdesk.agent</string>\n    ",
    );
}

/// The program's key does not occur in what comes before it.
proof fn lemma_cut_at_key(after: Seq<char>)
    ensures
        crate::text::split_once(PLIST_INTRO@ + PROGRAM_KEY@ + after, PROGRAM_KEY@) == Some(
            (PLIST_INTRO@, after),
        ),
{
    lemma_intro();
    reveal_strlit("<key>ProgramArguments</key>");
    let intro = PLIST_INTRO@;
    let key = PROGRAM_KEY@;
    let s = intro + key + after;
    let n = intro.len() as int;
    assert(s.subrange(n, n + key.len()) =~= key);
    assert forall|j: int| 0 <= j < n implies !crate::text::occurs_at(s, key, j) by {
        if crate::text::occurs_at(s, key, j) {
            let here = s.subrange(j, j + key.len());
            assert(here[5] == s[j + 5] && here[8] == s[j + 8]);
            if j + 5 >= n {
                assert(s[j + 5] == key[j + 5 - n]);
            } else {
                assert(s[j + 5] == intro[j + 5]);
                if j + 8 < n {
                    assert(s[j + 8] == intro[j + 8]);
                }
            }
        }
    }
    lemma_found(s, key, n, 0);
    assert(s.take(n) =~= intro);
    assert(s.skip(n + key.len()) =~= after);
}

/// What a property list launches is what it was written for, whatever
/// characters the path holds.
pub proof fn law_plist_round_trips(path: Seq<char>)
    ensures
        program_of(plist(path)) == Some(path),
{
    reveal_strlit("\n    ");
    reveal_strlit("\n        ");
    reveal_strlit("<array>");
    reveal_strlit("<string>");
    reveal_strlit("</string>");
    let s4 = PLIST_OUTRO@;
    let s3 = escaped(path) + "</string>"@ + s4;
    let s2 = "\n        "@ + "<string>"@ + s3;
    let s1 = "\n    "@ + "<array>"@ + s2;
    assert(plist(path) =~= PLIST_INTRO@ + PROGRAM_KEY@ + s1);
    lemma_cut_at_key(s1);
    lemma_cut("\n    "@, "<array>"@, s2);
    lemma_cut("\n        "@, "<string>"@, s3);
    assert forall|j: int| 0 <= j < escaped(path).len() implies escaped(path)[j] != '<' by {
        law_escaped_text_is_inert(path, j);
    }
    lemma_cut(escaped(path), "</string>"@, s4);
    law_unescape_undoes_escape(path);
}

/// A verbatim path of a share gets its two backslashes back, any other verbatim
/// path is what follows the prefix, and a path that is not verbatim stays.
pub proof fn law_verbatim_paths_become_plain(path: Seq<char>, rest: Seq<char>)
    ensures
        without_verbatim_prefix("\\\\?\\UNC\\"@ + rest) == "\\\\"@ + rest,
        !(rest.len() >= 4 && rest.take(4) == "UNC\\"@) ==> without_verbatim_prefix(
            "\\\\?\\"@ + rest,
        ) == rest,
        !(path.len() >= 4 && path.take(4) == "\\\\?\\"@) ==> without_verbatim_prefix(path) == path,
{
    reveal_strlit("\\\\?\\UNC\\");
    reveal_strlit("\\\\?\\");
    reveal_strlit("UNC\\");
    let unc = "\\\\?\\UNC\\"@;
    let local = "\\\\?\\"@;
    let share = unc + rest;
    assert(share.subrange(0, 8) =~= unc);
    assert(share.skip(8) =~= rest);
    let plain = local + rest;
    assert(plain.subrange(0, 4) =~= local);
    assert(plain.skip(4) =~= rest);
    if crate::text::occurs_at(plain, unc, 0) {
        let head = plain.subrange(0, 8);
        assert(head == unc);
        assert forall|i: int| 0 <= i < 4 implies #[trigger] rest.take(4)[i] == "UNC\\"@[i] by {
            assert(rest[i] == plain[i + 4] && plain[i + 4] == head[i + 4]);
        }
        assert(rest.take(4) =~= "UNC\\"@);
    }
    if crate::text::occurs_at(path, unc, 0) {
        let head = path.subrange(0, 8);
        assert(head == unc);
        assert forall|i: int| 0 <= i < 4 implies #[trigger] path.take(4)[i] == local[i] by {
            assert(path[i] == head[i]);
        }
        assert(path.take(4) =~= local);
    }
    if crate::text::occurs_at(path, local, 0) {
        assert(path.take(4) =~= path.subrange(0, 4));
    }
}

/// Escaping goes character by character: the five that XML gives a meaning become
/// their entities, and every other one stays.
pub proof fn law_escaping_goes_by_characters(s: Seq<char>, c: char)
    ensures
        escaped(seq![c] + s) == (if c == '<' {
            "&lt;"@
        } else if c == '>' {
            "&gt;"@
        } else if c == '"' {
            "&quot;"@
        } else if c == '\'' {
            "&apos;"@
        } else if c == '&' {
            "&amp;"@
        } else {
            seq![c]
        }) + escaped(s),
        escaped(Seq::empty()).len() == 0,
{
    assert((seq![c] + s).drop_first() =~= s);
}

/// A `Run` value is the path between two double quotes.
pub proof fn law_run_values_are_quoted(agent: Seq<char>)
    ensures
        run_value(agent) == seq!['"'] + agent + seq!['"'],
{
    reveal_strlit("\"");
    assert("\""@ =~= seq!['"']);
}

/// The agent is a program of Windows by its extension, and bears the same name
/// everywhere.
pub proof fn law_the_agent_has_one_name()
    ensures
        binary_name(true)@ == binary_name(false)@ + ".exe"@,
{
    reveal_strlit("rcdesk-agent.exe");
    reveal_strlit("rcdesk-agent");
    reveal_strlit(".exe");
    assert(binary_name(true)@ =~= binary_name(false)@ + ".exe"@);
}

} // verus!
