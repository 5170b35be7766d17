//! Binds a session description to the key of a login, against a signaling
//! server that rewrites offers and answers: without the password it never
//! learns the key that both ends derived, so it cannot tag a certificate
//! fingerprint of its own.
//!
//! The tag of a fingerprint is `HMAC-SHA256(key, "rcdesk-dtls-v1|" + role + "|"
//! + fingerprint)` in URL-safe base64 without padding, where `role` is `"offer"`
//! or `"answer"` and the fingerprint is normalized to `"<alg> <HEX>"`.

use vstd::prelude::*;

use crate::crypto::{base64url_decode, base64url_encode, hmac_sha256, hmac_sha256_matches};
use crate::text::{chars_of, concat3, string_of, trim_chars};

verus! {

/// Separates these messages from any other use of the key.
pub const AUTH_TAG_PREFIX: &'static str = "rcdesk-dtls-v1";

/// What a fingerprint line starts with.
pub const FINGERPRINT_PREFIX: &'static str = "a=fingerprint:";

/// `s` starts with `prefix`.
pub open spec fn starts_with(s: Seq<char>, prefix: Seq<char>) -> bool {
    s.len() >= prefix.len() && s.take(prefix.len() as int) == prefix
}

/// Place of the first `c` at or after `from`, the end where there is none.
pub open spec fn place_of(s: Seq<char>, c: char, from: int) -> int
    decreases s.len() - from,
{
    if from < 0 || from >= s.len() {
        s.len() as int
    } else if s[from] == c {
        from
    } else {
        place_of(s, c, from + 1)
    }
}

/// The first line of a text, without its line ending: a line feed, with the
/// carriage return before it where there is one.
pub open spec fn first_line(s: Seq<char>) -> Seq<char> {
    let end = place_of(s, '\n', 0);
    if end < s.len() && end > 0 && s[end - 1] == '\r' {
        s.take(end - 1)
    } else {
        s.take(end)
    }
}

/// The lines after the first.
pub open spec fn other_lines(s: Seq<char>) -> Seq<char> {
    let end = place_of(s, '\n', 0);
    if end < s.len() {
        s.skip(end + 1)
    } else {
        Seq::empty()
    }
}

/// The normalized fingerprint of a line: algorithm in lower case, one space,
/// value in upper case. `None` where it is no fingerprint line, or misses
/// either.
pub open spec fn fingerprint_of_line(line: Seq<char>) -> Option<Seq<char>> {
    let t = crate::text::trim(line);
    let prefix = FINGERPRINT_PREFIX@;
    if !starts_with(t, prefix) {
        None
    } else {
        let rest = t.skip(prefix.len() as int);
        let k = place_of(rest, ' ', 0);
        if k == rest.len() {
            None
        } else {
            let alg = crate::text::trim(rest.take(k));
            let hex = crate::text::trim(rest.skip(k + 1));
            if alg.len() == 0 || hex.len() == 0 {
                None
            } else {
                Some(crate::text::lowercase(alg) + " "@ + crate::text::uppercase(hex))
            }
        }
    }
}

/// The fingerprint of the first line that has one.
pub open spec fn fingerprint_in(sdp: Seq<char>) -> Option<Seq<char>>
    decreases sdp.len(),
{
    if sdp.len() == 0 {
        None
    } else {
        match fingerprint_of_line(first_line(sdp)) {
            Some(f) => Some(f),
            None => if other_lines(sdp).len() < sdp.len() {
                fingerprint_in(other_lines(sdp))
            } else {
                None
            },
        }
    }
}

proof fn lemma_place_of(s: Seq<char>, c: char, from: int)
    requires
        0 <= from <= s.len(),
    ensures
        from <= place_of(s, c, from) <= s.len(),
        forall|i: int| from <= i < place_of(s, c, from) ==> s[i] != c,
        place_of(s, c, from) < s.len() ==> s[place_of(s, c, from)] == c,
    decreases s.len() - from,
{
    if from < s.len() && s[from] != c {
        lemma_place_of(s, c, from + 1);
    }
}

fn find_char(s: &[char], c: char) -> (r: usize)
    ensures
        r == place_of(s@, c, 0),
        r <= s@.len(),
{
    let mut i: usize = 0;
    while i < s.len()
        invariant
            i <= s@.len(),
            place_of(s@, c, 0) == place_of(s@, c, i as int),
        decreases s@.len() - i,
    {
        if s[i] == c {
            return i;
        }
        i = i + 1;
    }
    i
}

fn has_prefix(s: &[char], prefix: &[char]) -> (r: bool)
    ensures
        r == starts_with(s@, prefix@),
{
    if s.len() < prefix.len() {
        return false;
    }
    let mut i: usize = 0;
    while i < prefix.len()
        invariant
            i <= prefix@.len() <= s@.len(),
            forall|j: int| 0 <= j < i ==> s@[j] == prefix@[j],
        decreases prefix@.len() - i,
    {
        if s[i] != prefix[i] {
            assert(s@.take(prefix@.len() as int)[i as int] != prefix@[i as int]);
            return false;
        }
        i = i + 1;
    }
    assert(s@.take(prefix@.len() as int) =~= prefix@);
    true
}

fn read_line(line: &[char]) -> (r: Option<String>)
    ensures
        crate::text::chars_if_any(r) == fingerprint_of_line(line@),
{
    let t: &[char] = trim_chars(line);
    let prefix: Vec<char> = chars_of(FINGERPRINT_PREFIX);
    if !has_prefix(t, prefix.as_slice()) {
        return None;
    }
    let rest: &[char] = vstd::slice::slice_subrange(t, prefix.len(), t.len());
    assert(rest@ =~= t@.skip(prefix@.len() as int));
    let k: usize = find_char(rest, ' ');
    if k == rest.len() {
        return None;
    }
    let before: &[char] = vstd::slice::slice_subrange(rest, 0, k);
    let after: &[char] = vstd::slice::slice_subrange(rest, k + 1, rest.len());
    assert(before@ =~= rest@.take(k as int));
    assert(after@ =~= rest@.skip(k + 1));
    let alg: &[char] = trim_chars(before);
    let hex: &[char] = trim_chars(after);
    if alg.len() == 0 || hex.len() == 0 {
        return None;
    }
    let alg: String = string_of(alg).as_str().to_lowercase();
    let hex: String = string_of(hex).as_str().to_uppercase();
    Some(concat3(alg.as_str(), " ", hex.as_str()))
}

/// The normalized fingerprint of the first `a=fingerprint:<alg> <hex>` line that
/// has both parts, at session level or in a media section.
pub fn fingerprint_from_sdp(sdp: &str) -> (r: Option<String>)
    ensures
        crate::text::chars_if_any(r) == fingerprint_in(sdp@),
{
    let chars: Vec<char> = chars_of(sdp);
    let mut from: usize = 0;
    assert(chars@.skip(0) =~= chars@);
    while from < chars.len()
        invariant
            chars@ == sdp@,
            from <= chars@.len(),
            fingerprint_in(sdp@) == fingerprint_in(sdp@.skip(from as int)),
        decreases chars@.len() - from,
    {
        let rest: &[char] = vstd::slice::slice_subrange(chars.as_slice(), from, chars.len());
        assert(rest@ =~= sdp@.skip(from as int));
        let end: usize = find_char(rest, '\n');
        proof {
            lemma_place_of(rest@, '\n', 0);
        }
        let stop: usize = if end < rest.len() && end > 0 && rest[end - 1] == '\r' {
            end - 1
        } else {
            end
        };
        let line: &[char] = vstd::slice::slice_subrange(rest, 0, stop);
        assert(line@ =~= first_line(rest@));
        let found: Option<String> = read_line(line);
        if found.is_some() {
            return found;
        }
        if end == rest.len() {
            assert(fingerprint_in(Seq::empty()) is None);
            return None;
        }
        assert(other_lines(rest@) =~= sdp@.skip(from + end + 1));
        from = from + end + 1;
    }
    None
}

/// The message that is tagged.
pub open spec fn auth_message(role: Seq<char>, fingerprint: Seq<char>) -> Seq<u8> {
    vstd::utf8::encode_utf8(AUTH_TAG_PREFIX@) + seq![124u8] + vstd::utf8::encode_utf8(role)
        + seq![124u8] + vstd::utf8::encode_utf8(fingerprint)
}

/// The tag of a fingerprint in a role, under a key.
pub open spec fn tag_of(key: Seq<u8>, role: Seq<char>, fingerprint: Seq<char>) -> Seq<char> {
    crate::crypto::base64url_of(
        crate::crypto::hmac_sha256_of(key, auth_message(role, fingerprint)),
    )
}

/// `tag` stands for the very bytes of the fingerprint's HMAC.
pub open spec fn tag_is_valid(
    key: Seq<u8>,
    role: Seq<char>,
    fingerprint: Seq<char>,
    tag: Seq<char>,
) -> bool {
    crate::crypto::base64url_bytes(tag) == Some(
        crate::crypto::hmac_sha256_of(key, auth_message(role, fingerprint)),
    )
}

fn build_message(role: &str, fingerprint: &str) -> (r: Vec<u8>)
    ensures
        r@ == auth_message(role@, fingerprint@),
{
    let mut out: Vec<u8> = Vec::new();
    out.extend_from_slice(AUTH_TAG_PREFIX.as_bytes());
    out.push(124);
    out.extend_from_slice(role.as_bytes());
    out.push(124);
    out.extend_from_slice(fingerprint.as_bytes());
    assert(out@ =~= auth_message(role@, fingerprint@));
    out
}

/// Tags a fingerprint. `key` is the key of a login, of any length. The tag is one
/// that [`verify_auth_tag`] accepts.
pub fn auth_tag(key: &[u8], role: &str, fingerprint: &str) -> (r: String)
    ensures
        r@ == tag_of(key@, role@, fingerprint@),
        tag_is_valid(key@, role@, fingerprint@, r@),
{
    let message: Vec<u8> = build_message(role, fingerprint);
    let mac: Vec<u8> = hmac_sha256(key, message.as_slice());
    base64url_encode(mac.as_slice())
}

/// Whether `tag` is the tag of a fingerprint, compared in constant time. A tag
/// that is no base64, or has the wrong length, is just not it.
pub fn verify_auth_tag(key: &[u8], role: &str, fingerprint: &str, tag: &str) -> (r: bool)
    ensures
        r == tag_is_valid(key@, role@, fingerprint@, tag@),
        r ==> tag@ == tag_of(key@, role@, fingerprint@),
{
    let bytes: Vec<u8> = match base64url_decode(tag) {
        Some(bytes) => bytes,
        None => return false,
    };
    let message: Vec<u8> = build_message(role, fingerprint);
    hmac_sha256_matches(key, message.as_slice(), bytes.as_slice())
}

/// An offer and an answer never share a message, whatever the fingerprints: the
/// tag of one is not made for the other.
pub proof fn law_roles_are_separate(a: Seq<char>, b: Seq<char>)
    ensures
        auth_message("offer"@, a) != auth_message("answer"@, b),
{
    reveal_strlit("rcdesk-dtls-v1");
    reveal_strlit("offer");
    reveal_strlit("answer");
    let n = vstd::utf8::encode_utf8(AUTH_TAG_PREFIX@).len() as int;
    vstd::utf8::is_ascii_chars_encode_utf8("offer"@);
    vstd::utf8::is_ascii_chars_encode_utf8("answer"@);
    assert(auth_message("offer"@, a)[n + 1] == 111u8);
    assert(auth_message("answer"@, b)[n + 1] == 97u8);
}

/// In one role, different fingerprints make different messages.
pub proof fn law_fingerprints_are_separate(role: Seq<char>, a: Seq<char>, b: Seq<char>)
    requires
        auth_message(role, a) == auth_message(role, b),
    ensures
        a == b,
{
    let head = vstd::utf8::encode_utf8(AUTH_TAG_PREFIX@) + seq![124u8] + vstd::utf8::encode_utf8(
        role,
    ) + seq![124u8];
    let x = vstd::utf8::encode_utf8(a);
    let y = vstd::utf8::encode_utf8(b);
    assert(auth_message(role, a) =~= head + x);
    assert(auth_message(role, b) =~= head + y);
    assert((head + x).skip(head.len() as int) =~= x);
    assert((head + y).skip(head.len() as int) =~= y);
    vstd::utf8::encode_utf8_decode_utf8(a);
    vstd::utf8::encode_utf8_decode_utf8(b);
}

/// A text without white space anywhere.
pub open spec fn solid(s: Seq<char>) -> bool {
    forall|i: int| 0 <= i < s.len() ==> !crate::text::white_space(#[trigger] s[i])
}

proof fn lemma_trim_bounded(s: Seq<char>)
    requires
        s.len() > 0,
        !crate::text::white_space(s[0]),
        !crate::text::white_space(s.last()),
    ensures
        crate::text::trim(s) == s,
{
}

/// A line that holds an algorithm and a value, neither with white space in it,
/// gives just these two, the one in lower and the other in upper case.
pub proof fn law_a_fingerprint_line_is_read(alg: Seq<char>, hex: Seq<char>)
    requires
        alg.len() > 0,
        hex.len() > 0,
        solid(FINGERPRINT_PREFIX@ + alg),
        solid(hex),
        !alg.contains(' '),
    ensures
        fingerprint_of_line(FINGERPRINT_PREFIX@ + alg + " "@ + hex) == Some(
            crate::text::lowercase(alg) + " "@ + crate::text::uppercase(hex),
        ),
{
    reveal_strlit("a=fingerprint:");
    reveal_strlit(" ");
    let prefix = FINGERPRINT_PREFIX@;
    let line = prefix + alg + " "@ + hex;
    let head = prefix + alg;
    assert(head[0] == line[0]);
    assert(line.last() == hex.last());
    assert forall|i: int| 0 <= i < alg.len() implies !crate::text::white_space(
        #[trigger] alg[i],
    ) by {
        assert(head[prefix.len() + i] == alg[i]);
    }
    lemma_trim_bounded(line);
    assert(line.take(prefix.len() as int) =~= prefix);
    let rest = line.skip(prefix.len() as int);
    assert(rest =~= alg + " "@ + hex);
    let k = alg.len() as int;
    assert forall|i: int| 0 <= i < k implies rest[i] != ' ' by {
        assert(rest[i] == alg[i]);
        assert(alg.contains(alg[i]));
    }
    lemma_first_place(rest, ' ', k, 0);
    assert(rest.take(k) =~= alg);
    assert(rest.skip(k + 1) =~= hex);
    lemma_trim_bounded(alg);
    lemma_trim_bounded(hex);
}

proof fn lemma_first_place(s: Seq<char>, c: char, k: int, from: int)
    requires
        0 <= from <= k < s.len(),
        s[k] == c,
        forall|i: int| from <= i < k ==> s[i] != c,
    ensures
        place_of(s, c, from) == k,
    decreases k - from,
{
    if from < k {
        lemma_first_place(s, c, k, from + 1);
    }
}

/// A description is read line by line: a first line that holds a fingerprint gives
/// it, whatever follows, and one that holds none is passed over. A carriage return
/// before the line feed belongs to neither.
pub proof fn law_lines_are_read_in_turn(line: Seq<char>, rest: Seq<char>)
    requires
        !line.contains('\n'),
        line.len() > 0 ==> line.last() != '\r',
    ensures
        fingerprint_in(line + seq!['\n'] + rest) == match fingerprint_of_line(line) {
            Some(f) => Some(f),
            None => fingerprint_in(rest),
        },
        fingerprint_in(line + seq!['\r', '\n'] + rest) == match fingerprint_of_line(line) {
            Some(f) => Some(f),
            None => fingerprint_in(rest),
        },
{
    let k = line.len() as int;
    let plain = line + seq!['\n'] + rest;
    assert forall|i: int| 0 <= i < k implies line[i] != '\n' by {
        assert(line.contains(line[i]));
    }
    lemma_first_place(plain, '\n', k, 0);
    assert(k > 0 ==> plain[k - 1] == line.last());
    assert(plain.take(k) =~= line);
    assert(plain.skip(k + 1) =~= rest);
    let dos = line + seq!['\r', '\n'] + rest;
    assert(dos[k] == '\r' && dos[k + 1] == '\n');
    lemma_first_place(dos, '\n', k + 1, 0);
    assert(dos.take(k) =~= line);
    assert(dos.skip(k + 2) =~= rest);
}

/// A line that does not start with the attribute's name gives no fingerprint, nor
/// does one without a space behind the algorithm.
pub proof fn law_other_lines_give_nothing(line: Seq<char>)
    requires
        crate::text::trim(line) == line,
        line.len() < 14 || line.take(14) != "a=fingerprint:"@ || !line.skip(14).contains(' '),
    ensures
        fingerprint_of_line(line) is None,
{
    reveal_strlit("a=fingerprint:");
    if starts_with(line, "a=fingerprint:"@) {
        let rest = line.skip(14);
        lemma_place_of(rest, ' ', 0);
        let k = place_of(rest, ' ', 0);
        if k < rest.len() {
            assert(rest.contains(rest[k]));
        }
    }
}

/// Only the tag made for the same key, role and fingerprint passes: a tag that is
/// valid is the very text that tagging gives.
pub proof fn law_a_valid_tag_carries_the_mac(
    key: Seq<u8>,
    role: Seq<char>,
    fingerprint: Seq<char>,
    tag: Seq<char>,
)
    requires
        tag_is_valid(key, role, fingerprint, tag),
    ensures
        crate::crypto::base64url_bytes(tag) == Some(
            crate::crypto::hmac_sha256_of(
                key,
                vstd::utf8::encode_utf8("rcdesk-dtls-v1"@) + seq![124u8]
                    + vstd::utf8::encode_utf8(role) + seq![124u8] + vstd::utf8::encode_utf8(
                    fingerprint,
                ),
            ),
        ),
{
}

/// A text starts with another where that and something more, or nothing, make it
/// up.
pub proof fn law_texts_start_with_their_beginning(prefix: Seq<char>, rest: Seq<char>, s: Seq<char>)
    ensures
        starts_with(prefix + rest, prefix),
        starts_with(s, prefix) ==> s == prefix + s.skip(prefix.len() as int),
{
    assert((prefix + rest).take(prefix.len() as int) =~= prefix);
    if starts_with(s, prefix) {
        assert(s =~= s.take(prefix.len() as int) + s.skip(prefix.len() as int));
    }
}

} // verus!
