//! Character-level text helpers.

use vstd::prelude::*;

verus! {

/// `String::push` of std: appends one character.
pub assume_specification[ String::push ](s: &mut String, c: char)
    ensures
        final(s)@ == old(s)@.push(c),
;

/// The characters of a string that may be absent.
pub open spec fn chars_if_any(s: Option<String>) -> Option<Seq<char>> {
    match s {
        Some(text) => Some(text@),
        None => None,
    }
}

/// Whether two strings hold the same characters.
pub fn str_eq(a: &str, b: &str) -> (r: bool)
    ensures
        r == (a@ == b@),
{
    let x: &[u8] = a.as_bytes();
    let y: &[u8] = b.as_bytes();
    if x.len() != y.len() {
        return false;
    }
    let mut i: usize = 0;
    while i < x.len()
        invariant
            x@ == vstd::utf8::encode_utf8(a@),
            y@ == vstd::utf8::encode_utf8(b@),
            x@.len() == y@.len(),
            i <= x@.len(),
            forall|j: int| 0 <= j < i ==> x@[j] == y@[j],
        decreases x@.len() - i,
    {
        if x[i] != y[i] {
            return false;
        }
        i = i + 1;
    }
    proof {
        assert(x@ =~= y@);
        vstd::utf8::encode_utf8_decode_utf8(a@);
        vstd::utf8::encode_utf8_decode_utf8(b@);
    }
    true
}

/// The characters of a string.
pub fn chars_of(s: &str) -> (r: Vec<char>)
    ensures
        r@ == s@,
{
    let mut out: Vec<char> = Vec::new();
    for c in it: s.chars()
        invariant
            out@ == s@.take(it.index()),
            it.seq() == s@,
    {
        out.push(c);
    }
    proof {
        assert(s@.take(s@.len() as int) =~= s@);
    }
    out
}

/// The string made of the given characters.
pub fn string_of(chars: &[char]) -> (r: String)
    ensures
        r@ == chars@,
{
    let mut out: String = String::new();
    let mut i: usize = 0;
    while i < chars.len()
        invariant
            i <= chars.len(),
            out@ == chars@.take(i as int),
        decreases chars.len() - i,
    {
        out.push(chars[i]);
        proof {
            assert(chars@.take(i + 1) =~= chars@.take(i as int).push(chars@[i as int]));
        }
        i = i + 1;
    }
    proof {
        assert(chars@.take(chars@.len() as int) =~= chars@);
    }
    out
}

/// Whether Unicode calls a character white space.
pub open spec fn white_space(c: char) -> bool {
    let v = c as int;
    ||| 0x9 <= v <= 0xd
    ||| v == 0x20
    ||| v == 0x85
    ||| v == 0xa0
    ||| v == 0x1680
    ||| 0x2000 <= v <= 0x200a
    ||| v == 0x2028
    ||| v == 0x2029
    ||| v == 0x202f
    ||| v == 0x205f
    ||| v == 0x3000
}

/// `char::is_whitespace` of std: whether a character has the Unicode property
/// `White_Space`, which is that of the 25 code points listed there.
pub assume_specification[ char::is_whitespace ](c: char) -> (r: bool)
    ensures
        r == white_space(c),
;

/// The lowercase form of a text.
pub uninterp spec fn lowercase(s: Seq<char>) -> Seq<char>;

/// The uppercase form of a text.
pub uninterp spec fn uppercase(s: Seq<char>) -> Seq<char>;

/// An ASCII letter in lower case; any other character as it is.
pub open spec fn ascii_lower(c: char) -> char {
    if 'A' <= c && c <= 'Z' {
        (c as int + 32) as char
    } else {
        c
    }
}

/// An ASCII letter in upper case; any other character as it is.
pub open spec fn ascii_upper(c: char) -> char {
    if 'a' <= c && c <= 'z' {
        (c as int - 32) as char
    } else {
        c
    }
}

/// `str::to_lowercase` of std: the lowercase form by the Unicode mappings. Of
/// those only the one for ASCII text is stated.
pub assume_specification[ str::to_lowercase ](s: &str) -> (r: String)
    ensures
        r@ == lowercase(s@),
        vstd::utf8::is_ascii_chars(s@) ==> r@ == s@.map_values(|c: char| ascii_lower(c)),
;

/// `str::to_uppercase` of std: the uppercase form by the Unicode mappings. Of
/// those only the one for ASCII text is stated.
pub assume_specification[ str::to_uppercase ](s: &str) -> (r: String)
    ensures
        r@ == uppercase(s@),
        vstd::utf8::is_ascii_chars(s@) ==> r@ == s@.map_values(|c: char| ascii_upper(c)),
;

/// A text without its leading white space.
pub open spec fn trim_start(s: Seq<char>) -> Seq<char>
    decreases s.len(),
{
    if s.len() > 0 && white_space(s[0]) {
        trim_start(s.drop_first())
    } else {
        s
    }
}

/// A text without its trailing white space.
pub open spec fn trim_end(s: Seq<char>) -> Seq<char>
    decreases s.len(),
{
    if s.len() > 0 && white_space(s.last()) {
        trim_end(s.drop_last())
    } else {
        s
    }
}

/// A text without the white space around it.
pub open spec fn trim(s: Seq<char>) -> Seq<char> {
    trim_end(trim_start(s))
}

/// Drops the white space around a text.
pub fn trim_chars(s: &[char]) -> (r: &[char])
    ensures
        r@ == trim(s@),
{
    let mut lo: usize = 0;
    assert(s@.skip(0) =~= s@);
    while lo < s.len() && s[lo].is_whitespace()
        invariant
            lo <= s@.len(),
            trim_start(s@) == trim_start(s@.skip(lo as int)),
        ensures
            lo <= s@.len(),
            trim_start(s@) == s@.skip(lo as int),
        decreases s@.len() - lo,
    {
        assert(s@.skip(lo as int).drop_first() =~= s@.skip(lo + 1));
        lo = lo + 1;
    }
    let mut hi: usize = s.len();
    assert(s@.subrange(lo as int, hi as int) =~= s@.skip(lo as int));
    while hi > lo && s[hi - 1].is_whitespace()
        invariant
            lo <= hi <= s@.len(),
            trim(s@) == trim_end(s@.subrange(lo as int, hi as int)),
        ensures
            lo <= hi <= s@.len(),
            trim(s@) == s@.subrange(lo as int, hi as int),
        decreases hi,
    {
        assert(s@.subrange(lo as int, hi as int).drop_last() =~= s@.subrange(
            lo as int,
            hi - 1,
        ));
        hi = hi - 1;
    }
    vstd::slice::slice_subrange(s, lo, hi)
}

/// The two strings one after the other.
pub fn concat(a: &str, b: &str) -> (r: String)
    ensures
        r@ == a@ + b@,
{
    let mut out: String = String::from_str(a);
    out.append(b);
    out
}

/// The three strings one after the other.
pub fn concat3(a: &str, b: &str, c: &str) -> (r: String)
    ensures
        r@ == a@ + b@ + c@,
{
    let mut out: String = concat(a, b);
    out.append(c);
    out
}

/// `s` holds `pat` at place `i`.
pub open spec fn occurs_at(s: Seq<char>, pat: Seq<char>, i: int) -> bool {
    0 <= i && i + pat.len() <= s.len() && s.subrange(i, i + pat.len()) == pat
}

/// The place of the first `pat` at or after `from`.
pub open spec fn find_from(s: Seq<char>, pat: Seq<char>, from: int) -> Option<int>
    decreases s.len() + 1 - from,
{
    if from < 0 || from > s.len() {
        None
    } else if occurs_at(s, pat, from) {
        Some(from)
    } else {
        find_from(s, pat, from + 1)
    }
}

/// What comes before and after the first `pat`.
pub open spec fn split_once(s: Seq<char>, pat: Seq<char>) -> Option<(Seq<char>, Seq<char>)> {
    match find_from(s, pat, 0) {
        Some(i) => Some((s.take(i), s.skip(i + pat.len()))),
        None => None,
    }
}

/// A text cut in two around its first `pat`.
pub fn cut_once<'a>(s: &'a [char], pat: &[char]) -> (r: Option<(&'a [char], &'a [char])>)
    ensures
        match r {
            Some((before, after)) => split_once(s@, pat@) == Some((before@, after@)),
            None => split_once(s@, pat@) is None,
        },
{
    let mut i: usize = 0;
    while i < s.len() && !holds_at(s, pat, i)
        invariant
            i <= s@.len(),
            find_from(s@, pat@, 0) == find_from(s@, pat@, i as int),
        decreases s@.len() - i,
    {
        i = i + 1;
    }
    if !holds_at(s, pat, i) {
        assert(find_from(s@, pat@, s@.len() as int + 1) is None);
        return None;
    }
    let before: &[char] = vstd::slice::slice_subrange(s, 0, i);
    let after: &[char] = vstd::slice::slice_subrange(s, i + pat.len(), s.len());
    assert(before@ =~= s@.take(i as int));
    assert(after@ =~= s@.skip(i + pat@.len()));
    Some((before, after))
}

/// Whether `s` holds `pat` at place `i`.
pub fn holds_at(s: &[char], pat: &[char], i: usize) -> (r: bool)
    requires
        i <= s@.len(),
    ensures
        r == occurs_at(s@, pat@, i as int),
{
    if s.len() - i < pat.len() {
        return false;
    }
    let mut k: usize = 0;
    while k < pat.len()
        invariant
            i + pat@.len() <= s@.len(),
            s@.len() <= usize::MAX,
            k <= pat@.len(),
            forall|j: int| 0 <= j < k ==> s@[i + j] == pat@[j],
        decreases pat@.len() - k,
    {
        if s[i + k] != pat[k] {
            assert(s@.subrange(i as int, i + pat@.len())[k as int] != pat@[k as int]);
            return false;
        }
        k = k + 1;
    }
    assert(s@.subrange(i as int, i + pat@.len()) =~= pat@);
    true
}

/// Every `pat` in `s`, from the left and without overlaps, replaced by `to`.
pub open spec fn replaced(s: Seq<char>, pat: Seq<char>, to: Seq<char>) -> Seq<char>
    decreases s.len(),
{
    if s.len() == 0 || pat.len() == 0 {
        s
    } else if occurs_at(s, pat, 0) {
        to + replaced(s.skip(pat.len() as int), pat, to)
    } else {
        seq![s[0]] + replaced(s.drop_first(), pat, to)
    }
}

/// Replaces every `pat` in a text.
pub fn replace_all(s: &[char], pat: &[char], to: &[char]) -> (r: Vec<char>)
    requires
        pat@.len() > 0,
    ensures
        r@ == replaced(s@, pat@, to@),
{
    let mut out: Vec<char> = Vec::new();
    let mut i: usize = 0;
    assert(s@.skip(0) =~= s@);
    assert(out@ + replaced(s@, pat@, to@) =~= replaced(s@, pat@, to@));
    while i < s.len()
        invariant
            pat@.len() > 0,
            i <= s@.len(),
            out@ + replaced(s@.skip(i as int), pat@, to@) == replaced(s@, pat@, to@),
        decreases s@.len() - i,
    {
        let ghost rest = s@.skip(i as int);
        let ghost before = out@;
        if holds_at(s, pat, i) {
            assert(rest.subrange(0, pat@.len() as int) =~= s@.subrange(i as int, i + pat@.len()));
            assert(occurs_at(rest, pat@, 0));
            assert(rest.skip(pat@.len() as int) =~= s@.skip(i + pat@.len()));
            out.extend_from_slice(to);
            assert(out@ =~= before + to@);
            i = i + pat.len();
        } else {
            assert(!occurs_at(rest, pat@, 0)) by {
                if occurs_at(rest, pat@, 0) {
                    assert(rest.subrange(0, pat@.len() as int) =~= s@.subrange(
                        i as int,
                        i + pat@.len(),
                    ));
                }
            }
            assert(rest.drop_first() =~= s@.skip(i + 1));
            out.push(s[i]);
            assert(out@ =~= before + seq![rest[0]]);
            i = i + 1;
        }
        assert(out@ + replaced(s@.skip(i as int), pat@, to@) =~= before + replaced(
            rest,
            pat@,
            to@,
        ));
    }
    assert(out@ + replaced(s@.skip(i as int), pat@, to@) =~= out@);
    out
}

/// Whether there is nothing in a text.
pub fn is_empty(s: &str) -> (r: bool)
    ensures
        r == (s@.len() == 0),
{
    chars_of(s).len() == 0
}

/// What a platform takes for the end of a path's component.
pub open spec fn is_separator(windows: bool, c: char) -> bool {
    c == '/' || (windows && c == '\\')
}

/// A drive of Windows by itself, as `C:`. It stands for the drive's current
/// directory.
pub open spec fn is_drive(path: Seq<char>) -> bool {
    &&& path.len() == 2
    &&& 'A' <= ascii_upper(path[0]) && ascii_upper(path[0]) <= 'Z'
    &&& path[1] == ':'
}

/// A name within a directory, behind the platform's separator: a backslash on
/// Windows, a slash elsewhere. Nothing comes between them where the directory is
/// empty, ends in a separator or is a drive of Windows by itself.
pub open spec fn joined(windows: bool, dir: Seq<char>, name: Seq<char>) -> Seq<char> {
    if dir.len() == 0 || is_separator(windows, dir.last()) || (windows && is_drive(dir)) {
        dir + name
    } else if windows {
        dir + "\\"@ + name
    } else {
        dir + "/"@ + name
    }
}

/// Joins a directory and a name.
pub fn join_path(windows: bool, dir: &str, name: &str) -> (r: String)
    ensures
        r@ == joined(windows, dir@, name@),
{
    let chars: Vec<char> = chars_of(dir);
    let len: usize = chars.len();
    if len == 0 {
        return concat(dir, name);
    }
    let last: char = chars[len - 1];
    if last == '/' || (windows && last == '\\') {
        return concat(dir, name);
    }
    if !windows {
        return concat3(dir, "/", name);
    }
    let letter: char = chars[0];
    let drive: bool = len == 2 && last == ':' && (('a' <= letter && letter <= 'z') || ('A'
        <= letter && letter <= 'Z'));
    if drive {
        concat(dir, name)
    } else {
        concat3(dir, "\\", name)
    }
}

/// The decimal digit of value `d`.
pub open spec fn digit(d: int) -> char {
    (48 + d) as char
}

/// `n` written in decimal, without leading zeros.
pub open spec fn decimal(n: nat) -> Seq<char>
    decreases n,
{
    if n < 10 {
        seq![digit(n as int)]
    } else {
        decimal(n / 10).push(digit((n % 10) as int))
    }
}

/// Writes `n` in decimal.
pub fn decimal_of(n: u64) -> (r: String)
    ensures
        r@ == decimal(n as nat),
    decreases n,
{
    let mut out: String = if n < 10 {
        String::new()
    } else {
        decimal_of(n / 10)
    };
    out.push((48 + (n % 10) as u8) as char);
    proof {
        if n < 10 {
            assert(out@ =~= decimal(n as nat));
        }
    }
    out
}

/// A number in decimal, with a minus sign in front where it is negative.
pub open spec fn signed_decimal(n: int) -> Seq<char> {
    if n < 0 {
        "-"@ + decimal((-n) as nat)
    } else {
        decimal(n as nat)
    }
}

/// Writes a number in decimal.
pub fn signed_decimal_of(n: i32) -> (r: String)
    ensures
        r@ == signed_decimal(n as int),
{
    let wide: i64 = n as i64;
    if wide < 0 {
        let digits: String = decimal_of((-wide) as u64);
        concat("-", digits.as_str())
    } else {
        decimal_of(wide as u64)
    }
}

/// The hexadecimal digit of value `d`.
pub open spec fn hex_digit(d: int) -> char {
    if d < 10 {
        (48 + d) as char
    } else {
        (87 + d) as char
    }
}

/// `n` in lower-case hexadecimal, without leading zeros.
pub open spec fn hexadecimal(n: nat) -> Seq<char>
    decreases n,
{
    if n < 16 {
        seq![hex_digit(n as int)]
    } else {
        hexadecimal(n / 16).push(hex_digit((n % 16) as int))
    }
}

/// Writes `n` in hexadecimal.
pub fn hexadecimal_of(n: u32) -> (r: String)
    ensures
        r@ == hexadecimal(n as nat),
    decreases n,
{
    let mut out: String = if n < 16 {
        String::new()
    } else {
        hexadecimal_of(n / 16)
    };
    let d: u8 = (n % 16) as u8;
    if d < 10 {
        out.push((48 + d) as char);
    } else {
        out.push((87 + d) as char);
    }
    proof {
        if n < 16 {
            assert(out@ =~= hexadecimal(n as nat));
        }
    }
    out
}

proof fn lemma_trimmed_start(s: Seq<char>) -> (lo: int)
    ensures
        0 <= lo <= s.len(),
        trim_start(s) == s.skip(lo),
        forall|k: int| 0 <= k < lo ==> white_space(#[trigger] s[k]),
        lo < s.len() ==> !white_space(s[lo]),
    decreases s.len(),
{
    if s.len() > 0 && white_space(s[0]) {
        let rest = s.drop_first();
        let lo = lemma_trimmed_start(rest);
        assert(rest.skip(lo) =~= s.skip(lo + 1));
        assert forall|k: int| 0 <= k < lo + 1 implies white_space(#[trigger] s[k]) by {
            if k > 0 {
                assert(rest[k - 1] == s[k]);
            }
        }
        assert(lo < rest.len() ==> rest[lo] == s[lo + 1]);
        lo + 1
    } else {
        assert(s.skip(0) =~= s);
        0
    }
}

proof fn lemma_trimmed_end(s: Seq<char>) -> (hi: int)
    ensures
        0 <= hi <= s.len(),
        trim_end(s) == s.take(hi),
        forall|k: int| hi <= k < s.len() ==> white_space(#[trigger] s[k]),
        hi > 0 ==> !white_space(s[hi - 1]),
    decreases s.len(),
{
    if s.len() > 0 && white_space(s.last()) {
        let rest = s.drop_last();
        let hi = lemma_trimmed_end(rest);
        assert(rest.take(hi) =~= s.take(hi));
        assert forall|k: int| hi <= k < s.len() implies white_space(#[trigger] s[k]) by {
            if k < rest.len() {
                assert(rest[k] == s[k]);
            }
        }
        assert(hi > 0 ==> rest[hi - 1] == s[hi - 1]);
        hi
    } else {
        assert(s.take(s.len() as int) =~= s);
        s.len() as int
    }
}

/// Trimming takes white space off both ends, all of it there and nothing else.
pub proof fn law_trimming_takes_only_white_space(s: Seq<char>)
    ensures
        ({
            let t = trim(s);
            &&& t.len() > 0 ==> !white_space(t[0]) && !white_space(t[t.len() - 1])
            &&& exists|lo: int, hi: int|
                {
                    &&& 0 <= lo <= hi <= s.len()
                    &&& t == #[trigger] s.subrange(lo, hi)
                    &&& forall|k: int|
                        0 <= k < lo || hi <= k < s.len() ==> white_space(#[trigger] s[k])
                }
        }),
{
    let lo = lemma_trimmed_start(s);
    let rest = s.skip(lo);
    let n = lemma_trimmed_end(rest);
    let hi = lo + n;
    assert(rest.take(n) =~= s.subrange(lo, hi));
    assert forall|k: int| 0 <= k < lo || hi <= k < s.len() implies white_space(#[trigger] s[k]) by {
        if k >= hi {
            assert(rest[k - lo] == s[k]);
        }
    }
    if n > 0 {
        assert(trim(s)[0] == s[lo] && trim(s)[n - 1] == rest[n - 1]);
    }
}

proof fn lemma_first_place(s: Seq<char>, pat: Seq<char>, from: int)
    requires
        0 <= from <= s.len() + 1,
    ensures
        find_from(s, pat, from) matches Some(i) ==> {
            &&& from <= i && i + pat.len() <= s.len()
            &&& s.subrange(i, i + pat.len()) == pat
            &&& forall|j: int| from <= j < i ==> !#[trigger] occurs_at(s, pat, j)
        },
        find_from(s, pat, from) is None ==> forall|j: int|
            from <= j ==> !#[trigger] occurs_at(s, pat, j),
    decreases s.len() + 1 - from,
{
    if from <= s.len() && !occurs_at(s, pat, from) {
        lemma_first_place(s, pat, from + 1);
    }
}

/// A text that is cut around a pattern is what came before, the pattern and what
/// came after; the pattern does not begin any earlier in it. A text that is not cut
/// does not hold the pattern at all.
pub proof fn law_texts_are_cut_at_the_first(s: Seq<char>, pat: Seq<char>, a: Seq<char>, b: Seq<char>)
    requires
        pat.len() > 0,
    ensures
        split_once(s, pat) matches Some((before, after)) ==> {
            &&& s == before + pat + after
            &&& forall|j: int|
                0 <= j < before.len() ==> #[trigger] s.subrange(j, j + pat.len()) != pat || j
                    + pat.len() > s.len()
        },
        split_once(s, pat) is None ==> s != a + pat + b,
{
    lemma_first_place(s, pat, 0);
    match find_from(s, pat, 0) {
        Some(i) => {
            assert(s =~= s.take(i) + s.subrange(i, i + pat.len()) + s.skip(i + pat.len()));
            assert forall|j: int| 0 <= j < i implies #[trigger] s.subrange(j, j + pat.len()) != pat
                || j + pat.len() > s.len() by {
                assert(!occurs_at(s, pat, j));
            }
        },
        None => {
            if s == a + pat + b {
                assert(s.subrange(a.len() as int, (a.len() + pat.len()) as int) =~= pat);
                assert(occurs_at(s, pat, a.len() as int));
            }
        },
    }
}

proof fn lemma_places_behind_the_first(s: Seq<char>, pat: Seq<char>, from: int)
    requires
        s.len() > 0,
        1 <= from <= s.len() + 1,
    ensures
        match find_from(s, pat, from) {
            Some(i) => find_from(s.drop_first(), pat, from - 1) == Some(i - 1),
            None => find_from(s.drop_first(), pat, from - 1) is None,
        },
    decreases s.len() + 1 - from,
{
    let rest = s.drop_first();
    if from <= s.len() && s.len() > 0 {
        if from + pat.len() <= s.len() {
            assert(rest.subrange(from - 1, from - 1 + pat.len()) =~= s.subrange(
                from,
                from + pat.len(),
            ));
        }
        assert(occurs_at(s, pat, from) == occurs_at(rest, pat, from - 1));
        if !occurs_at(s, pat, from) {
            lemma_places_behind_the_first(s, pat, from + 1);
        }
    }
}

/// Replacing leaves a text without the pattern alone; otherwise what comes before
/// the first pattern stays, the replacement follows, and the rest is replaced in
/// the same way.
pub proof fn law_replacing_goes_on_behind_the_first(s: Seq<char>, pat: Seq<char>, to: Seq<char>)
    requires
        pat.len() > 0,
    ensures
        match split_once(s, pat) {
            None => replaced(s, pat, to) == s,
            Some((before, after)) => replaced(s, pat, to) == before + to + replaced(after, pat, to),
        },
    decreases s.len(),
{
    if s.len() == 0 {
        assert(!occurs_at(s, pat, 0));
        assert(find_from(s, pat, 1) is None);
    } else if occurs_at(s, pat, 0) {
        assert(s.take(0) + to =~= to);
    } else {
        let rest = s.drop_first();
        law_replacing_goes_on_behind_the_first(rest, pat, to);
        lemma_places_behind_the_first(s, pat, 1);
        lemma_first_place(s, pat, 1);
        assert(find_from(s, pat, 0) == find_from(s, pat, 1));
        match find_from(s, pat, 1) {
            None => {
                assert(seq![s[0]] + rest =~= s);
            },
            Some(i) => {
                let after = s.skip(i + pat.len());
                assert(rest.skip(i - 1 + pat.len()) =~= after);
                assert(seq![s[0]] + rest.take(i - 1) =~= s.take(i));
                assert(seq![s[0]] + (rest.take(i - 1) + to + replaced(after, pat, to)) =~= s.take(i)
                    + to + replaced(after, pat, to));
            },
        }
    }
}

/// A name is put behind its directory and one separator of the platform; behind
/// none where the directory is empty or ends in a separator, or is a drive of
/// Windows.
pub proof fn law_one_separator_at_most(windows: bool, dir: Seq<char>, name: Seq<char>)
    ensures
        ({
            let n = dir.len() as int;
            let whole = joined(windows, dir, name);
            let bare = n == 0 || dir[n - 1] == '/' || (windows && dir[n - 1] == '\\') || (windows && n
                == 2 && dir[1] == ':' && (('a' <= dir[0] && dir[0] <= 'z') || ('A' <= dir[0]
                && dir[0] <= 'Z')));
            if bare {
                whole == dir + name
            } else if windows {
                whole == dir.push('\\') + name
            } else {
                whole == dir.push('/') + name
            }
        }),
{
    reveal_strlit("/");
    reveal_strlit("\\");
    assert(dir + "/"@ =~= dir.push('/'));
    assert(dir + "\\"@ =~= dir.push('\\'));
}

/// A number is written as its tenth, followed by the digit that is left; one below
/// ten is that digit alone, so that there are no zeros in front.
pub proof fn law_numbers_are_written_by_digits(n: nat, d: int)
    requires
        0 <= d < 10,
    ensures
        decimal(d as nat) == seq!["0123456789"@[d]],
        n > 0 ==> decimal((n * 10 + d) as nat) == decimal(n).push("0123456789"@[d]),
{
    reveal_strlit("0123456789");
    assert(digit(d) == "0123456789"@[d]);
    assert((n * 10 + d) / 10 == n && (n * 10 + d) % 10 == d);
}

/// A negative number is its opposite behind a minus sign, and no other number has
/// one.
pub proof fn law_signs_are_written(n: int)
    ensures
        n >= 0 ==> signed_decimal(n) == decimal(n as nat),
        n < 0 ==> signed_decimal(n) == seq!['-'] + decimal((-n) as nat),
{
    reveal_strlit("-");
    assert("-"@ =~= seq!['-']);
}

/// In base sixteen a number is written as its sixteenth, followed by the digit that
/// is left.
pub proof fn law_numbers_are_written_in_hexadecimal(n: nat, d: int)
    requires
        0 <= d < 16,
    ensures
        hexadecimal(d as nat) == seq!["0123456789abcdef"@[d]],
        n > 0 ==> hexadecimal((n * 16 + d) as nat) == hexadecimal(n).push("0123456789abcdef"@[d]),
{
    reveal_strlit("0123456789abcdef");
    assert(hex_digit(d) == "0123456789abcdef"@[d]);
    assert((n * 16 + d) / 16 == n && (n * 16 + d) % 16 == d);
}

} // verus!
