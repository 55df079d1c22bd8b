//! The request line: `METHOD PATH VERSION`, split on whitespace, and the
//! file that it asks for.

use vstd::prelude::*;
use vstd::string::*;
use crate::text::{is_whitespace, char_is_whitespace, chars_of};

verus! {

/// The first position at or after `i` that holds no whitespace character,
/// or the length of `s` where only whitespace follows.
pub open spec fn skip_space(s: Seq<char>, i: int) -> int
    decreases s.len() - i,
{
    if 0 <= i < s.len() && is_whitespace(s[i]) {
        skip_space(s, i + 1)
    } else {
        i
    }
}

/// The first position at or after `i` that holds a whitespace character,
/// or the length of `s` where none follows.
pub open spec fn skip_word(s: Seq<char>, i: int) -> int
    decreases s.len() - i,
{
    if 0 <= i < s.len() && !is_whitespace(s[i]) {
        skip_word(s, i + 1)
    } else {
        i
    }
}

/// The words of `s` from position `i` on: the maximal stretches of
/// characters that are not whitespace, in the order in which they stand.
pub open spec fn words_from(s: Seq<char>, i: int) -> Seq<Seq<char>>
    decreases s.len() - i,
{
    let start = skip_space(s, i);
    let end = skip_word(s, start);
    if 0 <= i <= start < end <= s.len() {
        seq![s.subrange(start, end)] + words_from(s, end)
    } else {
        Seq::empty()
    }
}

/// `s` split on whitespace: its words, none of them empty.
pub open spec fn words(s: Seq<char>) -> Seq<Seq<char>> {
    words_from(s, 0)
}

/// The file that a URL path names: `/` is the index page, and any other
/// path loses one leading slash, if it has one.
pub open spec fn resolve(path: Seq<char>) -> Seq<char> {
    if path == "/"@ {
        "index.html"@
    } else if path.len() > 0 && path[0] == '/' {
        path.subrange(1, path.len() as int)
    } else {
        path
    }
}

/// A line is a well-formed request when it has at least two words and the
/// first is exactly `GET`.
pub open spec fn is_get(line: Seq<char>) -> bool {
    words(line).len() >= 2 && words(line)[0] == "GET"@
}

/// The file that a request line asks for: the one that its second word
/// names. A line that is no well-formed `GET` asks for the index page.
pub open spec fn requested_file(line: Seq<char>) -> Seq<char> {
    if is_get(line) {
        resolve(words(line)[1])
    } else {
        "index.html"@
    }
}

/// Both scans stay inside the text and never move backwards; the first
/// stops at a character that is not whitespace, the second passes none
/// that is.
pub proof fn lemma_scan_bounds(s: Seq<char>, i: int)
    requires
        0 <= i <= s.len(),
    ensures
        i <= skip_space(s, i) <= s.len(),
        i <= skip_word(s, i) <= s.len(),
        skip_space(s, i) < s.len() ==> !is_whitespace(s[skip_space(s, i)]),
        forall|k: int| i <= k < skip_word(s, i) ==> !is_whitespace(#[trigger] s[k]),
    decreases s.len() - i,
{
    if i < s.len() {
        lemma_scan_bounds(s, i + 1);
    }
}

/// Every word of a text has at least one character and holds no
/// whitespace.
pub proof fn lemma_words_hold_no_whitespace(s: Seq<char>, i: int, n: int)
    requires
        0 <= i <= s.len(),
        0 <= n < words_from(s, i).len(),
    ensures
        words_from(s, i)[n].len() > 0,
        forall|k: int|
            0 <= k < words_from(s, i)[n].len() ==> !is_whitespace(#[trigger] words_from(s, i)[n][k]),
    decreases s.len() - i,
{
    let start = skip_space(s, i);
    let end = skip_word(s, start);
    lemma_scan_bounds(s, i);
    lemma_scan_bounds(s, start);
    if n > 0 {
        lemma_words_hold_no_whitespace(s, end, n - 1);
    } else {
        let word = s.subrange(start, end);
        assert forall|k: int| 0 <= k < word.len() implies !is_whitespace(#[trigger] word[k]) by {
            assert(word[k] == s[start + k]);
        }
    }
}

fn scan_space(s: &Vec<char>, from: usize) -> (r: usize)
    requires
        from <= s@.len(),
    ensures
        r == skip_space(s@, from as int),
        from <= r <= s@.len(),
        r < s@.len() ==> !is_whitespace(s@[r as int]),
{
    let mut i: usize = from;
    while i < s.len() && char_is_whitespace(s[i])
        invariant
            from <= i <= s@.len(),
            skip_space(s@, from as int) == skip_space(s@, i as int),
        decreases s@.len() - i,
    {
        i = i + 1;
    }
    i
}

fn scan_word(s: &Vec<char>, from: usize) -> (r: usize)
    requires
        from <= s@.len(),
    ensures
        r == skip_word(s@, from as int),
        from <= r <= s@.len(),
{
    let mut i: usize = from;
    while i < s.len() && !char_is_whitespace(s[i])
        invariant
            from <= i <= s@.len(),
            skip_word(s@, from as int) == skip_word(s@, i as int),
        decreases s@.len() - i,
    {
        i = i + 1;
    }
    i
}

fn range_is(s: &Vec<char>, from: usize, to: usize, word: &str) -> (r: bool)
    requires
        from <= to <= s@.len(),
    ensures
        r == (s@.subrange(from as int, to as int) == word@),
{
    let w: Vec<char> = chars_of(word);
    let n: usize = to - from;
    if n != w.len() {
        return false;
    }
    let mut k: usize = 0;
    while k < n
        invariant
            from + n == to,
            to <= s@.len(),
            n == w@.len(),
            w@ == word@,
            k <= n,
            forall|j: int| 0 <= j < k ==> s@[from + j] == w@[j],
        decreases n - k,
    {
        if s[from + k] != w[k] {
            proof {
                assert(s@.subrange(from as int, to as int)[k as int] == s@[from + k]);
            }
            return false;
        }
        k = k + 1;
    }
    proof {
        assert(s@.subrange(from as int, to as int) =~= w@);
    }
    true
}

/// Extracts the file to serve from a request line.
///
/// For `GET <path> ...` this is `<path>` without its leading slash, and
/// `index.html` for the root path. Any other line, whatever it holds, asks
/// for `index.html`.
pub fn parse_request(request_line: &str) -> (file: String)
    ensures
        file@ == requested_file(request_line@),
{
    let chars: Vec<char> = chars_of(request_line);
    let a: usize = scan_space(&chars, 0);
    let b: usize = scan_word(&chars, a);
    let c: usize = scan_space(&chars, b);
    let d: usize = scan_word(&chars, c);
    proof {
        let line = request_line@;
        let rest = words_from(line, b as int);
        assert(a < b ==> words(line) == seq![line.subrange(a as int, b as int)] + rest);
        assert(c < d ==> rest == seq![line.subrange(c as int, d as int)] + words_from(
            line,
            d as int,
        ));
        assert(c < d ==> a < b);
        assert(!(c < d) ==> words(line).len() <= 1);
    }
    if c < d && range_is(&chars, a, b, "GET") {
        if range_is(&chars, c, d, "/") {
            String::from_str("index.html")
        } else if chars[c] == '/' {
            String::from_str(request_line.substring_char(c + 1, d))
        } else {
            String::from_str(request_line.substring_char(c, d))
        }
    } else {
        String::from_str("index.html")
    }
}

/// A stretch of characters without whitespace, closed by whitespace or by
/// the end of the text, is scanned as one word.
pub proof fn lemma_word_run(s: Seq<char>, i: int, j: int)
    requires
        0 <= i <= j <= s.len(),
        forall|k: int| i <= k < j ==> !is_whitespace(#[trigger] s[k]),
        j == s.len() || is_whitespace(s[j]),
    ensures
        skip_word(s, i) == j,
    decreases j - i,
{
    if i < j {
        lemma_word_run(s, i + 1, j);
    }
}

/// A stretch of whitespace, closed by another character or by the end of
/// the text, is skipped as a whole.
pub proof fn lemma_space_run(s: Seq<char>, i: int, j: int)
    requires
        0 <= i <= j <= s.len(),
        forall|k: int| i <= k < j ==> is_whitespace(#[trigger] s[k]),
        j == s.len() || !is_whitespace(s[j]),
    ensures
        skip_space(s, i) == j,
    decreases j - i,
{
    if i < j {
        lemma_space_run(s, i + 1, j);
    }
}

/// The first two words of a line are found whatever whitespace surrounds
/// them: with `lead` and `gap` made of whitespace (`gap` not empty) and
/// `rest` empty or opened by whitespace, the line
/// `lead method gap target rest` has `method` as its first word and
/// `target` as its second.
pub proof fn lemma_line_words(
    lead: Seq<char>,
    method: Seq<char>,
    gap: Seq<char>,
    target: Seq<char>,
    rest: Seq<char>,
)
    requires
        forall|k: int| 0 <= k < lead.len() ==> is_whitespace(#[trigger] lead[k]),
        forall|k: int| 0 <= k < method.len() ==> !is_whitespace(#[trigger] method[k]),
        forall|k: int| 0 <= k < gap.len() ==> is_whitespace(#[trigger] gap[k]),
        forall|k: int| 0 <= k < target.len() ==> !is_whitespace(#[trigger] target[k]),
        method.len() > 0,
        gap.len() > 0,
        target.len() > 0,
        rest.len() == 0 || is_whitespace(rest[0]),
    ensures
        words(lead + method + gap + target + rest).len() >= 2,
        words(lead + method + gap + target + rest)[0] == method,
        words(lead + method + gap + target + rest)[1] == target,
{
    let line = lead + method + gap + target + rest;
    let a = lead.len() as int;
    let b = a + method.len();
    let c = b + gap.len();
    let d = c + target.len();
    assert forall|k: int| 0 <= k < a implies is_whitespace(#[trigger] line[k]) by {
        assert(line[k] == lead[k]);
    }
    assert forall|k: int| a <= k < b implies !is_whitespace(#[trigger] line[k]) by {
        assert(line[k] == method[k - a]);
    }
    assert forall|k: int| b <= k < c implies is_whitespace(#[trigger] line[k]) by {
        assert(line[k] == gap[k - b]);
    }
    assert forall|k: int| c <= k < d implies !is_whitespace(#[trigger] line[k]) by {
        assert(line[k] == target[k - c]);
    }
    assert(line[a] == method[0]);
    assert(line[b] == gap[0]);
    assert(line[c] == target[0]);
    if rest.len() > 0 {
        assert(line[d] == rest[0]);
    }
    lemma_space_run(line, 0, a);
    lemma_word_run(line, a, b);
    lemma_space_run(line, b, c);
    lemma_word_run(line, c, d);
    assert(line.subrange(a, b) =~= method);
    assert(line.subrange(c, d) =~= target);
    assert(words(line) == seq![method] + words_from(line, b));
    assert(words_from(line, b) == seq![target] + words_from(line, d));
}

/// A `GET` of a path other than `/` asks for the path without its leading
/// slash, and a `GET` of `/` asks for `index.html`, whatever follows the
/// path on the line.
pub proof fn lemma_get_asks_for_path(path: Seq<char>, rest: Seq<char>)
    requires
        path.len() > 0,
        forall|k: int| 0 <= k < path.len() ==> !is_whitespace(#[trigger] path[k]),
        rest.len() == 0 || is_whitespace(rest[0]),
    ensures
        requested_file("GET "@ + path + rest) == resolve(path),
        path == "/"@ ==> requested_file("GET "@ + path + rest) == "index.html"@,
        path != "/"@ && path[0] == '/' ==> requested_file("GET "@ + path + rest) == path.subrange(
            1,
            path.len() as int,
        ),
        path[0] != '/' ==> requested_file("GET "@ + path + rest) == path,
{
    reveal_strlit("GET ");
    reveal_strlit("GET");
    reveal_strlit(" ");
    reveal_strlit("/");
    let lead = Seq::<char>::empty();
    assert("GET "@ =~= lead + "GET"@ + " "@);
    lemma_line_words(lead, "GET"@, " "@, path, rest);
}

/// A line that is no well-formed `GET` (fewer than two words, or another
/// method) asks for `index.html`.
pub proof fn lemma_malformed_asks_for_index(line: Seq<char>)
    requires
        words(line).len() < 2 || words(line)[0] != "GET"@,
    ensures
        requested_file(line) == "index.html"@,
{
}

} // verus!
