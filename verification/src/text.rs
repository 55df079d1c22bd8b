//! Characters, words and decimal numbers: the text primitives that the
//! request grammar and the response format are stated over.

use vstd::prelude::*;
use vstd::string::*;

verus! {

/// The characters that carry the Unicode `White_Space` property.
pub open spec fn is_whitespace(c: char) -> bool {
    let u = c as u32;
    ||| 0x09 <= u <= 0x0D
    ||| u == 0x20
    ||| u == 0x85
    ||| u == 0xA0
    ||| u == 0x1680
    ||| 0x2000 <= u <= 0x200A
    ||| u == 0x2028
    ||| u == 0x2029
    ||| u == 0x202F
    ||| u == 0x205F
    ||| u == 0x3000
}

/// Tells whether `c` is a whitespace character.
pub fn char_is_whitespace(c: char) -> (r: bool)
    ensures
        r == is_whitespace(c),
{
    let u: u32 = c as u32;
    (0x09 <= u && u <= 0x0D) || u == 0x20 || u == 0x85 || u == 0xA0 || u == 0x1680 || (0x2000 <= u
        && u <= 0x200A) || u == 0x2028 || u == 0x2029 || u == 0x202F || u == 0x205F || u == 0x3000
}

/// `suffix` is the tail of `s`, character for character.
pub open spec fn ends_with(s: Seq<char>, suffix: Seq<char>) -> bool {
    &&& suffix.len() <= s.len()
    &&& s.subrange(s.len() - suffix.len(), s.len() as int) == suffix
}

/// `prefix` is the start of `s`, character for character.
pub open spec fn starts_with(s: Seq<char>, prefix: Seq<char>) -> bool {
    &&& prefix.len() <= s.len()
    &&& s.subrange(0, prefix.len() as int) == prefix
}

/// `part` occurs somewhere in `s`, character for character.
pub open spec fn contains(s: Seq<char>, part: Seq<char>) -> bool {
    exists|i: int| occurs_at(s, part, i)
}

/// `part` occurs in `s` at position `i`.
pub open spec fn occurs_at(s: Seq<char>, part: Seq<char>, i: int) -> bool {
    &&& 0 <= i
    &&& i + part.len() <= s.len()
    &&& s.subrange(i, i + part.len()) == part
}

/// Whether a text ends with a given suffix is decided by any tail of the
/// text that is at least as long as the suffix.
pub proof fn lemma_ends_with_tail(s: Seq<char>, tail: Seq<char>, suffix: Seq<char>)
    requires
        ends_with(s, tail),
        suffix.len() <= tail.len(),
    ensures
        ends_with(s, suffix) == ends_with(tail, suffix),
{
    let a = s.subrange(s.len() - suffix.len(), s.len() as int);
    let b = tail.subrange(tail.len() - suffix.len(), tail.len() as int);
    let whole = s.subrange(s.len() - tail.len(), s.len() as int);
    assert forall|k: int| 0 <= k < suffix.len() implies a[k] == b[k] by {
        assert(whole[tail.len() - suffix.len() + k] == s[s.len() - suffix.len() + k]);
    }
    assert(a =~= b);
}

/// Tells whether the text held in `chars` ends with `suffix`
/// (case-sensitive).
pub fn has_suffix(chars: &Vec<char>, suffix: &str) -> (r: bool)
    ensures
        r == ends_with(chars@, suffix@),
{
    let tail: Vec<char> = chars_of(suffix);
    let n: usize = chars.len();
    let m: usize = tail.len();
    if m > n {
        return false;
    }
    let base: usize = n - m;
    let mut k: usize = 0;
    while k < m
        invariant
            n == chars@.len(),
            m == tail@.len(),
            tail@ == suffix@,
            base + m == n,
            k <= m,
            forall|j: int| 0 <= j < k ==> chars@[base + j] == tail@[j],
        decreases m - k,
    {
        if chars[base + k] != tail[k] {
            proof {
                assert(chars@.subrange(n - m, n as int)[k as int] == chars@[base + k]);
            }
            return false;
        }
        k = k + 1;
    }
    proof {
        assert(chars@.subrange(n - m, n as int) =~= tail@);
    }
    true
}

/// The character that stands for the decimal digit `d`.
pub open spec fn digit_char(d: nat) -> char {
    if d == 0 {
        '0'
    } else if d == 1 {
        '1'
    } else if d == 2 {
        '2'
    } else if d == 3 {
        '3'
    } else if d == 4 {
        '4'
    } else if d == 5 {
        '5'
    } else if d == 6 {
        '6'
    } else if d == 7 {
        '7'
    } else if d == 8 {
        '8'
    } else {
        '9'
    }
}

/// `n` written in base ten, most significant digit first, without leading zeros.
pub open spec fn decimal(n: nat) -> Seq<char>
    decreases n,
{
    if n < 10 {
        seq![digit_char(n)]
    } else {
        decimal(n / 10).push(digit_char(n % 10))
    }
}

fn digit_str(d: usize) -> (r: &'static str)
    requires
        d < 10,
    ensures
        r@ == seq![digit_char(d as nat)],
{
    proof {
        reveal_strlit("0");
        reveal_strlit("1");
        reveal_strlit("2");
        reveal_strlit("3");
        reveal_strlit("4");
        reveal_strlit("5");
        reveal_strlit("6");
        reveal_strlit("7");
        reveal_strlit("8");
        reveal_strlit("9");
    }
    let r = if d == 0 {
        "0"
    } else if d == 1 {
        "1"
    } else if d == 2 {
        "2"
    } else if d == 3 {
        "3"
    } else if d == 4 {
        "4"
    } else if d == 5 {
        "5"
    } else if d == 6 {
        "6"
    } else if d == 7 {
        "7"
    } else if d == 8 {
        "8"
    } else {
        "9"
    };
    assert(r@ =~= seq![digit_char(d as nat)]);
    r
}

/// Writes `n` in base ten.
pub fn decimal_string(n: usize) -> (r: String)
    ensures
        r@ == decimal(n as nat),
    decreases n,
{
    if n < 10 {
        String::from_str(digit_str(n))
    } else {
        let mut s = decimal_string(n / 10);
        s.append(digit_str(n % 10));
        assert(s@ =~= decimal(n as nat));
        s
    }
}

/// The characters of `s`, in order.
pub fn chars_of(s: &str) -> (chars: Vec<char>)
    ensures
        chars@ == s@,
{
    let mut chars: Vec<char> = Vec::new();
    for c in it: s.chars()
        invariant
            it.seq() == s@,
            chars@ == it.seq().take(it.index() as int),
    {
        chars.push(c);
        assert(chars@ =~= it.seq().take(it.index() + 1));
    }
    assert(chars@ =~= s@);
    chars
}

} // verus!
