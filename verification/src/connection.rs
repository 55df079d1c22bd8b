//! One connection, as a state machine: the caller reads lines and hands
//! each to [`RequestReader::on_read`], which says what to do next.

use vstd::prelude::*;
use vstd::string::*;
use crate::text::{is_whitespace, char_is_whitespace, chars_of};
use crate::request::{requested_file, parse_request};

verus! {

/// A line that ends the request's header block: nothing but a line break.
pub open spec fn is_blank(line: Seq<char>) -> bool {
    line == "\r\n"@ || line == "\n"@
}

/// The length of `s` without the whitespace at its end.
pub open spec fn trimmed_len(s: Seq<char>) -> nat
    decreases s.len(),
{
    if s.len() > 0 && is_whitespace(s.last()) {
        trimmed_len(s.drop_last())
    } else {
        s.len()
    }
}

/// `s` without the whitespace at its end.
pub open spec fn trim_end(s: Seq<char>) -> Seq<char> {
    s.take(trimmed_len(s) as int)
}

/// What one attempt to read a line from the peer gave.
#[derive(Debug)]
pub enum LineRead {
    /// A line, with its terminator if it had one.
    Line(String),
    /// The end of the stream.
    End,
    /// A read error.
    Failed,
}

/// What the caller does next.
#[derive(Debug)]
pub enum Step {
    /// Read another line and hand it over.
    ReadLine,
    /// Read this file, build the response from what that gave, send it, and
    /// close.
    Serve(String),
    /// Close the connection without an answer.
    Close,
}

/// The lines of one request, collected up to the blank line.
pub struct RequestReader {
    pub lines: Vec<String>,
}

impl View for RequestReader {
    type V = Seq<Seq<char>>;

    open spec fn view(&self) -> Seq<Seq<char>> {
        Seq::new(self.lines@.len(), |i: int| self.lines@[i]@)
    }
}

/// `step` is what follows the end of the header block: with no line
/// collected the connection is closed unanswered; otherwise the file that
/// the first line asks for is served.
pub open spec fn concludes(lines: Seq<Seq<char>>, step: Step) -> bool {
    if lines.len() == 0 {
        step is Close
    } else {
        step matches Step::Serve(file) && file@ == requested_file(lines[0])
    }
}

/// Strips the whitespace at the end of `line`.
pub fn str_trim_end(line: &str) -> (r: &str)
    ensures
        r@ == trim_end(line@),
{
    let chars: Vec<char> = chars_of(line);
    let mut end: usize = chars.len();
    proof {
        assert(line@.take(end as int) =~= line@);
    }
    while end > 0 && char_is_whitespace(chars[end - 1])
        invariant
            chars@ == line@,
            end <= chars@.len(),
            trimmed_len(line@) == trimmed_len(line@.take(end as int)),
        decreases end,
    {
        proof {
            assert(line@.take(end as int).drop_last() =~= line@.take(end - 1));
        }
        end = end - 1;
    }
    line.substring_char(0, end)
}

impl RequestReader {
    /// A reader that has seen no line yet.
    pub fn new() -> (reader: RequestReader)
        ensures
            reader@ == Seq::<Seq<char>>::empty(),
    {
        let reader = RequestReader { lines: Vec::new() };
        assert(reader@ =~= Seq::<Seq<char>>::empty());
        reader
    }

    /// Takes the outcome of one read and decides the next step.
    ///
    /// A read error closes the connection unanswered. A line that is not
    /// blank is kept, without the whitespace at its end, and another is
    /// asked for. A blank line or the end of the stream ends the header
    /// block: see [`concludes`].
    pub fn on_read(&mut self, read: LineRead) -> (step: Step)
        ensures
            match read {
                LineRead::Failed => step is Close && final(self)@ == old(self)@,
                LineRead::End => concludes(old(self)@, step) && final(self)@ == old(self)@,
                LineRead::Line(line) => if is_blank(line@) {
                    concludes(old(self)@, step) && final(self)@ == old(self)@
                } else {
                    step is ReadLine && final(self)@ == old(self)@.push(trim_end(line@))
                },
            },
    {
        match read {
            LineRead::Failed => Step::Close,
            LineRead::End => self.conclude(),
            LineRead::Line(line) => {
                if str_is_blank(line.as_str()) {
                    self.conclude()
                } else {
                    let kept: String = String::from_str(str_trim_end(line.as_str()));
                    self.lines.push(kept);
                    assert(self@ =~= old(self)@.push(trim_end(line@)));
                    Step::ReadLine
                }
            },
        }
    }

    fn conclude(&self) -> (step: Step)
        ensures
            concludes(self@, step),
    {
        if self.lines.len() == 0 {
            Step::Close
        } else {
            Step::Serve(parse_request(self.lines[0].as_str()))
        }
    }
}

fn str_is_blank(line: &str) -> (r: bool)
    ensures
        r == is_blank(line@),
{
    proof {
        reveal_strlit("\r\n");
        reveal_strlit("\n");
    }
    let chars: Vec<char> = chars_of(line);
    let n: usize = chars.len();
    if n == 1 {
        let r = chars[0] == '\n';
        assert(r ==> line@ =~= "\n"@);
        r
    } else if n == 2 {
        let r = chars[0] == '\r' && chars[1] == '\n';
        assert(r ==> line@ =~= "\r\n"@);
        r
    } else {
        false
    }
}

} // verus!
