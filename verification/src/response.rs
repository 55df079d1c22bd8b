//! Responses: the content type of a file, the page for a missing file, and
//! the text that goes on the wire.

use vstd::prelude::*;
use vstd::string::*;
use vstd::utf8::encode_utf8;
use crate::text::{
    ends_with, starts_with, contains, occurs_at, chars_of, has_suffix, decimal, decimal_string,
    lemma_ends_with_tail,
};

verus! {

/// The content type of a file, chosen by the end of its name alone. The
/// match is case-sensitive; a name with none of the known endings is plain
/// text.
pub open spec fn content_type_of(path: Seq<char>) -> Seq<char> {
    if ends_with(path, ".html"@) || ends_with(path, ".htm"@) {
        "text/html"@
    } else if ends_with(path, ".css"@) {
        "text/css"@
    } else if ends_with(path, ".js"@) {
        "application/javascript"@
    } else if ends_with(path, ".jpg"@) || ends_with(path, ".jpeg"@) {
        "image/jpeg"@
    } else if ends_with(path, ".png"@) {
        "image/png"@
    } else if ends_with(path, ".gif"@) {
        "image/gif"@
    } else {
        "text/plain"@
    }
}

/// Picks the `Content-Type` for a file from its name.
pub fn get_content_type(file_path: &str) -> (content_type: &'static str)
    ensures
        content_type@ == content_type_of(file_path@),
{
    let chars: Vec<char> = chars_of(file_path);
    if has_suffix(&chars, ".html") || has_suffix(&chars, ".htm") {
        "text/html"
    } else if has_suffix(&chars, ".css") {
        "text/css"
    } else if has_suffix(&chars, ".js") {
        "application/javascript"
    } else if has_suffix(&chars, ".jpg") || has_suffix(&chars, ".jpeg") {
        "image/jpeg"
    } else if has_suffix(&chars, ".png") {
        "image/png"
    } else if has_suffix(&chars, ".gif") {
        "image/gif"
    } else {
        "text/plain"
    }
}

/// The part of the not-found page that precedes the file's name.
pub const NOT_FOUND_HEAD: &'static str =
    "<!DOCTYPE html>\n<html>\n<head>\n    <title>404 Not Found</title>\n    <style>\n        body { font-family: Arial, sans-serif; margin: 40px; }\n        .error { background: #f8d7da; border: 1px solid #f5c6cb; color: #721c24; padding: 20px; border-radius: 5px; }\n    </style>\n</head>\n<body>\n    <div class=\"error\">\n        <h1>404 Not Found</h1>\n        <p>The requested file <strong>";

/// The part of the not-found page that follows the file's name.
pub const NOT_FOUND_TAIL: &'static str =
    "</strong> was not found on this server.</p>\n        <p>Please check the file path and try again.</p>\n        <hr>\n        <small>Rust Web Server</small>\n    </div>\n</body>\n</html>";

/// The page sent for a missing file: a fixed HTML page with the file's
/// name, as it was asked for, set into it.
pub open spec fn not_found_page(file: Seq<char>) -> Seq<char> {
    NOT_FOUND_HEAD@ + file + NOT_FOUND_TAIL@
}

/// Builds the HTML page that says `requested_file` was not found.
pub fn generate_404_page(requested_file: &str) -> (page: String)
    ensures
        page@ == not_found_page(requested_file@),
{
    let mut page = String::from_str(NOT_FOUND_HEAD);
    page.append(requested_file);
    page.append(NOT_FOUND_TAIL);
    page
}

/// The number of bytes that `s` takes on the wire, in UTF-8.
pub open spec fn byte_len(s: Seq<char>) -> nat {
    encode_utf8(s).len()
}

/// All that precedes the body of a response: the status line, the three
/// headers, each closed by `\r\n`, and a blank line.
pub open spec fn response_head(
    status_line: Seq<char>,
    content_type: Seq<char>,
    length: nat,
) -> Seq<char> {
    status_line + "\r\nContent-Type: "@ + content_type + "\r\nContent-Length: "@ + decimal(length)
        + "\r\nConnection: close\r\n\r\n"@
}

/// A serialized response: the head, then the body with nothing after it.
/// `Content-Length` is the body's length in bytes.
pub open spec fn response_text(
    status_line: Seq<char>,
    content_type: Seq<char>,
    body: Seq<char>,
) -> Seq<char> {
    response_head(status_line, content_type, byte_len(body)) + body
}

/// The response for a file that was read: its contents, verbatim.
pub open spec fn found_response(file: Seq<char>, content: Seq<char>) -> Seq<char> {
    response_text("HTTP/1.1 200 OK"@, content_type_of(file), content)
}

/// The response for a file that could not be read.
pub open spec fn not_found_response(file: Seq<char>) -> Seq<char> {
    response_text("HTTP/1.1 404 Not Found"@, "text/html"@, not_found_page(file))
}

fn serialize(status_line: &str, content_type: &str, body: &str) -> (text: String)
    ensures
        text@ == response_text(status_line@, content_type@, body@),
{
    let length: usize = body.as_bytes().len();
    let digits: String = decimal_string(length);
    let mut text = String::from_str(status_line);
    text.append("\r\nContent-Type: ");
    text.append(content_type);
    text.append("\r\nContent-Length: ");
    text.append(digits.as_str());
    text.append("\r\nConnection: close\r\n\r\n");
    text.append(body);
    text
}

/// Builds the response for `file_path`, given what reading it gave:
/// `Some` contents, or `None` where it could not be read for any reason.
pub fn generate_response(file_path: &str, content: Option<&str>) -> (response: String)
    ensures
        response@ == match content {
            Some(c) => found_response(file_path@, c@),
            None => not_found_response(file_path@),
        },
{
    match content {
        Some(c) => serialize("HTTP/1.1 200 OK", get_content_type(file_path), c),
        None => {
            let page: String = generate_404_page(file_path);
            serialize("HTTP/1.1 404 Not Found", "text/html", page.as_str())
        },
    }
}

/// The last-resort response where no other can be produced: a bare status
/// line, no headers and no body.
pub fn internal_error_response() -> (response: &'static str)
    ensures
        response@ == "HTTP/1.1 500 Internal Server Error\r\n\r\n"@,
{
    "HTTP/1.1 500 Internal Server Error\r\n\r\n"
}

/// The content type of a path is that of its ending: any tail of the path
/// of five characters or more decides it.
pub proof fn lemma_content_type_by_ending(path: Seq<char>, tail: Seq<char>)
    requires
        ends_with(path, tail),
        tail.len() >= 5,
    ensures
        content_type_of(path) == content_type_of(tail),
{
    reveal_strlit(".html");
    reveal_strlit(".htm");
    reveal_strlit(".css");
    reveal_strlit(".js");
    reveal_strlit(".jpg");
    reveal_strlit(".jpeg");
    reveal_strlit(".png");
    reveal_strlit(".gif");
    lemma_ends_with_tail(path, tail, ".html"@);
    lemma_ends_with_tail(path, tail, ".htm"@);
    lemma_ends_with_tail(path, tail, ".css"@);
    lemma_ends_with_tail(path, tail, ".js"@);
    lemma_ends_with_tail(path, tail, ".jpg"@);
    lemma_ends_with_tail(path, tail, ".jpeg"@);
    lemma_ends_with_tail(path, tail, ".png"@);
    lemma_ends_with_tail(path, tail, ".gif"@);
}

/// A response opens with its status line, announces its content type and
/// the length of its body in bytes, and ends with the body, unchanged.
pub proof fn lemma_response_parts(status_line: Seq<char>, content_type: Seq<char>, body: Seq<char>)
    ensures
        starts_with(response_text(status_line, content_type, body), status_line + "\r\n"@),
        contains(
            response_text(status_line, content_type, body),
            "\r\nContent-Type: "@ + content_type + "\r\n"@,
        ),
        contains(
            response_text(status_line, content_type, body),
            "\r\nContent-Length: "@ + decimal(byte_len(body)) + "\r\n"@,
        ),
        ends_with(response_text(status_line, content_type, body), "\r\n\r\n"@ + body),
{
    reveal_strlit("\r\n");
    reveal_strlit("\r\n\r\n");
    reveal_strlit("\r\nContent-Type: ");
    reveal_strlit("\r\nContent-Length: ");
    reveal_strlit("\r\nConnection: close\r\n\r\n");
    let text = response_text(status_line, content_type, body);
    let digits = decimal(byte_len(body));
    let first = status_line + "\r\n"@;
    assert(text.subrange(0, first.len() as int) =~= first);
    let type_line = "\r\nContent-Type: "@ + content_type + "\r\n"@;
    let i = status_line.len() as int;
    assert(text.subrange(i, i + type_line.len()) =~= type_line);
    assert(occurs_at(text, type_line, i));
    let length_line = "\r\nContent-Length: "@ + digits + "\r\n"@;
    let j = i + "\r\nContent-Type: "@.len() + content_type.len();
    assert(text.subrange(j, j + length_line.len()) =~= length_line);
    assert(occurs_at(text, length_line, j));
    let last = "\r\n\r\n"@ + body;
    assert(text.subrange(text.len() - last.len(), text.len() as int) =~= last);
}

/// A file that was read is answered with `200 OK`, the content type of its
/// name, the length of its contents in bytes, and its contents as the
/// body, exactly.
pub proof fn lemma_found_response(file: Seq<char>, content: Seq<char>)
    ensures
        starts_with(found_response(file, content), "HTTP/1.1 200 OK"@ + "\r\n"@),
        contains(
            found_response(file, content),
            "\r\nContent-Type: "@ + content_type_of(file) + "\r\n"@,
        ),
        contains(
            found_response(file, content),
            "\r\nContent-Length: "@ + decimal(byte_len(content)) + "\r\n"@,
        ),
        ends_with(found_response(file, content), "\r\n\r\n"@ + content),
{
    lemma_response_parts("HTTP/1.1 200 OK"@, content_type_of(file), content);
}

/// The page for a missing file holds the file's name as it was asked for.
pub proof fn lemma_not_found_page_names_file(file: Seq<char>)
    ensures
        contains(not_found_page(file), file),
{
    let page = not_found_page(file);
    let i = NOT_FOUND_HEAD@.len() as int;
    assert(page.subrange(i, i + file.len()) =~= file);
    assert(occurs_at(page, file, i));
}

/// A file that could not be read is answered with `404 Not Found` and an
/// HTML body that holds the file's name.
pub proof fn lemma_not_found_response(file: Seq<char>)
    ensures
        starts_with(not_found_response(file), "HTTP/1.1 404 Not Found"@ + "\r\n"@),
        contains(not_found_response(file), "\r\nContent-Type: "@ + "text/html"@ + "\r\n"@),
        ends_with(not_found_response(file), "\r\n\r\n"@ + not_found_page(file)),
        contains(not_found_page(file), file),
{
    lemma_response_parts("HTTP/1.1 404 Not Found"@, "text/html"@, not_found_page(file));
    lemma_not_found_page_names_file(file);
}

} // verus!
