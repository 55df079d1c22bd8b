//! The client's side: the one request that it sends, and what the server
//! makes of it.

use vstd::prelude::*;
use vstd::string::*;
use crate::text::is_whitespace;
use crate::request::{requested_file, lemma_get_asks_for_path};
use crate::connection::{is_blank, trim_end, trimmed_len};

verus! {

/// The first line of the request for `filename`, with its terminator.
pub open spec fn request_line(filename: Seq<char>) -> Seq<char> {
    "GET /"@ + filename + " HTTP/1.1\r\n"@
}

/// The request for `filename` on `host`: a `GET` of `/<filename>` that asks
/// the server to close the connection after its answer, so that the end of
/// the stream marks the end of the response.
pub open spec fn request_text(filename: Seq<char>, host: Seq<char>) -> Seq<char> {
    request_line(filename) + "Host: "@ + host + "\r\nConnection: close\r\n\r\n"@
}

/// Builds the request that fetches `filename` from `host`.
pub fn get_request(filename: &str, host: &str) -> (request: String)
    ensures
        request@ == request_text(filename@, host@),
{
    let mut request = String::from_str("GET /");
    request.append(filename);
    request.append(" HTTP/1.1\r\n");
    request.append("Host: ");
    request.append(host);
    request.append("\r\nConnection: close\r\n\r\n");
    request
}

/// The server reads from the client's request line the file that the
/// client named: for a name without whitespace, the line is kept (it is
/// not blank) and asks for that very name, or for `index.html` where the
/// name is empty.
pub proof fn lemma_request_names_file(filename: Seq<char>)
    requires
        forall|k: int| 0 <= k < filename.len() ==> !is_whitespace(#[trigger] filename[k]),
    ensures
        !is_blank(request_line(filename)),
        requested_file(trim_end(request_line(filename))) == if filename.len() == 0 {
            "index.html"@
        } else {
            filename
        },
{
    reveal_strlit("GET /");
    reveal_strlit("GET ");
    reveal_strlit("/");
    reveal_strlit(" HTTP/1.1\r\n");
    reveal_strlit(" HTTP/1.1");
    reveal_strlit("\r\n");
    reveal_strlit("\n");
    let line = request_line(filename);
    let path = "/"@ + filename;
    let kept = "GET "@ + path + " HTTP/1.1"@;
    let n = line.len() as int;
    assert(line[n - 1] == '\n');
    assert(line[n - 2] == '\r');
    assert(line.drop_last().drop_last() =~= kept);
    assert(kept.last() == '1');
    assert(trimmed_len(line) == trimmed_len(line.drop_last()));
    assert(trimmed_len(line.drop_last()) == trimmed_len(kept));
    assert(trim_end(line) =~= kept);
    assert forall|k: int| 0 <= k < path.len() implies !is_whitespace(#[trigger] path[k]) by {
        if k > 0 {
            assert(path[k] == filename[k - 1]);
        }
    }
    lemma_get_asks_for_path(path, " HTTP/1.1"@);
    if filename.len() == 0 {
        assert(path =~= "/"@);
    } else {
        assert(path.subrange(1, path.len() as int) =~= filename);
    }
}

} // verus!
