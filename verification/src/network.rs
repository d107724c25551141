//! What the host sends on its local HTTP port, and how it reports the
//! system it runs on.

use vstd::prelude::*;
use vstd::string::*;
use crate::text::{chars_of, decimal, law_decimal_reads_back, numeral_value, push_decimal, same_chars};

verus! {

/// An HTTP/1.1 `200 OK` response with the given content type and body; its
/// `Content-Length` is the length of the body in UTF-8 bytes.
pub open spec fn ok_response(content_type: Seq<char>, body: &str) -> Seq<char> {
    "HTTP/1.1 200 OK\r\nContent-Type: "@ + content_type + "\r\nContent-Length: "@ + decimal(body.len() as nat) + "\r\n\r\n"@ + body@
}

/// A `200 OK` response carries the body whole, after a blank line, and a
/// `Content-Length` whose decimal digits read back as the body's length in
/// bytes.
pub proof fn law_response_carries_body(content_type: Seq<char>, body: &str)
    ensures
        exists|len: Seq<char>|
            {
                &&& numeral_value(len) == body.len()
                &&& forall|i: int| 0 <= i < len.len() ==> '0' <= #[trigger] len[i] <= '9'
                &&& ok_response(content_type, body) == "HTTP/1.1 200 OK\r\nContent-Type: "@
                    + content_type + "\r\nContent-Length: "@ + len + "\r\n\r\n"@ + body@
            },
{
    law_decimal_reads_back(body.len() as nat);
    let len = decimal(body.len() as nat);
    assert(numeral_value(len) == body.len());
}

/// The HTTP `200 OK` response that carries `body` as `content_type`.
pub fn http_ok_response(content_type: &str, body: &str) -> (r: String)
    ensures
        r@ == ok_response(content_type@, body),
{
    let mut r = String::from_str("HTTP/1.1 200 OK\r\nContent-Type: ");
    r.append(content_type);
    r.append("\r\nContent-Length: ");
    let n = body.len();
    push_decimal(&mut r, n);
    r.append("\r\n\r\n");
    r.append(body);
    r
}

/// The response to a browser: the page, as HTML.
pub fn page_response(page: &str) -> (r: String)
    ensures
        r@ == ok_response("text/html"@, page),
{
    http_ok_response("text/html", page)
}

/// The response to a device: the stored history, as JSON.
pub fn history_response(history_json: &str) -> (r: String)
    ensures
        r@ == ok_response("application/json"@, history_json),
{
    http_ok_response("application/json", history_json)
}

/// The line that reports the operating system named `os` (as
/// `std::env::consts::OS` names it).
pub open spec fn os_report_text(os: Seq<char>) -> Seq<char> {
    if os == seq!['w', 'i', 'n', 'd', 'o', 'w', 's'] {
        "the code base is working or WINDOWS based system"@
    } else if os == seq!['m', 'a', 'c', 'o', 's'] {
        "the code base is working or MAC OS based system"@
    } else if os == seq!['l', 'i', 'n', 'u', 'x'] {
        "the code base is working or linux based system"@
    } else {
        "Unsupported OS: "@ + os
    }
}

/// Windows, macOS and Linux each get their own line; any other system is
/// reported as unsupported, by its name.
pub proof fn law_os_report_names_system(os: Seq<char>)
    ensures
        os == seq!['w', 'i', 'n', 'd', 'o', 'w', 's'] ==> os_report_text(os)
            == "the code base is working or WINDOWS based system"@,
        os == seq!['m', 'a', 'c', 'o', 's'] ==> os_report_text(os)
            == "the code base is working or MAC OS based system"@,
        os == seq!['l', 'i', 'n', 'u', 'x'] ==> os_report_text(os)
            == "the code base is working or linux based system"@,
        os != seq!['w', 'i', 'n', 'd', 'o', 'w', 's'] && os != seq!['m', 'a', 'c', 'o', 's'] && os
            != seq!['l', 'i', 'n', 'u', 'x'] ==> os_report_text(os) == "Unsupported OS: "@ + os,
{
}

/// The line that reports the operating system named `os`.
pub fn os_report(os: &str) -> (r: String)
    ensures
        r@ == os_report_text(os@),
{
    let cs = chars_of(os);
    if same_chars(cs.as_slice(), &['w', 'i', 'n', 'd', 'o', 'w', 's']) {
        String::from_str("the code base is working or WINDOWS based system")
    } else if same_chars(cs.as_slice(), &['m', 'a', 'c', 'o', 's']) {
        String::from_str("the code base is working or MAC OS based system")
    } else if same_chars(cs.as_slice(), &['l', 'i', 'n', 'u', 'x']) {
        String::from_str("the code base is working or linux based system")
    } else {
        let mut r = String::from_str("Unsupported OS: ");
        r.append(os);
        r
    }
}

} // verus!
