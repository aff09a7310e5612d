use crate::text::{decimal, ends_with, has_suffix, push_decimal};
use vstd::prelude::*;
use vstd::string::*;

verus! {

/// The request line that the server answers: optional white space, `GET`,
/// one space, and the target, a run of non-space characters (group one).
pub const REQUEST_PATTERN: &'static str = "^\\s*GET (\\S+)";

/// The target that asks the server to panic while handling the request.
pub const DIE_TARGET: &'static str = "/die";

/// The MIME type served for a file, chosen by the end of its name; a name
/// with none of the known endings is served as HTML.
pub open spec fn mime_for(name: Seq<char>) -> Seq<char> {
    if has_suffix(name, ".html"@) {
        "text/html"@
    } else if has_suffix(name, ".css"@) {
        "text/css"@
    } else if has_suffix(name, ".jpeg"@) {
        "image/jpeg"@
    } else if has_suffix(name, ".jpg"@) {
        "image/jpeg"@
    } else if has_suffix(name, ".png"@) {
        "image/png"@
    } else if has_suffix(name, ".gif"@) {
        "image/gif"@
    } else if has_suffix(name, ".json"@) {
        "json"@
    } else if has_suffix(name, ".js"@) {
        "application/javascript"@
    } else {
        "text/html"@
    }
}

/// The MIME type served for the file `filename`.
pub fn mime_type(filename: &str) -> (r: String)
    ensures
        r@ == mime_for(filename@),
{
    if ends_with(filename, ".html") {
        String::from_str("text/html")
    } else if ends_with(filename, ".css") {
        String::from_str("text/css")
    } else if ends_with(filename, ".jpeg") {
        String::from_str("image/jpeg")
    } else if ends_with(filename, ".jpg") {
        String::from_str("image/jpeg")
    } else if ends_with(filename, ".png") {
        String::from_str("image/png")
    } else if ends_with(filename, ".gif") {
        String::from_str("image/gif")
    } else if ends_with(filename, ".json") {
        String::from_str("json")
    } else if ends_with(filename, ".js") {
        String::from_str("application/javascript")
    } else {
        String::from_str("text/html")
    }
}

/// The path that a request target names under the document root.
pub fn request_path(document_root: &str, target: &str) -> (r: String)
    ensures
        r@ == document_root@ + target@,
{
    let mut r = String::from_str(document_root);
    r.append(target);
    r
}

/// The file served for `path`: its `index.html` when it is a directory,
/// else the path itself.
pub fn served_file(path: &str, is_dir: bool) -> (r: String)
    ensures
        is_dir ==> r@ == path@ + "/index.html"@,
        !is_dir ==> r@ == path@,
{
    let mut r = String::from_str(path);
    if is_dir {
        r.append("/index.html");
    }
    r
}

/// The status line of a response: found or not found.
pub fn status_line(found: bool) -> (r: &'static str)
    ensures
        found ==> r@ == "200 OK"@,
        !found ==> r@ == "404 NOT FOUND"@,
{
    if found {
        "200 OK"
    } else {
        "404 NOT FOUND"
    }
}

/// The text of a response's header: status line, content type and content
/// length, each on a line of its own, then an empty line.
pub open spec fn header_text(status: Seq<char>, mime: Seq<char>, length: nat) -> Seq<char> {
    "\nHTTP/1.1 "@ + status + "\nContent-Type: "@ + mime + "\nContent-Length: "@ + decimal(length)
        + "\n\n"@
}

/// The header that precedes `content_length` bytes of content.
pub fn http_header(status: &str, mime: &str, content_length: usize) -> (r: String)
    ensures
        r@ == header_text(status@, mime@, content_length as nat),
{
    let mut r = String::from_str("\nHTTP/1.1 ");
    r.append(status);
    r.append("\nContent-Type: ");
    r.append(mime);
    r.append("\nContent-Length: ");
    push_decimal(&mut r, content_length as u64);
    r.append("\n\n");
    r
}

/// The page sent when a file cannot be read, with the reason given.
pub fn error_page(reason: &str) -> (r: String)
    ensures
        r@ == "<html><a>Failed to load page: "@ + reason@ + "</a></html>"@,
{
    let mut r = String::from_str("<html><a>Failed to load page: ");
    r.append(reason);
    r.append("</a></html>");
    r
}

/// What `regex::bytes::Regex` makes of `pattern` on `haystack`: the bytes of
/// capture group one at the leftmost match, or nothing when the pattern does
/// not compile, does not match, or the group takes no part.
pub uninterp spec fn regex_first_group(pattern: Seq<char>, haystack: Seq<u8>) -> Option<Seq<u8>>;

/// Relies on regex::bytes::Regex::new, Regex::captures and Captures::get:
/// group one of the leftmost match.
#[verifier::external_body]
fn first_group(pattern: &str, haystack: &[u8]) -> (r: Option<Vec<u8>>)
    ensures
        match r {
            Some(v) => regex_first_group(pattern@, haystack@) == Some(v@),
            None => regex_first_group(pattern@, haystack@) is None,
        },
{
    let re = regex::bytes::Regex::new(pattern).ok()?;
    let caps = re.captures(haystack)?;
    caps.get(1).map(|m| m.as_bytes().to_vec())
}

/// What `String::from_utf8` makes of some bytes: their text when they are
/// valid UTF-8, nothing otherwise.
pub uninterp spec fn utf8_text(bytes: Seq<u8>) -> Option<Seq<char>>;

/// Relies on String::from_utf8: the text the bytes encode, if they are UTF-8.
#[verifier::external_body]
fn decode_utf8(bytes: Vec<u8>) -> (r: Option<String>)
    ensures
        match r {
            Some(s) => utf8_text(bytes@) == Some(s@),
            None => utf8_text(bytes@) is None,
        },
        bytes@.len() == 0 ==> r is Some,
{
    String::from_utf8(bytes).ok()
}

/// The view of an optional text.
pub open spec fn opt_text(s: Option<String>) -> Option<Seq<char>> {
    match s {
        Some(t) => Some(t@),
        None => None,
    }
}

/// The target of the request line that `buffer` starts with, as text.
pub open spec fn target_of(buffer: Seq<u8>) -> Option<Seq<char>> {
    match regex_first_group(REQUEST_PATTERN@, buffer) {
        Some(b) => utf8_text(b),
        None => None,
    }
}

/// The target of the request that `buffer` holds: nothing when the buffer
/// does not start with a GET request line, or its target is not UTF-8.
pub fn request_target(buffer: &[u8]) -> (r: Option<String>)
    ensures
        opt_text(r) == target_of(buffer@),
{
    match first_group(REQUEST_PATTERN, buffer) {
        Some(bytes) => decode_utf8(bytes),
        None => None,
    }
}

/// What the server does with a request.
pub enum Route {
    /// Serve the file that this target names.
    Serve(String),
    /// The request asks the server to die: the handler panics.
    Die,
    /// No target could be read: the request is logged and dropped.
    Invalid,
}

/// Decides what to do with the target read from a request, if any.
pub fn route(target: Option<String>) -> (r: Route)
    ensures
        target is None ==> r is Invalid,
        target is Some && target->0@ == DIE_TARGET@ ==> r is Die,
        target is Some && target->0@ != DIE_TARGET@ ==> r == Route::Serve(target->0),
{
    match target {
        Some(t) => {
            if t == String::from_str(DIE_TARGET) {
                Route::Die
            } else {
                Route::Serve(t)
            }
        },
        None => Route::Invalid,
    }
}

} // verus!
