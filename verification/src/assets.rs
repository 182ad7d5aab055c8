//! Host-provided local assets: every asset request of a webview is numbered
//! and kept pending until the host answers it once, with a file path or
//! inline content, a status and headers.

use vstd::prelude::*;
use vstd::string::*;
use vstd::utf8::encode_utf8;
use std::collections::HashMap;
use crate::text::{ascii_alphanumeric, concat, copy_text, decimal, decimal_text, eq_ignore_ascii_case, text_eq_ignore_ascii_case};

verus! {

/// The bridge command by which the host answers an asset request.
pub const RESPONSE_COMMAND: &'static str = "tauriless:asset-response";

/// The media type used when nothing else gives one.
pub const OCTET_STREAM: &'static str = "application/octet-stream";

/// The reason given for an answer with neither a path nor content.
pub const MISSING_BODY_ERROR: &'static str = "asset response requires either `path` or `content`";

/// The reason given for a status outside 100..=999.
pub const INVALID_STATUS_ERROR: &'static str = "invalid status code";

/// The reason `http` gives for a header name it refuses.
pub const INVALID_HEADER_NAME_ERROR: &'static str = "invalid HTTP header name";

/// The reason `http` gives for a header value it refuses.
pub const INVALID_HEADER_VALUE_ERROR: &'static str = "failed to parse header value";

/// A character of an HTTP token, which `http::HeaderName` accepts in a name:
/// an ASCII letter or digit, or one of `` !#$%&'*+-.^_`|~ ``.
pub open spec fn is_token_char(c: char) -> bool {
    ascii_alphanumeric(c) || c == '!' || c == '#' || c == '$' || c == '%' || c == '&' || c == '\'' || c == '*' || c
        == '+' || c == '-' || c == '.' || c == '^' || c == '_' || c == '`' || c == '|' || c == '~'
}

/// A name `http::HeaderName::from_bytes` accepts: 1 to 65535 token characters
/// (all ASCII, so as many bytes).
pub open spec fn is_header_name(name: Seq<char>) -> bool {
    1 <= name.len() <= 65535 && forall|i: int| 0 <= i < name.len() ==> is_token_char(#[trigger] name[i])
}

/// `http::HeaderName::from_bytes` on the name's UTF-8 bytes, as the response
/// builder converts a `String` name: it accepts exactly the names of 1 to
/// 65535 bytes that its table maps to a token character.
#[verifier::external_body]
fn header_name_ok(name: &str) -> (r: bool)
    ensures
        r == is_header_name(name@),
{
    http::HeaderName::from_bytes(name.as_bytes()).is_ok()
}

/// The reason `http` gives when a header map is full.
pub const MAX_SIZE_ERROR: &'static str = "max size reached";

/// The number of appends to a new header map that always succeed: a map with
/// at most 6553 distinct names never refuses one more.
pub const HEADER_APPENDS_THAT_FIT: usize = 6554;

/// `http::HeaderValue`, carried opaquely.
#[verifier::external_type_specification]
#[verifier::external_body]
pub struct ExHeaderValue(http::HeaderValue);

/// `http::HeaderMap`, carried opaquely.
#[verifier::external_type_specification]
#[verifier::external_body]
#[verifier::reject_recursive_types(T)]
pub struct ExHeaderMap<T>(http::HeaderMap<T>);

/// The number of distinct names in a header map (`HeaderMap::keys_len`).
pub uninterp spec fn header_map_key_count(map: http::HeaderMap<http::HeaderValue>) -> nat;

/// Whether `HeaderMap::try_append` succeeds on `map` with a name written `name`.
pub uninterp spec fn header_map_accepts(map: http::HeaderMap<http::HeaderValue>, name: Seq<char>) -> bool;

/// `http::HeaderMap::new`: an empty map.
#[verifier::external_body]
fn new_header_map() -> (r: http::HeaderMap<http::HeaderValue>)
    ensures
        header_map_key_count(r) == 0,
{
    http::HeaderMap::new()
}

/// `HeaderMap::try_append`, with the name and value converted as the response
/// builder converts them (both accepted, by `requires`). Whether it succeeds is
/// named; it adds at most one distinct name, and it succeeds whenever the map
/// holds at most 6553 distinct names: the map only refuses when growing its
/// index table past 32768 slots, which needs at least 6554 entries.
#[verifier::external_body]
fn append_header(map: &mut http::HeaderMap<http::HeaderValue>, name: &str, value: &str) -> (r: bool)
    requires
        is_header_name(name@),
        is_header_value(value@),
    ensures
        r == header_map_accepts(*old(map), name@),
        header_map_key_count(*final(map)) <= header_map_key_count(*old(map)) + 1,
        header_map_key_count(*old(map)) < HEADER_APPENDS_THAT_FIT ==> r,
{
    match (http::HeaderName::from_bytes(name.as_bytes()), http::HeaderValue::from_str(value)) {
        (Ok(name), Ok(value)) => map.try_append(name, value).is_ok(),
        _ => false,
    }
}

/// A character `http::HeaderValue` accepts: every byte of its UTF-8 encoding is
/// a tab, or at least 32 and not 127; so every non-ASCII character.
pub open spec fn is_header_value_char(c: char) -> bool {
    (c as u32) >= 128 || c == '\t' || ((c as u32) >= 32 && (c as u32) != 127)
}

/// A value `http::HeaderValue` accepts.
pub open spec fn is_header_value(value: Seq<char>) -> bool {
    forall|i: int| 0 <= i < value.len() ==> is_header_value_char(#[trigger] value[i])
}

/// `http::HeaderValue::from_str`: it accepts exactly the values whose bytes
/// are all a tab or at least 32 and not 127.
#[verifier::external_body]
fn header_value_ok(value: &str) -> (r: bool)
    ensures
        r == is_header_value(value@),
{
    http::HeaderValue::from_str(value).is_ok()
}

/// `http::StatusCode::from_u16`: it accepts exactly 100 to 999, and refuses
/// with the text `invalid status code`.
#[verifier::external_body]
fn check_status(status: u16) -> (r: Result<(), String>)
    ensures
        r is Ok <==> 100 <= status <= 999,
        r matches Err(m) ==> m@ == INVALID_STATUS_ERROR@,
{
    match http::StatusCode::from_u16(status) {
        Ok(_) => Ok(()),
        Err(error) => Err(error.to_string()),
    }
}

/// The header whose presence overrides the media type.
pub const CONTENT_TYPE_HEADER: &'static str = "content-type";

/// The media type of the response sent for an answer that failed.
pub const ERROR_CONTENT_TYPE: &'static str = "text/plain; charset=utf-8";

/// The status used when an answer gives none (200 OK).
pub fn default_status() -> (r: u16)
    ensures
        r == 200,
{
    200
}

/// What `mime_guess::from_path(path).first()` gives, as the essence
/// (`type/subtype`) of the media type: the first entry of mime_guess's static
/// table for the path's extension, compared without regard to ASCII case.
pub uninterp spec fn mime_guess_essence(path: Seq<char>) -> Option<Seq<char>>;

/// `mime_guess::from_path(path).first()` and `Mime::essence_str`. The result
/// is named, not stated: the table is mime_guess's. The extension is the one
/// `Path::extension` finds, which splits components at `/` on every target and
/// also at `\` on Windows, so a path holding `\` may be guessed differently
/// on the two. Every essence in the table is printable ASCII without
/// spaces, so a valid header value.
#[verifier::external_body]
fn guess_mime_essence(path: &str) -> (r: Option<String>)
    ensures
        match r {
            Some(x) => mime_guess_essence(path@) == Some(x@),
            None => mime_guess_essence(path@) is None,
        },
        r matches Some(x) ==> is_header_value(x@),
{
    match mime_guess::from_path(path).first() {
        Some(mime) => Some(mime.essence_str().to_owned()),
        None => None,
    }
}

/// The media type guessed for an answer: from the local path, else from the
/// requested URL path, else `application/octet-stream`.
pub open spec fn guessed_mime_spec(path: Option<Seq<char>>, url_path: Seq<char>) -> Seq<char> {
    let from_path = match path {
        Some(p) => mime_guess_essence(p),
        None => None,
    };
    match from_path {
        Some(m) => m,
        None => match mime_guess_essence(url_path) {
            Some(m) => m,
            None => OCTET_STREAM@,
        },
    }
}

/// Guesses the media type of an answer from its path and the requested URL path.
pub fn guessed_mime(path: Option<&str>, url_path: &str) -> (r: String)
    ensures
        r@ == guessed_mime_spec(
            match path {
                Some(p) => Some(p@),
                None => None,
            },
            url_path@,
        ),
        is_header_value(r@),
{
    proof {
        reveal_strlit("application/octet-stream");
    }
    let from_path = match path {
        Some(p) => guess_mime_essence(p),
        None => None,
    };
    match from_path {
        Some(m) => m,
        None => match guess_mime_essence(url_path) {
            Some(m) => m,
            None => OCTET_STREAM.to_owned(),
        },
    }
}

/// One response header, as the host gives it.
#[derive(Debug)]
pub struct Header {
    pub name: String,
    pub value: String,
}

/// The host's answer to an asset request.
#[derive(Debug)]
pub struct ResponsePayload {
    pub request_id: u64,
    pub status: u16,
    pub headers: Vec<Header>,
    pub mime: Option<String>,
    pub path: Option<String>,
    pub content: Option<String>,
}

/// Where the body of a response comes from.
#[derive(Debug)]
pub enum ResponseBody {
    /// These bytes.
    Bytes(Vec<u8>),
    /// The bytes of the file at this path, read by the caller.
    File(String),
}

/// The response to send for an answer: status, the host's headers in order,
/// then a `Content-Type` header when `content_type` is given, and the body.
#[derive(Debug)]
pub struct ResponsePlan {
    pub status: u16,
    pub headers: Vec<Header>,
    pub content_type: Option<String>,
    pub body: ResponseBody,
}

/// A status the HTTP status type accepts: three digits.
pub open spec fn is_valid_status(status: u16) -> bool {
    100 <= status <= 999
}

/// The headers include a `Content-Type`, in any ASCII case.
pub open spec fn has_content_type(headers: Seq<Header>) -> bool {
    exists|i: int| 0 <= i < headers.len() && eq_ignore_ascii_case(#[trigger] headers[i].name@, CONTENT_TYPE_HEADER@)
}

/// The `Content-Type` the bridge adds: none when the host sent one, else the
/// host's `mime`, else the guess.
pub open spec fn added_content_type(payload: ResponsePayload, url_path: Seq<char>) -> Option<Seq<char>> {
    if has_content_type(payload.headers@) {
        None
    } else {
        match payload.mime {
            Some(m) => Some(m@),
            None => Some(guessed_mime_spec(
                match payload.path {
                    Some(p) => Some(p@),
                    None => None,
                },
                url_path,
            )),
        }
    }
}

/// `plan` is the response `build_response` makes of `payload`: inline content
/// wins over a path.
pub open spec fn is_response_plan(plan: ResponsePlan, payload: ResponsePayload, url_path: Seq<char>) -> bool {
    &&& plan.status == payload.status
    &&& plan.headers@ == payload.headers@
    &&& match (plan.content_type, added_content_type(payload, url_path)) {
        (Some(x), Some(y)) => x@ == y,
        (None, None) => true,
        _ => false,
    }
    &&& match payload.content {
        Some(c) => plan.body matches ResponseBody::Bytes(b) && b@ == encode_utf8(c@),
        None => match payload.path {
            Some(p) => plan.body matches ResponseBody::File(f) && f@ == p@,
            None => false,
        },
    }
}

/// What the response builder refuses among the headers, in the order it adds
/// them: the host's headers, a name then a value each, then the added
/// `Content-Type` value; `None` when it accepts them all.
pub open spec fn header_problem(headers: Seq<Header>, content_type: Option<Seq<char>>) -> Option<Seq<char>>
    decreases headers.len(),
{
    if headers.len() == 0 {
        match content_type {
            Some(t) => if is_header_value(t) {
                None
            } else {
                Some(INVALID_HEADER_VALUE_ERROR@)
            },
            None => None,
        }
    } else if !is_header_name(headers[0].name@) {
        Some(INVALID_HEADER_NAME_ERROR@)
    } else if !is_header_value(headers[0].value@) {
        Some(INVALID_HEADER_VALUE_ERROR@)
    } else {
        header_problem(headers.drop_first(), content_type)
    }
}

/// The number of appends the response builder makes: one per header, and one
/// for an added `Content-Type`.
pub open spec fn header_append_count(headers: Seq<Header>, content_type: Option<Seq<char>>) -> int {
    headers.len() + if content_type is Some { 1int } else { 0int }
}

/// `r` is what the response builder reports of `headers` and the added
/// `Content-Type`: the first name or value it refuses, or a full header map.
/// The map can only be full with more than `HEADER_APPENDS_THAT_FIT` appends;
/// up to that many, `r` is exactly the first refused name or value.
pub open spec fn is_header_outcome(r: Option<Seq<char>>, headers: Seq<Header>, content_type: Option<Seq<char>>) -> bool {
    &&& (r == header_problem(headers, content_type) || r == Some(MAX_SIZE_ERROR@))
    &&& (header_append_count(headers, content_type) <= HEADER_APPENDS_THAT_FIT ==> r == header_problem(
        headers,
        content_type,
    ))
}

/// The error of a result, if any.
pub open spec fn error_of(r: Result<ResponsePlan, String>) -> Option<Seq<char>> {
    match r {
        Ok(_) => None,
        Err(m) => Some(m@),
    }
}

/// The view of an optional string.
pub open spec fn opt_view(o: Option<String>) -> Option<Seq<char>> {
    match o {
        Some(s) => Some(s@),
        None => None,
    }
}

/// The outcome of building a response: an invalid status first, then a
/// missing body, then, for inline content, a header the builder refuses; else
/// the plan. A plan that names a file has its headers checked once the file is
/// read (`complete_response`).
pub open spec fn is_build_outcome(r: Result<ResponsePlan, String>, payload: ResponsePayload, url_path: Seq<char>) -> bool {
    if !is_valid_status(payload.status) {
        r matches Err(m) && m@ == INVALID_STATUS_ERROR@
    } else if payload.content is None && payload.path is None {
        r matches Err(m) && m@ == MISSING_BODY_ERROR@
    } else if payload.content is Some {
        &&& is_header_outcome(error_of(r), payload.headers@, added_content_type(payload, url_path))
        &&& r matches Ok(plan) ==> is_response_plan(plan, payload, url_path)
    } else {
        r matches Ok(plan) && is_response_plan(plan, payload, url_path)
    }
}

/// The reason given for a file that could not be read.
pub open spec fn read_failure_message(path: Seq<char>, reason: Seq<char>) -> Seq<char> {
    "failed to read `"@ + path + "`: "@ + reason
}

/// The outcome of completing `plan` with the contents of its file (or why it
/// could not be read): a plan with inline bytes stays as it is; otherwise a
/// read failure first, then a header the builder refuses, else the plan with
/// the file's bytes.
pub open spec fn is_completion(r: Result<ResponsePlan, String>, plan: ResponsePlan, contents: Result<Vec<u8>, String>) -> bool {
    match plan.body {
        ResponseBody::Bytes(_) => r == Ok::<ResponsePlan, String>(plan),
        ResponseBody::File(path) => match contents {
            Err(reason) => r matches Err(m) && m@ == read_failure_message(path@, reason@),
            Ok(bytes) => {
                &&& is_header_outcome(error_of(r), plan.headers@, opt_view(plan.content_type))
                &&& r matches Ok(p) ==> p.status == plan.status && p.headers@ == plan.headers@
                    && opt_view(p.content_type) == opt_view(plan.content_type)
                    && (p.body matches ResponseBody::Bytes(b) && b@ == bytes@)
            },
        },
    }
}

/// What the response builder refuses among `headers` and `content_type`,
/// adding them in order to a header map as it does.
fn find_header_problem(headers: &Vec<Header>, content_type: &Option<String>) -> (r: Option<String>)
    ensures
        is_header_outcome(opt_view(r), headers@, opt_view(*content_type)),
{
    let mut map = new_header_map();
    let n = headers.len();
    let mut i: usize = 0;
    assert(headers@.subrange(0, n as int) =~= headers@);
    while i < n
        invariant
            n == headers@.len(),
            i <= n,
            header_problem(headers@, opt_view(*content_type)) == header_problem(
                headers@.subrange(i as int, n as int),
                opt_view(*content_type),
            ),
            header_map_key_count(map) <= i,
        decreases n - i,
    {
        let rest = Ghost(headers@.subrange(i as int, n as int));
        assert(rest@[0] == headers@[i as int]);
        assert(rest@.drop_first() =~= headers@.subrange(i + 1, n as int));
        if !header_name_ok(headers[i].name.as_str()) {
            return Some(INVALID_HEADER_NAME_ERROR.to_owned());
        }
        if !header_value_ok(headers[i].value.as_str()) {
            return Some(INVALID_HEADER_VALUE_ERROR.to_owned());
        }
        if !append_header(&mut map, headers[i].name.as_str(), headers[i].value.as_str()) {
            return Some(MAX_SIZE_ERROR.to_owned());
        }
        i = i + 1;
    }
    assert(headers@.subrange(n as int, n as int).len() == 0);
    match content_type {
        Some(t) => {
            if !header_value_ok(t.as_str()) {
                return Some(INVALID_HEADER_VALUE_ERROR.to_owned());
            }
            proof {
                reveal_strlit("content-type");
                assert(is_token_char('c'));
            }
            if !append_header(&mut map, CONTENT_TYPE_HEADER, t.as_str()) {
                return Some(MAX_SIZE_ERROR.to_owned());
            }
            None
        },
        None => None,
    }
}

fn headers_have_content_type(headers: &Vec<Header>) -> (r: bool)
    ensures
        r == has_content_type(headers@),
{
    let n = headers.len();
    let mut i: usize = 0;
    while i < n
        invariant
            n == headers@.len(),
            i <= n,
            forall|j: int| 0 <= j < i ==> !eq_ignore_ascii_case(#[trigger] headers@[j].name@, CONTENT_TYPE_HEADER@),
        decreases n - i,
    {
        if text_eq_ignore_ascii_case(headers[i].name.as_str(), CONTENT_TYPE_HEADER) {
            return true;
        }
        i = i + 1;
    }
    false
}

/// Builds the response for the host's answer to a request for `url_path`.
pub fn build_response(payload: ResponsePayload, url_path: &str) -> (r: Result<ResponsePlan, String>)
    ensures
        is_build_outcome(r, payload, url_path@),
        is_valid_status(payload.status) && !has_content_type(payload.headers@) && payload.mime is None
            ==> is_header_value(guessed_mime_spec(opt_view(payload.path), url_path@)),
{
    match check_status(payload.status) {
        Ok(()) => {},
        Err(reason) => return Err(reason),
    }
    let content_type = if headers_have_content_type(&payload.headers) {
        None
    } else {
        match &payload.mime {
            Some(m) => Some(m.clone()),
            None => {
                let path = match &payload.path {
                    Some(p) => Some(p.as_str()),
                    None => None,
                };
                Some(guessed_mime(path, url_path))
            },
        }
    };
    assert(opt_view(content_type) == added_content_type(payload, url_path@));
    let body = match &payload.content {
        Some(content) => {
            match find_header_problem(&payload.headers, &content_type) {
                Some(problem) => return Err(problem),
                None => {},
            }
            ResponseBody::Bytes(content.as_str().as_bytes_vec())
        },
        None => match &payload.path {
            Some(path) => ResponseBody::File(path.clone()),
            None => return Err(MISSING_BODY_ERROR.to_owned()),
        },
    };
    let ResponsePayload { status, headers, .. } = payload;
    Ok(ResponsePlan { status, headers, content_type, body })
}

/// Completes a plan that names a file with the file's contents, or why they
/// could not be read; the builder's header check comes after the read.
pub fn complete_response(plan: ResponsePlan, contents: Result<Vec<u8>, String>) -> (r: Result<ResponsePlan, String>)
    ensures
        is_completion(r, plan, contents),
{
    let path = match &plan.body {
        ResponseBody::Bytes(_) => return Ok(plan),
        ResponseBody::File(path) => path.clone(),
    };
    let bytes = match contents {
        Ok(bytes) => bytes,
        Err(reason) => {
            let head = concat("failed to read `", path.as_str());
            let head = concat(head.as_str(), "`: ");
            return Err(concat(head.as_str(), reason.as_str()));
        },
    };
    match find_header_problem(&plan.headers, &plan.content_type) {
        Some(problem) => return Err(problem),
        None => {},
    }
    let ResponsePlan { status, headers, content_type, .. } = plan;
    Ok(ResponsePlan { status, headers, content_type, body: ResponseBody::Bytes(bytes) })
}

/// The response sent for an answer that could not be built: 500, plain text,
/// the reason as the body.
pub fn error_response(error: &str) -> (r: ResponsePlan)
    ensures
        r.status == 500,
        r.headers@.len() == 0,
        r.content_type matches Some(t) && t@ == ERROR_CONTENT_TYPE@,
        r.body matches ResponseBody::Bytes(b) && b@ == encode_utf8(error@),
{
    ResponsePlan {
        status: 500,
        headers: Vec::new(),
        content_type: Some(ERROR_CONTENT_TYPE.to_owned()),
        body: ResponseBody::Bytes(error.as_bytes_vec()),
    }
}

/// The numbering and the pending asset requests: each pending request's
/// number and requested URL path.
pub struct AssetProtocol {
    next_id: u64,
    pending: HashMap<u64, String>,
}

/// The reason given for an answer to a request that is not pending.
pub open spec fn unknown_request_message(id: u64) -> Seq<char> {
    "unknown or already answered asset request "@ + decimal(id as nat)
}

/// What to do with the request an answer was for.
#[derive(Debug)]
pub enum Answer {
    /// Send this response.
    Respond(ResponsePlan),
    /// Send `error_response` of this reason, and report the reason to the host.
    Fail(String),
}

/// `after` is what numbering a request for `url_path` makes of `before`, the
/// request getting `id`: the number `before` had next, the next number one
/// more (wrapping after `u64::MAX`), and the request pending under `id`.
pub open spec fn begun(before: AssetProtocol, after: AssetProtocol, url_path: Seq<char>, id: u64) -> bool {
    &&& id == before.next_request_id()
    &&& after.next_request_id() == if id == u64::MAX { 0 } else { (id + 1) as u64 }
    &&& after.pending_map() == before.pending_map().insert(id, url_path)
}

/// `after` is what the host's answer `payload` (or why it could not be read)
/// makes of `before`, answered with `r`: an unreadable answer or one to a
/// request that is not pending is refused and changes nothing; an answer to a
/// pending request ends it and gives the response built for its URL path, or
/// why none could be built.
pub open spec fn answered(
    before: AssetProtocol,
    after: AssetProtocol,
    payload: Result<ResponsePayload, String>,
    r: Result<Answer, String>,
) -> bool {
    &&& after.next_request_id() == before.next_request_id()
    &&& match payload {
        Err(reason) => r matches Err(m) && m@ == reason@ && after.pending_map() == before.pending_map(),
        Ok(p) => if !before.pending_map().dom().contains(p.request_id) {
            r matches Err(m) && m@ == unknown_request_message(p.request_id)
                && after.pending_map() == before.pending_map()
        } else {
            &&& after.pending_map() == before.pending_map().remove(p.request_id)
            &&& r matches Ok(answer)
            &&& match answer {
                Answer::Respond(plan) => is_build_outcome(Ok(plan), p, before.pending_map()[p.request_id]),
                Answer::Fail(m) => is_build_outcome(Err(m), p, before.pending_map()[p.request_id]),
            }
        },
    }
}

impl AssetProtocol {
    /// The number the next request gets.
    pub closed spec fn next_request_id(&self) -> u64 {
        self.next_id
    }

    /// The pending requests: number to requested URL path.
    pub closed spec fn pending_map(&self) -> Map<u64, Seq<char>> {
        self.pending@.map_values(|url_path: String| url_path@)
    }

    /// Nothing pending; the first request gets number 1.
    pub fn new() -> (r: Self)
        ensures
            r.next_request_id() == 1,
            r.pending_map() == Map::<u64, Seq<char>>::empty(),
    {
        let r = AssetProtocol { next_id: 1, pending: HashMap::new() };
        assert(r.pending_map() =~= Map::<u64, Seq<char>>::empty());
        r
    }

    /// Numbers a new request for `url_path` and keeps it pending. Numbers
    /// count up from 1 and wrap around after `u64::MAX`; a request that still
    /// waits under a reused number is replaced.
    pub fn begin_request(&mut self, url_path: String) -> (id: u64)
        ensures
            begun(*old(self), *final(self), url_path@, id),
    {
        broadcast use vstd::std_specs::hash::group_hash_axioms;

        let id = self.next_id;
        self.next_id = self.next_id.wrapping_add(1);
        let ghost path = url_path@;
        self.pending.insert(id, url_path);
        assert(self.pending_map() =~= old(self).pending_map().insert(id, path));
        id
    }

    /// Whether request `id` is pending.
    pub fn is_pending(&self, id: u64) -> (r: bool)
        ensures
            r == self.pending_map().dom().contains(id),
    {
        broadcast use vstd::std_specs::hash::group_hash_axioms;

        self.pending.contains_key(&id)
    }

    /// Takes the host's answer: `payload` is the answer, or why it could not
    /// be read. A readable answer to a pending request ends that request and
    /// gives what to send; an answer to a request that is not pending is an
    /// error and changes nothing.
    pub fn respond(&mut self, payload: Result<ResponsePayload, String>) -> (r: Result<Answer, String>)
        ensures
            answered(*old(self), *final(self), payload, r),
    {
        broadcast use vstd::std_specs::hash::group_hash_axioms;

        let payload = match payload {
            Ok(p) => p,
            Err(reason) => return Err(reason),
        };
        let id = payload.request_id;
        match self.pending.remove(&id) {
            None => {
                assert(self.pending_map() =~= old(self).pending_map());
                let text = decimal_text(id);
                Err(concat("unknown or already answered asset request ", text.as_str()))
            },
            Some(url_path) => {
                assert(self.pending_map() =~= old(self).pending_map().remove(id));
                assert(old(self).pending_map()[id] == url_path@);
                match build_response(payload, url_path.as_str()) {
                    Ok(plan) => Ok(Answer::Respond(plan)),
                    Err(reason) => Ok(Answer::Fail(reason)),
                }
            },
        }
    }
}

/// A numbered request is answered with the response built for its own URL
/// path: answering it ends it, and the pending requests are then those
/// before it was numbered, without its number.
pub proof fn law_numbered_request_is_answered(
    a0: AssetProtocol,
    a1: AssetProtocol,
    a2: AssetProtocol,
    url_path: Seq<char>,
    id: u64,
    payload: ResponsePayload,
    r: Result<Answer, String>,
)
    requires
        begun(a0, a1, url_path, id),
        answered(a1, a2, Ok(payload), r),
        payload.request_id == id,
    ensures
        r matches Ok(answer) && match answer {
            Answer::Respond(plan) => is_build_outcome(Ok(plan), payload, url_path),
            Answer::Fail(m) => is_build_outcome(Err(m), payload, url_path),
        },
        a2.pending_map() == a0.pending_map().remove(id),
{
    assert(a1.pending_map().dom().contains(id));
    assert(a0.pending_map().insert(id, url_path).remove(id) =~= a0.pending_map().remove(id));
}

/// A request is answered at most once: after an answer to a pending request,
/// a second answer with the same number is refused as unknown or already
/// answered, and changes nothing.
pub proof fn law_request_is_answered_once(
    a0: AssetProtocol,
    a1: AssetProtocol,
    a2: AssetProtocol,
    first: ResponsePayload,
    r1: Result<Answer, String>,
    second: ResponsePayload,
    r2: Result<Answer, String>,
)
    requires
        a0.pending_map().dom().contains(first.request_id),
        answered(a0, a1, Ok(first), r1),
        answered(a1, a2, Ok(second), r2),
        second.request_id == first.request_id,
    ensures
        r2 matches Err(m) && m@ == unknown_request_message(first.request_id),
        a2.pending_map() == a1.pending_map(),
{
}

/// Consecutive requests get consecutive numbers, so two requests numbered one
/// after the other never share a number.
pub proof fn law_consecutive_requests_differ(
    a0: AssetProtocol,
    a1: AssetProtocol,
    a2: AssetProtocol,
    first_path: Seq<char>,
    first: u64,
    second_path: Seq<char>,
    second: u64,
)
    requires
        begun(a0, a1, first_path, first),
        begun(a1, a2, second_path, second),
    ensures
        first != second,
        a2.pending_map().dom().contains(first) && a2.pending_map()[first] == first_path,
        a2.pending_map().dom().contains(second) && a2.pending_map()[second] == second_path,
{
}

/// The host's media type wins: when none of the host's headers is a
/// `Content-Type` (in any ASCII case) and the host gave a `mime`, a built
/// response carries exactly that `mime` as its `Content-Type`, whether its body
/// is inline content or a file; and an answer that names a file, with a valid
/// status, is always built.
pub proof fn law_host_mime_is_the_content_type(payload: ResponsePayload, url_path: Seq<char>, r: Result<ResponsePlan, String>)
    requires
        is_build_outcome(r, payload, url_path),
        payload.mime is Some,
        forall|i: int| 0 <= i < payload.headers@.len() ==> !eq_ignore_ascii_case(
            #[trigger] payload.headers@[i].name@,
            "content-type"@,
        ),
    ensures
        match payload.mime {
            Some(m) => r matches Ok(plan) ==> (plan.content_type matches Some(t) && t@ == m@),
            None => true,
        },
        100 <= payload.status <= 999 && payload.content is None && payload.path is Some ==> r is Ok,
{
    reveal_strlit("content-type");
    assert(CONTENT_TYPE_HEADER@ == "content-type"@);
    if has_content_type(payload.headers@) {
        let i = choose|i: int| 0 <= i < payload.headers@.len() && eq_ignore_ascii_case(
            #[trigger] payload.headers@[i].name@,
            CONTENT_TYPE_HEADER@,
        );
        assert(!eq_ignore_ascii_case(payload.headers@[i].name@, "content-type"@));
    }
}


} // verus!
