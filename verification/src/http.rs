//! The logical side of the HTTP surface: which route a request names,
//! which form the answer takes, and how chunks are framed as events.

use crate::children;
use crate::dependency::{read, Dependency};
use crate::fault::Fault;
use crate::id::{parsed, printed, views, Id, IdView, Kind};
use crate::log;
use crate::outside::{
    json_array, json_array_text, json_chunk, json_chunk_text, mime_names, mime_parts,
    percent_decode, percent_decoded, query_text,
};
use crate::query::{
    children_arg_from_query, children_arg_of_query, children_arg_to_query, children_pairs,
    log_arg_to_query, log_pairs,
};
use crate::sse::{event_text, sse_event};
use crate::text::{
    find_char, first_index, optional_pair_view, optional_view, text_eq, text_views,
};
use vstd::prelude::*;
use vstd::string::*;

verus! {

/// The form that the answer to a read of a stream takes.
#[derive(Clone, Copy, Debug, PartialEq, Eq, Structural)]
pub enum Format {
    /// The whole stream, collected into one body.
    Json,
    /// One event for each chunk.
    EventStream,
}

/// What a request wants done.
#[derive(Clone, Copy, Debug, PartialEq, Eq, Structural)]
pub enum Method {
    Get,
    Put,
    Post,
}

/// What of a build a request is about.
#[derive(Clone, Copy, Debug, PartialEq, Eq, Structural)]
pub enum Resource {
    Build,
    Children,
    Log,
    Status,
}

/// A request that the server knows how to answer.
#[derive(Clone, Debug, PartialEq, Eq)]
pub struct Route {
    pub method: Method,
    pub resource: Resource,
    pub id: Id,
}

/// How the status of a response is to be taken.
#[derive(Clone, Copy, Debug, PartialEq, Eq, Structural)]
pub enum Reply {
    /// The resource is not there.
    NotFound,
    /// The request failed, and the body says how.
    Failure,
    /// The request succeeded.
    Success,
}

/// An answer to a request.
#[derive(Clone, Debug, PartialEq, Eq)]
pub struct Response {
    pub status: u16,
    pub content_type: Option<String>,
    pub body: String,
}

/// The mathematical value of a `Response`.
pub struct ResponseView {
    pub status: u16,
    pub content_type: Option<Seq<char>>,
    pub body: Seq<char>,
}

/// A request to a peer.
#[derive(Clone, Debug, PartialEq, Eq)]
pub struct Request {
    pub method: Method,
    pub uri: String,
    pub accept: Option<String>,
    pub content_type: Option<String>,
}

/// The mathematical value of a `Request`.
pub struct RequestView {
    pub method: Method,
    pub uri: Seq<char>,
    pub accept: Option<Seq<char>>,
    pub content_type: Option<Seq<char>>,
}

/// What a request for the children of a build asks for, once it was read.
#[derive(Clone, Debug, PartialEq, Eq)]
pub struct ChildrenRequest {
    pub id: Id,
    pub arg: children::Arg,
    /// The two names of the media type of the `Accept` header, if there is one.
    pub accept: Option<(String, String)>,
}

impl View for Response {
    type V = ResponseView;

    open spec fn view(&self) -> ResponseView {
        ResponseView {
            status: self.status,
            content_type: optional_view(self.content_type),
            body: self.body@,
        }
    }
}

impl View for Request {
    type V = RequestView;

    open spec fn view(&self) -> RequestView {
        RequestView {
            method: self.method,
            uri: self.uri@,
            accept: optional_view(self.accept),
            content_type: optional_view(self.content_type),
        }
    }
}

/// The media type of an answer in a form.
pub open spec fn content_type_text(format: Format) -> Seq<char> {
    match format {
        Format::Json => "application/json"@,
        Format::EventStream => "text/event-stream"@,
    }
}

/// The JSON object that stands for a chunk of children: its position
/// under `position`, then its children, as they are written, under `items`.
pub open spec fn chunk_json(chunk: children::Chunk) -> Option<Seq<char>> {
    json_chunk_text("position"@, chunk.position, "items"@, printed_all(views(chunk.items@)))
}

/// The events that carry a sequence of chunks of children, one after the
/// other, or `None` when a chunk cannot be written as JSON.
pub open spec fn events_text(chunks: Seq<children::Chunk>) -> Option<Seq<char>>
    decreases chunks.len(),
{
    if chunks.len() == 0 {
        Some(Seq::empty())
    } else {
        match (events_text(chunks.drop_last()), chunk_json(chunks.last())) {
            (Some(before), Some(json)) => Some(before + event_text(json)),
            _ => None,
        }
    }
}

/// The body that answers a read of children in a form: one JSON array of
/// all children, or one event for each chunk.
pub open spec fn children_body(format: Format, chunks: Seq<children::Chunk>) -> Option<Seq<char>> {
    match format {
        Format::Json => Some(
            json_array_text(printed_all(crate::cursor::joined(children::parts(chunks)))),
        ),
        Format::EventStream => events_text(chunks),
    }
}

/// What a request for the children of a build asks for: the identifier
/// must be that of a build, the query must be readable, and the `Accept`
/// header, if there is one, must name a media type.
pub open spec fn children_request_of(
    id: Seq<char>,
    query: Option<Seq<char>>,
    accept: Option<Seq<char>>,
) -> Option<(IdView, children::Arg, Option<(Seq<char>, Seq<char>)>)> {
    match (build_id(id), children_arg_of_query(query)) {
        (Some(id), Some(arg)) => match accept {
            None => Some((id, arg, None)),
            Some(text) => match mime_names(text) {
                Some(names) => Some((id, arg, Some(names))),
                None => None,
            },
        },
        _ => None,
    }
}

/// The form that the two names of an accepted media type call for:
/// JSON when nothing is said, for `*/*` and for `application/json`; events
/// for `text/event-stream`; `None` for anything else.
pub open spec fn format_of(accept: Option<(Seq<char>, Seq<char>)>) -> Option<Format> {
    match accept {
        None => Some(Format::Json),
        Some((kind, subkind)) => if (kind == "*"@ && subkind == "*"@) || (kind == "application"@
            && subkind == "json"@) {
            Some(Format::Json)
        } else if kind == "text"@ && subkind == "event-stream"@ {
            Some(Format::EventStream)
        } else {
            None
        },
    }
}

/// The form that an `Accept` header calls for, or `None` when the header
/// names no media type that the server can answer in.
pub open spec fn negotiated(header: Option<Seq<char>>) -> Option<Format> {
    match header {
        None => Some(Format::Json),
        Some(text) => match mime_names(text) {
            Some(names) => format_of(Some(names)),
            None => None,
        },
    }
}

/// The parts of a path between its slashes.
pub open spec fn segments(s: Seq<char>) -> Seq<Seq<char>>
    decreases s.len(),
{
    let i = first_index(s, '/');
    if 0 <= i < s.len() {
        seq![s.subrange(0, i)] + segments(s.subrange(i + 1, s.len() as int))
    } else {
        seq![s]
    }
}

/// The resource that the part of a path behind the identifier names.
pub open spec fn resource_of(rest: Seq<Seq<char>>) -> Option<Resource> {
    if rest.len() == 0 {
        Some(Resource::Build)
    } else if rest.len() == 1 && rest[0] == "children"@ {
        Some(Resource::Children)
    } else if rest.len() == 1 && rest[0] == "log"@ {
        Some(Resource::Log)
    } else if rest.len() == 1 && rest[0] == "status"@ {
        Some(Resource::Status)
    } else {
        None
    }
}

/// Whether a resource can be asked for in this way.
pub open spec fn offered(method: Method, resource: Resource) -> bool {
    match (method, resource) {
        (Method::Get, _) => true,
        (Method::Put, Resource::Build) => true,
        (Method::Post, Resource::Children) => true,
        (Method::Post, Resource::Log) => true,
        _ => false,
    }
}

/// The build that a text names: an identifier of a build.
pub open spec fn build_id(s: Seq<char>) -> Option<IdView> {
    match parsed(s) {
        Some(id) => if id.kind == Kind::Build {
            Some(id)
        } else {
            None
        },
        None => None,
    }
}

/// What a request names: a path `/builds/{id}`, or that path and
/// `/children`, `/log` or `/status` behind it, asked for in a way that the
/// resource offers. `NotFound` for any other path or way, `Invalid` when
/// the identifier is not that of a build.
pub open spec fn route_of(method: Method, path: Seq<char>) -> Result<
    (Method, Resource, IdView),
    Fault,
> {
    let parts = segments(path);
    if parts.len() >= 3 && parts[0].len() == 0 && parts[1] == "builds"@ {
        match resource_of(parts.skip(3)) {
            Some(resource) => if offered(method, resource) {
                match build_id(parts[2]) {
                    Some(id) => Ok((method, resource, id)),
                    None => Err(Fault::Invalid),
                }
            } else {
                Err(Fault::NotFound)
            },
            None => Err(Fault::NotFound),
        }
    } else {
        Err(Fault::NotFound)
    }
}

/// The part of a path `/packages/{dependency}/doc` that names the
/// dependency, as it is written in the path; `None` for any other path.
pub open spec fn package_doc_of(path: Seq<char>) -> Option<Seq<char>> {
    let parts = segments(path);
    if parts.len() == 4 && parts[0].len() == 0 && parts[1] == "packages"@ && parts[3] == "doc"@ {
        Some(parts[2])
    } else {
        None
    }
}

/// How each of a sequence of identifiers is written.
pub open spec fn printed_all(ids: Seq<IdView>) -> Seq<Seq<char>> {
    Seq::new(ids.len(), |i: int| printed(ids[i]))
}

/// How the status of a response is to be taken: 404 says that the
/// resource is not there, 200 to 299 that the request succeeded, and any
/// other status that it failed.
pub open spec fn reply_of(status: u16) -> Reply {
    if status == 404 {
        Reply::NotFound
    } else if 200 <= status < 300 {
        Reply::Success
    } else {
        Reply::Failure
    }
}

/// The path of a resource of a build.
pub open spec fn path_text(id: IdView, resource: Resource) -> Seq<char> {
    "/builds/"@ + printed(id) + (match resource {
        Resource::Build => ""@,
        Resource::Children => "/children"@,
        Resource::Log => "/log"@,
        Resource::Status => "/status"@,
    })
}

impl Format {
    /// The media type of an answer in this form.
    pub fn content_type(&self) -> (r: &'static str)
        ensures
            r@ == content_type_text(*self),
    {
        match self {
            Format::Json => "application/json",
            Format::EventStream => "text/event-stream",
        }
    }
}

/// The form that the two names of an accepted media type call for;
/// `Invalid` when the server cannot answer in that media type.
pub fn choose_format(accept: &Option<(String, String)>) -> (r: Result<Format, Fault>)
    ensures
        match r {
            Ok(format) => format_of(optional_pair_view(*accept)) == Some(format),
            Err(e) => e == Fault::Invalid && format_of(optional_pair_view(*accept)) is None,
        },
{
    match accept {
        None => Ok(Format::Json),
        Some(names) => {
            let kind: &str = names.0.as_str();
            let subkind: &str = names.1.as_str();
            if (text_eq(kind, "*") && text_eq(subkind, "*")) || (text_eq(kind, "application")
                && text_eq(subkind, "json")) {
                Ok(Format::Json)
            } else if text_eq(kind, "text") && text_eq(subkind, "event-stream") {
                Ok(Format::EventStream)
            } else {
                Err(Fault::Invalid)
            }
        },
    }
}

/// The form that an `Accept` header calls for; `Invalid` when the header
/// names no media type that the server can answer in.
pub fn negotiate(header: Option<&str>) -> (r: Result<Format, Fault>)
    ensures
        match r {
            Ok(format) => negotiated(
                match header {
                    Some(h) => Some(h@),
                    None => None,
                },
            ) == Some(format),
            Err(e) => e == Fault::Invalid && negotiated(
                match header {
                    Some(h) => Some(h@),
                    None => None,
                },
            ) is None,
        },
{
    match header {
        None => Ok(Format::Json),
        Some(text) => match mime_parts(text) {
            Some(names) => choose_format(&Some(names)),
            None => Err(Fault::Invalid),
        },
    }
}

/// The parts of a path between its slashes.
pub fn split(path: &str) -> (parts: Vec<String>)
    ensures
        text_views(parts@) == segments(path@),
{
    let mut parts: Vec<String> = Vec::new();
    let mut rest: &str = path;
    assert(text_views(parts@) =~= Seq::<Seq<char>>::empty());
    loop
        invariant
            segments(path@) == text_views(parts@) + segments(rest@),
        decreases rest@.len(),
    {
        let n: usize = rest.unicode_len();
        let ghost held = text_views(parts@);
        match find_char(rest, '/') {
            Some(i) => {
                parts.push(rest.substring_char(0, i).to_owned());
                let ghost whole = rest@;
                rest = rest.substring_char(i + 1, n);
                proof {
                    assert(text_views(parts@) =~= held.push(whole.subrange(0, i as int)));
                    assert(held + (seq![whole.subrange(0, i as int)] + segments(rest@)) =~= held.push(
                        whole.subrange(0, i as int),
                    ) + segments(rest@));
                }
            },
            None => {
                parts.push(rest.to_owned());
                proof {
                    assert(text_views(parts@) =~= held + seq![rest@]);
                }
                return parts;
            },
        }
    }
}

fn read_build_id(text: &str) -> (r: Option<Id>)
    ensures
        build_id(text@) == (match r {
            Some(id) => Some(id@),
            None => None,
        }),
{
    match Id::parse(text) {
        Ok(id) => if id.kind == Kind::Build {
            Some(id)
        } else {
            None
        },
        Err(_) => None,
    }
}

/// What a request names. `NotFound` for a path or a way of asking that
/// the server does not know, `Invalid` when the identifier in the path is
/// not that of a build.
pub fn route(method: Method, path: &str) -> (r: Result<Route, Fault>)
    ensures
        match route_of(method, path@) {
            Ok(named) => r matches Ok(found) && (found.method, found.resource, found.id@) == named,
            Err(e) => r matches Err(f) && f == e,
        },
{
    let parts: Vec<String> = split(path);
    let ghost all = text_views(parts@);
    if parts.len() < 3 {
        return Err(Fault::NotFound);
    }
    assert(all[0] == parts@[0]@);
    assert(all[1] == parts@[1]@);
    assert(all[2] == parts@[2]@);
    if parts[0].as_str().unicode_len() != 0 || !text_eq(parts[1].as_str(), "builds") {
        return Err(Fault::NotFound);
    }
    let resource: Resource = if parts.len() == 3 {
        Resource::Build
    } else if parts.len() == 4 {
        assert(all.skip(3)[0] == parts@[3]@);
        let last: &str = parts[3].as_str();
        if text_eq(last, "children") {
            Resource::Children
        } else if text_eq(last, "log") {
            Resource::Log
        } else if text_eq(last, "status") {
            Resource::Status
        } else {
            return Err(Fault::NotFound);
        }
    } else {
        return Err(Fault::NotFound);
    };
    let offered: bool = match (method, resource) {
        (Method::Get, _) => true,
        (Method::Put, Resource::Build) => true,
        (Method::Post, Resource::Children) => true,
        (Method::Post, Resource::Log) => true,
        _ => false,
    };
    if !offered {
        return Err(Fault::NotFound);
    }
    match read_build_id(parts[2].as_str()) {
        Some(id) => Ok(Route { method, resource, id }),
        None => Err(Fault::Invalid),
    }
}

/// The part of a path `/packages/{dependency}/doc` that names the
/// dependency, still percent-encoded; `None` for any other path.
pub fn package_doc_segment(path: &str) -> (r: Option<String>)
    ensures
        optional_view(r) == package_doc_of(path@),
{
    let parts: Vec<String> = split(path);
    let ghost all = text_views(parts@);
    if parts.len() != 4 {
        return None;
    }
    assert(all[0] == parts@[0]@);
    assert(all[1] == parts@[1]@);
    assert(all[2] == parts@[2]@);
    assert(all[3] == parts@[3]@);
    if parts[0].as_str().unicode_len() == 0 && text_eq(parts[1].as_str(), "packages") && text_eq(
        parts[3].as_str(),
        "doc",
    ) {
        Some(parts[2].clone())
    } else {
        None
    }
}

fn print_all(ids: &Vec<Id>) -> (texts: Vec<String>)
    ensures
        text_views(texts@) == printed_all(views(ids@)),
{
    let mut texts: Vec<String> = Vec::new();
    let mut i: usize = 0;
    while i < ids.len()
        invariant
            i <= ids.len(),
            texts.len() == i,
            forall|j: int| 0 <= j < i ==> texts@[j]@ == printed(ids@[j]@),
        decreases ids.len() - i,
    {
        texts.push(ids[i].to_string());
        i += 1;
    }
    assert(text_views(texts@) =~= printed_all(views(ids@)));
    texts
}

/// The body that answers a read of children in one piece: the children
/// of all chunks, in order, as a JSON array of identifiers.
pub fn children_json(chunks: &Vec<children::Chunk>) -> (body: String)
    ensures
        body@ == json_array_text(
            printed_all(crate::cursor::joined(children::parts(chunks@))),
        ),
{
    let items: Vec<Id> = children::collect(chunks);
    json_array(&print_all(&items))
}

/// The event that carries a chunk of children: the chunk as a JSON
/// object, framed. `None` when the chunk cannot be written as JSON.
pub fn children_event(chunk: &children::Chunk) -> (r: Option<String>)
    ensures
        optional_view(r) == (match chunk_json(*chunk) {
            Some(json) => Some(event_text(json)),
            None => None,
        }),
{
    match json_chunk("position", chunk.position, "items", &print_all(&chunk.items)) {
        Some(json) => Some(sse_event(json.as_str())),
        None => None,
    }
}

/// How the status of a response is to be taken.
pub fn classify(status: u16) -> (r: Reply)
    ensures
        r == reply_of(status),
{
    if status == 404 {
        Reply::NotFound
    } else if 200 <= status && status < 300 {
        Reply::Success
    } else {
        Reply::Failure
    }
}

/// The path of a resource of a build.
pub fn path(id: &Id, resource: Resource) -> (s: String)
    ensures
        s@ == path_text(id@, resource),
{
    let mut s: String = "/builds/".to_owned();
    s.append(id.to_string().as_str());
    s.append(
        match resource {
            Resource::Build => "",
            Resource::Children => "/children",
            Resource::Log => "/log",
            Resource::Status => "/status",
        },
    );
    s
}

/// The path and query with which a reader of a log is asked for. `None`
/// when what the reader asks for cannot be written as a query.
pub fn log_uri(id: &Id, arg: &log::Arg) -> (r: Option<String>)
    ensures
        optional_view(r) == (match query_text(log_pairs(*arg)) {
            Some(query) => Some(path_text(id@, Resource::Log) + "?"@ + query),
            None => None,
        }),
{
    match log_arg_to_query(arg) {
        Some(query) => {
            let mut s: String = path(id, Resource::Log);
            s.append("?");
            s.append(query.as_str());
            Some(s)
        },
        None => None,
    }
}

/// The path and query with which a reader of children is asked for.
/// `None` when what the reader asks for cannot be written as a query.
pub fn children_uri(id: &Id, arg: &children::Arg) -> (r: Option<String>)
    ensures
        optional_view(r) == (match query_text(children_pairs(*arg)) {
            Some(query) => Some(path_text(id@, Resource::Children) + "?"@ + query),
            None => None,
        }),
{
    match children_arg_to_query(arg) {
        Some(query) => {
            let mut s: String = path(id, Resource::Children);
            s.append("?");
            s.append(query.as_str());
            Some(s)
        },
        None => None,
    }
}

/// The path under which a package is withdrawn.
pub fn yank_path(id: &Id) -> (s: String)
    ensures
        s@ == "/packages/"@ + printed(id@) + "/yank"@,
{
    let mut s: String = "/packages/".to_owned();
    s.append(id.to_string().as_str());
    s.append("/yank");
    s
}

/// The dependency that a percent-encoded part of a path names; `Invalid`
/// when the part does not decode to a text or the text reads as no
/// dependency.
pub fn dependency_of_segment(segment: &str) -> (r: Result<Dependency, Fault>)
    ensures
        match r {
            Ok(d) => percent_decoded(segment@) matches Some(text) && read(text) == Some(d@),
            Err(e) => e == Fault::Invalid && (percent_decoded(segment@) matches Some(text) ==> read(
                text,
            ) is None),
        },
{
    match percent_decode(segment) {
        Some(text) => Dependency::parse(text.as_str()),
        None => Err(Fault::Invalid),
    }
}

impl Method {
    /// The name of the method.
    pub fn as_str(&self) -> (r: &'static str)
        ensures
            r@ == (match *self {
                Method::Get => "GET"@,
                Method::Put => "PUT"@,
                Method::Post => "POST"@,
            }),
    {
        match self {
            Method::Get => "GET",
            Method::Put => "PUT",
            Method::Post => "POST",
        }
    }
}

/// Reads a request for the children of a build; `Invalid` when the
/// identifier is not that of a build, the query cannot be read, or the
/// `Accept` header names no media type.
pub fn read_children_request(id: &str, query: Option<&str>, accept: Option<&str>) -> (r: Result<
    ChildrenRequest,
    Fault,
>)
    ensures
        match children_request_of(
            id@,
            match query {
                Some(q) => Some(q@),
                None => None,
            },
            match accept {
                Some(a) => Some(a@),
                None => None,
            },
        ) {
            Some(asked) => r matches Ok(request) && (
                request.id@,
                request.arg,
                optional_pair_view(request.accept),
            ) == asked,
            None => r matches Err(e) && e == Fault::Invalid,
        },
{
    let id: Id = match read_build_id(id) {
        Some(id) => id,
        None => {
            return Err(Fault::Invalid);
        },
    };
    let arg: children::Arg = match children_arg_from_query(query) {
        Ok(arg) => arg,
        Err(e) => {
            return Err(e);
        },
    };
    let accept: Option<(String, String)> = match accept {
        None => None,
        Some(text) => match mime_parts(text) {
            Some(names) => Some(names),
            None => {
                return Err(Fault::Invalid);
            },
        },
    };
    Ok(ChildrenRequest { id, arg, accept })
}

/// The events that carry a sequence of chunks of children, one after the
/// other. `None` when a chunk cannot be written as JSON.
pub fn children_events(chunks: &Vec<children::Chunk>) -> (r: Option<String>)
    ensures
        optional_view(r) == events_text(chunks@),
{
    let mut body: String = String::new();
    let mut i: usize = 0;
    assert(chunks@.take(0) =~= Seq::<children::Chunk>::empty());
    while i < chunks.len()
        invariant
            i <= chunks.len(),
            events_text(chunks@.take(i as int)) == Some(body@),
        decreases chunks.len() - i,
    {
        proof {
            let next = chunks@.take(i + 1);
            assert(next.drop_last() =~= chunks@.take(i as int));
            assert(next.last() == chunks@[i as int]);
        }
        match children_event(&chunks[i]) {
            Some(event) => {
                body.append(event.as_str());
            },
            None => {
                proof {
                    lemma_events_fail(chunks@, i + 1);
                }
                return None;
            },
        }
        i += 1;
    }
    assert(chunks@.take(chunks.len() as int) =~= chunks@);
    Some(body)
}

/// Once a chunk cannot be written, no later chunk mends the body.
proof fn lemma_events_fail(chunks: Seq<children::Chunk>, n: int)
    requires
        0 <= n <= chunks.len(),
        events_text(chunks.take(n)) is None,
    ensures
        events_text(chunks) is None,
    decreases chunks.len() - n,
{
    if n < chunks.len() {
        assert(chunks.take(n + 1).drop_last() =~= chunks.take(n));
        lemma_events_fail(chunks, n + 1);
    } else {
        assert(chunks.take(n) =~= chunks);
    }
}

/// The answer to a read of children that found the build: status 200,
/// the media type of the form, and the chunks as the form writes them.
/// `None` when a chunk cannot be written as JSON.
pub fn children_response(format: Format, chunks: &Vec<children::Chunk>) -> (r: Option<Response>)
    ensures
        match children_body(format, chunks@) {
            Some(body) => r matches Some(response) && response@ == (ResponseView {
                status: 200,
                content_type: Some(content_type_text(format)),
                body,
            }),
            None => r is None,
        },
{
    let body: String = match format {
        Format::Json => children_json(chunks),
        Format::EventStream => match children_events(chunks) {
            Some(body) => body,
            None => {
                return None;
            },
        },
    };
    Some(Response { status: 200, content_type: Some(format.content_type().to_owned()), body })
}

/// The answer to a request that failed: the status that the kind of
/// failure calls for, and the body that says what went wrong.
pub fn fault_response(fault: Fault, body: String) -> (response: Response)
    ensures
        response.status == fault.status_code_spec(),
        response.content_type is None,
        response.body == body,
{
    Response { status: fault.status_code(), content_type: None, body }
}

/// The request that opens a reader on the log of a build at a peer: the
/// answer is asked for as events. `None` when what the reader asks for
/// cannot be written as a query.
pub fn get_log_request(id: &Id, arg: &log::Arg) -> (r: Option<Request>)
    ensures
        match query_text(log_pairs(*arg)) {
            Some(query) => r matches Some(request) && request@ == (RequestView {
                method: Method::Get,
                uri: path_text(id@, Resource::Log) + "?"@ + query,
                accept: Some("text/event-stream"@),
                content_type: None,
            }),
            None => r is None,
        },
{
    match log_uri(id, arg) {
        Some(uri) => Some(
            Request {
                method: Method::Get,
                uri,
                accept: Some("text/event-stream".to_owned()),
                content_type: None,
            },
        ),
        None => None,
    }
}

/// The request that appends bytes to the log of a build at a peer.
pub fn add_log_request(id: &Id) -> (request: Request)
    ensures
        request@ == (RequestView {
            method: Method::Post,
            uri: path_text(id@, Resource::Log),
            accept: None,
            content_type: Some("application/octet-stream"@),
        }),
{
    Request {
        method: Method::Post,
        uri: path(id, Resource::Log),
        accept: None,
        content_type: Some("application/octet-stream".to_owned()),
    }
}

/// The request that withdraws a package at a peer.
pub fn yank_request(id: &Id) -> (request: Request)
    ensures
        request@ == (RequestView {
            method: Method::Post,
            uri: "/packages/"@ + printed(id@) + "/yank"@,
            accept: None,
            content_type: None,
        }),
{
    Request { method: Method::Post, uri: yank_path(id), accept: None, content_type: None }
}

} // verus!
