//! The request that a worker is serving, and what PHP is told about it.
use crate::cli::Config;
use crate::headers::{
    first_text, first_value, header_fields, header_text, header_value, law_first_field_counts,
    lemma_first_text, LookedUp,
};
use crate::net::SocketAddr;
use crate::php::execution::{Execution, Stage};
use crate::php::Job;
use crate::text::{
    after_first, before_first, cut_after_first, decimal_i64, find_first,
    law_text_is_cut_at_the_first_separator, parse_i64, utf8,
};
use vstd::prelude::*;
use vstd::slice::slice_to_vec;

verus! {

/// The version of HTTP that a request was made with.
#[derive(Clone, Copy, Debug, PartialEq, Eq, Structural)]
pub enum HttpVersion {
    Http09,
    Http10,
    Http11,
    Http2,
    Http3,
}

impl HttpVersion {
    /// The number by which PHP knows the version.
    pub open spec fn number(self) -> i32 {
        match self {
            HttpVersion::Http09 => 900,
            HttpVersion::Http10 => 1000,
            HttpVersion::Http11 => 1100,
            HttpVersion::Http2 => 2000,
            HttpVersion::Http3 => 3000,
        }
    }

    /// The number by which PHP knows the version.
    pub fn proto_num(&self) -> (number: i32)
        ensures
            number == self.number(),
    {
        match self {
            HttpVersion::Http09 => 900,
            HttpVersion::Http10 => 1000,
            HttpVersion::Http11 => 1100,
            HttpVersion::Http2 => 2000,
            HttpVersion::Http3 => 3000,
        }
    }
}

/// The head of a request.
#[derive(Debug)]
pub struct RequestHead {
    /// The method.
    pub method: Vec<u8>,
    /// The request target, without a fragment.
    pub uri: Vec<u8>,
    /// The version of HTTP.
    pub version: HttpVersion,
    /// The header fields.
    pub headers: hyper::HeaderMap<hyper::header::HeaderValue>,
    /// The address that the request came from.
    pub peer: Option<SocketAddr>,
}

/// Which part of a request holds a NUL byte, and where, so that it cannot be handed to PHP.
#[derive(Clone, Copy, Debug, PartialEq, Eq, Structural)]
pub enum NulError {
    Filename(usize),
    Method(usize),
    Uri(usize),
}

/// The bytes of an optional string.
pub open spec fn bytes_of(text: Option<Vec<u8>>) -> Option<Seq<u8>> {
    match text {
        Some(bytes) => Some(bytes@),
        None => None,
    }
}

/// Whether no byte of `s` is NUL, so that `s` can be a C string.
pub open spec fn no_nul(s: Seq<u8>) -> bool {
    !s.contains(0)
}

/// Whether an optional string can be a C string.
pub open spec fn option_no_nul(s: Option<Seq<u8>>) -> bool {
    s matches Some(bytes) ==> no_nul(bytes)
}

/// The first of file name, method and target that holds a NUL byte.
pub open spec fn nul_error(filename: Seq<u8>, method: Seq<u8>, uri: Seq<u8>) -> Option<NulError> {
    if !no_nul(filename) {
        Some(NulError::Filename(filename.index_of_first(0)->0 as usize))
    } else if !no_nul(method) {
        Some(NulError::Method(method.index_of_first(0)->0 as usize))
    } else if !no_nul(uri) {
        Some(NulError::Uri(uri.index_of_first(0)->0 as usize))
    } else {
        None
    }
}

/// The request that a worker is serving.
///
/// `B` receives chunks of the request body, `H` sends the response head and `R` sends chunks
/// of the response body.
#[derive(Debug)]
pub struct PhpRequestContext<B, H, R> {
    /// Path of the script to run.
    pub filename: Vec<u8>,
    /// The version of HTTP, as PHP counts it.
    pub proto_num: i32,
    /// The method.
    pub method: Vec<u8>,
    /// The request target.
    pub uri: Vec<u8>,
    /// The query of the target.
    pub query: Option<Vec<u8>>,
    /// The media type of the body.
    pub content_type: Option<Vec<u8>>,
    /// The announced length of the body.
    pub content_length: Option<i64>,
    /// The cookies.
    pub cookies: Option<Vec<u8>>,
    /// Where the body comes from, if the request has one.
    pub request_body_rx: Option<B>,
    /// What is left of the chunk that is being read.
    pub current_request_body_chunk: Option<bytes::Bytes>,
    /// Where the response head goes, until it has been sent.
    pub head_tx: Option<H>,
    /// Where the response body goes.
    pub response_tx: R,
    /// The header fields.
    pub headers: hyper::HeaderMap<hyper::header::HeaderValue>,
    /// The address that the request came from.
    pub peer: Option<SocketAddr>,
}

/// What PHP is told about a request before it starts.
#[derive(Debug)]
pub struct RequestInfo {
    /// The status that the response has unless the script sets another.
    pub response_code: i32,
    pub request_method: Vec<u8>,
    pub request_uri: Vec<u8>,
    pub query_string: Option<Vec<u8>>,
    pub content_length: i64,
    pub content_type: Option<Vec<u8>>,
    pub proto_num: i32,
    /// The credentials for PHP to decode.
    pub auth: Option<Vec<u8>>,
}

/// The credentials that can be handed to PHP: the value of the `authorization` header unless
/// it holds a NUL byte.
pub open spec fn credentials(fields: Seq<(Seq<u8>, Seq<u8>)>) -> Option<Seq<u8>> {
    match first_value(fields, utf8("authorization")) {
        Some(value) => if no_nul(value) {
            Some(value)
        } else {
            None
        },
        None => None,
    }
}

/// A copy of an optional string.
fn copied(text: &Option<Vec<u8>>) -> (copy: Option<Vec<u8>>)
    ensures
        bytes_of(copy) == bytes_of(*text),
{
    match text {
        Some(bytes) => Some(slice_to_vec(bytes)),
        None => None,
    }
}

/// An owned copy of an optional slice.
fn owned_slice(text: Option<&[u8]>) -> (copy: Option<Vec<u8>>)
    ensures
        bytes_of(copy) == match text {
            Some(bytes) => Some(bytes@),
            None => None,
        },
{
    match text {
        Some(bytes) => Some(slice_to_vec(bytes)),
        None => None,
    }
}

/// The position of the first NUL byte.
fn find_nul(s: &[u8]) -> (at: Option<usize>)
    ensures
        match at {
            Some(i) => !no_nul(s@) && s@.index_of_first(0u8) == Some(i as int),
            None => no_nul(s@),
        },
{
    proof {
        s@.index_of_first_ensures(0u8);
    }
    find_first(s, 0)
}

proof fn lemma_skip_keeps_no_nul(s: Seq<u8>, from: int)
    requires
        no_nul(s),
        0 <= from <= s.len(),
    ensures
        no_nul(s.skip(from)),
{
    if s.skip(from).contains(0) {
        let i = choose|i: int| 0 <= i < s.skip(from).len() && s.skip(from)[i] == 0;
        assert(s[i + from] == 0);
    }
}

impl<B, H, R> PhpRequestContext<B, H, R> {
    /// Whether everything that PHP sees as a C string can be one.
    pub open spec fn wf(self) -> bool {
        &&& no_nul(self.filename@)
        &&& no_nul(self.method@)
        &&& no_nul(self.uri@)
        &&& option_no_nul(bytes_of(self.query))
        &&& option_no_nul(bytes_of(self.content_type))
        &&& option_no_nul(bytes_of(self.cookies))
    }

    /// Whether this is the context of a new request with the given head, to be answered by
    /// the script at `filename`.
    pub open spec fn describes(self, head: RequestHead, filename: Seq<u8>) -> bool {
        let fields = header_fields(head.headers);
        &&& self.filename@ == filename
        &&& self.proto_num == head.version.number()
        &&& self.method@ == head.method@
        &&& self.uri@ == head.uri@
        &&& bytes_of(self.query) == after_first(head.uri@, 63)
        &&& bytes_of(self.content_type) == first_text(fields, utf8("content-type"))
        &&& self.content_length == match first_text(fields, utf8("content-length")) {
            Some(text) => decimal_i64(text),
            None => None,
        }
        &&& bytes_of(self.cookies) == first_text(fields, utf8("cookie"))
        &&& self.current_request_body_chunk is None
        &&& self.headers == head.headers
        &&& self.peer == head.peer
    }

    /// Prepares to serve a request; fails when the script's path, the method or the target
    /// holds a NUL byte.
    pub fn new(
        head: RequestHead,
        config: &Config,
        request_body_rx: Option<B>,
        head_tx: H,
        response_tx: R,
    ) -> (context: Result<Self, NulError>)
        ensures
            match nul_error(config.entrypoint@, head.method@, head.uri@) {
                Some(error) => context == Err::<Self, NulError>(error),
                None => context matches Ok(ctx) && ctx.wf() && ctx.describes(
                    head,
                    config.entrypoint@,
                ) && ctx.request_body_rx == request_body_rx && ctx.head_tx == Some(head_tx)
                    && ctx.response_tx == response_tx,
            },
    {
        if let Some(at) = find_nul(&config.entrypoint) {
            return Err(NulError::Filename(at));
        }
        if let Some(at) = find_nul(&head.method) {
            return Err(NulError::Method(at));
        }
        if let Some(at) = find_nul(&head.uri) {
            return Err(NulError::Uri(at));
        }
        let query: Option<Vec<u8>> = owned_slice(cut_after_first(&head.uri, 63));
        let content_type: Option<Vec<u8>> = owned_slice(
            header_text(&head.headers, LookedUp::ContentType),
        );
        let content_length: Option<i64> = match header_text(
            &head.headers,
            LookedUp::ContentLength,
        ) {
            Some(text) => parse_i64(text),
            None => None,
        };
        let cookies: Option<Vec<u8>> = owned_slice(header_text(&head.headers, LookedUp::Cookie));
        proof {
            head.uri@.index_of_first_ensures(63u8);
            if let Some(at) = head.uri@.index_of_first(63u8) {
                lemma_skip_keeps_no_nul(head.uri@, at + 1);
            }
        }
        Ok(
            PhpRequestContext {
                filename: slice_to_vec(&config.entrypoint),
                proto_num: head.version.proto_num(),
                method: head.method,
                uri: head.uri,
                query,
                content_type,
                content_length,
                cookies,
                request_body_rx,
                current_request_body_chunk: None,
                head_tx: Some(head_tx),
                response_tx,
                headers: head.headers,
                peer: head.peer,
            },
        )
    }

    /// What PHP is to be told about the request before it starts.
    pub fn populate_request_info(&self) -> (info: RequestInfo)
        ensures
            info.response_code == 200,
            info.request_method@ == self.method@,
            info.request_uri@ == self.uri@,
            bytes_of(info.query_string) == bytes_of(self.query),
            info.content_length == match self.content_length {
                Some(length) => length,
                None => 0,
            },
            bytes_of(info.content_type) == bytes_of(self.content_type),
            info.proto_num == self.proto_num,
            bytes_of(info.auth) == credentials(header_fields(self.headers)),
    {
        let auth: Option<Vec<u8>> = match header_value(&self.headers, LookedUp::Authorization) {
            Some(value) => if find_nul(value).is_none() {
                Some(slice_to_vec(value))
            } else {
                None
            },
            None => None,
        };
        RequestInfo {
            response_code: 200,
            request_method: slice_to_vec(&self.method),
            request_uri: slice_to_vec(&self.uri),
            query_string: copied(&self.query),
            content_length: self.content_length.unwrap_or(0),
            content_type: copied(&self.content_type),
            proto_num: self.proto_num,
            auth,
        }
    }

    /// The cookies, if the request brought any.
    pub fn read_cookies(&self) -> (cookies: Option<&[u8]>)
        ensures
            match cookies {
                Some(text) => bytes_of(self.cookies) == Some(text@),
                None => self.cookies is None,
            },
    {
        match &self.cookies {
            Some(text) => Some(text.as_slice()),
            None => None,
        }
    }
}

/// What belongs to a worker for as long as it lives.
#[derive(Clone, Copy, Debug, PartialEq, Eq, Structural)]
pub struct WorkerConfig {
    pub worker_id: usize,
}

/// The state of a worker: the request that it is serving, if any.
#[derive(Debug)]
pub struct ServerContext<B, H, R> {
    /// The request that is being served.
    pub request_ctx: Option<PhpRequestContext<B, H, R>>,
    /// What belongs to the worker.
    pub worker_config: WorkerConfig,
}

impl<B, H, R> ServerContext<B, H, R> {
    /// Whether everything that PHP sees of the request as a C string can be one.
    pub open spec fn wf(self) -> bool {
        self.request_ctx matches Some(ctx) ==> ctx.wf()
    }

    /// The state of a worker that serves no request.
    pub fn new(worker_config: WorkerConfig) -> (server: Self)
        ensures
            server.wf(),
            server.request_ctx is None,
            server.worker_config == worker_config,
    {
        ServerContext { request_ctx: None, worker_config }
    }

    /// Drops the request, if one is being served.
    pub fn finish_request(&mut self)
        ensures
            final(self).wf(),
            final(self).request_ctx is None,
            final(self).worker_config == old(self).worker_config,
    {
        self.request_ctx = None;
    }

    /// Takes up a request and says how its script is to be run. A request that PHP cannot be
    /// told about is turned down, and nothing changes.
    pub fn handle_request(&mut self, job: Job<B, H, R>, config: &Config) -> (run: Result<
        Execution,
        NulError,
    >)
        ensures
            final(self).worker_config == old(self).worker_config,
            match nul_error(config.entrypoint@, job.request_head.method@, job.request_head.uri@) {
                Some(error) => run == Err::<Execution, NulError>(error) && *final(self) == *old(
                    self,
                ),
                None => {
                    &&& run matches Ok(execution) && execution.stage == Stage::Startup
                    &&& final(self).request_ctx matches Some(ctx)
                    &&& ctx.wf()
                    &&& ctx.describes(job.request_head, config.entrypoint@)
                    &&& ctx.request_body_rx == job.request_body_rx
                    &&& ctx.head_tx == Some(job.response_head_tx)
                    &&& ctx.response_tx == job.response_body_tx
                },
            },
    {
        let Job { request_head, request_body_rx, response_head_tx, response_body_tx } = job;
        match PhpRequestContext::new(
            request_head,
            config,
            request_body_rx,
            response_head_tx,
            response_body_tx,
        ) {
            Ok(ctx) => {
                self.request_ctx = Some(ctx);
                Ok(Execution::new())
            },
            Err(error) => Err(error),
        }
    }

    /// Takes note of how the run of the script ended: after a failure the request is dropped.
    pub fn conclude_request(&mut self, outcome: Result<(), ()>) -> (result: Result<(), ()>)
        ensures
            result == outcome,
            final(self).worker_config == old(self).worker_config,
            final(self).request_ctx == match outcome {
                Ok(_) => old(self).request_ctx,
                Err(_) => None,
            },
    {
        if outcome.is_err() {
            self.finish_request();
        }
        outcome
    }
}

/// A target is what precedes its first question mark and, if it has one, that mark and the
/// query.
pub proof fn law_target_is_path_and_query(uri: Seq<u8>)
    ensures
        uri == before_first(uri, 63) + match after_first(uri, 63) {
            Some(query) => seq![63u8] + query,
            None => Seq::empty(),
        },
{
    uri.index_of_first_ensures(63u8);
    let parts = before_first(uri, 63) + match after_first(uri, 63) {
        Some(query) => seq![63u8] + query,
        None => Seq::empty(),
    };
    assert(uri =~= parts);
}

/// A request is taken up unless the path of the script, the method or the target holds a NUL
/// byte. If one does, the first of them that does is named, with the place of its first NUL.
pub proof fn law_nul_bytes_alone_are_refused<B, H, R>(
    head: RequestHead,
    config: &Config,
    body: Option<B>,
    head_tx: H,
    response_tx: R,
    context: Result<PhpRequestContext<B, H, R>, NulError>,
)
    requires
        call_ensures(
            PhpRequestContext::<B, H, R>::new,
            (head, config, body, head_tx, response_tx),
            context,
        ),
    ensures
        context is Ok <==> !config.entrypoint@.contains(0) && !head.method@.contains(0)
            && !head.uri@.contains(0),
        context matches Err(error) ==> {
            let (text, at) = match error {
                NulError::Filename(at) => (config.entrypoint@, at),
                NulError::Method(at) => (head.method@, at),
                NulError::Uri(at) => (head.uri@, at),
            };
            &&& at < text.len() && text[at as int] == 0
            &&& forall|i: int| 0 <= i < at ==> #[trigger] text[i] != 0
            &&& !(error is Filename) ==> !config.entrypoint@.contains(0)
            &&& error is Uri ==> !head.method@.contains(0)
        },
{
    assert(config.entrypoint@.len() == config.entrypoint.len());
    assert(head.method@.len() == head.method.len());
    assert(head.uri@.len() == head.uri.len());
    config.entrypoint@.index_of_first_ensures(0u8);
    head.method@.index_of_first_ensures(0u8);
    head.uri@.index_of_first_ensures(0u8);
}

/// The context of a request holds what the request brought, unchanged, and nothing of it is
/// answered or read yet. HTTP/0.9, 1.0, 1.1, 2 and 3 have the numbers 900 to 3000.
pub proof fn law_context_holds_the_request<B, H, R>(
    head: RequestHead,
    config: &Config,
    body: Option<B>,
    head_tx: H,
    response_tx: R,
    context: PhpRequestContext<B, H, R>,
)
    requires
        call_ensures(
            PhpRequestContext::<B, H, R>::new,
            (head, config, body, head_tx, response_tx),
            Ok(context),
        ),
    ensures
        context.filename@ == config.entrypoint@,
        context.method@ == head.method@,
        context.uri@ == head.uri@,
        context.headers == head.headers,
        context.peer == head.peer,
        context.request_body_rx == body,
        context.current_request_body_chunk is None,
        context.head_tx == Some(head_tx),
        context.response_tx == response_tx,
        context.proto_num == match head.version {
            HttpVersion::Http09 => 900i32,
            HttpVersion::Http10 => 1000,
            HttpVersion::Http11 => 1100,
            HttpVersion::Http2 => 2000,
            HttpVersion::Http3 => 3000,
        },
{
}

/// The query is all that follows the first question mark of the target, other question marks
/// with it; a target without one has no query.
pub proof fn law_query_follows_the_question_mark<B, H, R>(
    head: RequestHead,
    config: &Config,
    body: Option<B>,
    head_tx: H,
    response_tx: R,
    context: PhpRequestContext<B, H, R>,
    path: Seq<u8>,
    query: Seq<u8>,
)
    requires
        call_ensures(
            PhpRequestContext::<B, H, R>::new,
            (head, config, body, head_tx, response_tx),
            Ok(context),
        ),
        forall|i: int| 0 <= i < path.len() ==> #[trigger] path[i] != 63,
    ensures
        head.uri@ == path + seq![63u8] + query ==> context.query is Some && context.query->0@
            == query,
        head.uri@ == path ==> context.query is None,
{
    law_text_is_cut_at_the_first_separator(path, 63, query);
}

/// The cookies that PHP reads are the whole value of the first cookie header, byte for byte,
/// if that is printable ASCII and tabs; there are none if it is not, or without such a header.
pub proof fn law_cookies_are_the_whole_header<B, H, R>(
    head: RequestHead,
    config: &Config,
    body: Option<B>,
    head_tx: H,
    response_tx: R,
    context: PhpRequestContext<B, H, R>,
    cookies: Option<&[u8]>,
    before: Seq<(Seq<u8>, Seq<u8>)>,
    value: Seq<u8>,
    after: Seq<(Seq<u8>, Seq<u8>)>,
)
    requires
        call_ensures(
            PhpRequestContext::<B, H, R>::new,
            (head, config, body, head_tx, response_tx),
            Ok(context),
        ),
        call_ensures(PhpRequestContext::<B, H, R>::read_cookies, (&context,), cookies),
        forall|i: int| 0 <= i < before.len() ==> (#[trigger] before[i]).0 != utf8("cookie"),
    ensures
        header_fields(head.headers) == before + seq![(utf8("cookie"), value)] + after ==> {
            let readable = forall|i: int|
                0 <= i < value.len() ==> 32 <= #[trigger] value[i] <= 126 || value[i] == 9;
            &&& cookies is Some <==> readable
            &&& readable ==> cookies->0@ == value
        },
        header_fields(head.headers) == before ==> cookies is None,
{
    lemma_first_text(before, utf8("cookie"), value, after);
}

/// The media type is the whole value of the first content-type header, and the length the
/// number that the first content-length header writes, if they are printable ASCII and tabs.
pub proof fn law_content_is_announced_by_its_headers<B, H, R>(
    head: RequestHead,
    config: &Config,
    body: Option<B>,
    head_tx: H,
    response_tx: R,
    context: PhpRequestContext<B, H, R>,
    name: Seq<u8>,
    before: Seq<(Seq<u8>, Seq<u8>)>,
    value: &[u8],
    after: Seq<(Seq<u8>, Seq<u8>)>,
    number: Option<i64>,
)
    requires
        call_ensures(
            PhpRequestContext::<B, H, R>::new,
            (head, config, body, head_tx, response_tx),
            Ok(context),
        ),
        call_ensures(parse_i64, (value,), number),
        forall|i: int| 0 <= i < before.len() ==> (#[trigger] before[i]).0 != name,
    ensures
        header_fields(head.headers) == before + seq![(name, value@)] + after ==> {
            let readable = forall|i: int|
                0 <= i < value@.len() ==> 32 <= #[trigger] value@[i] <= 126 || value@[i] == 9;
            &&& name == utf8("content-type") ==> (context.content_type is Some <==> readable)
            &&& name == utf8("content-type") && readable ==> context.content_type->0@ == value@
            &&& name == utf8("content-length") && readable ==> context.content_length == number
            &&& name == utf8("content-length") && !readable ==> context.content_length is None
        },
        header_fields(head.headers) == before && name == utf8("content-type")
            ==> context.content_type is None,
        header_fields(head.headers) == before && name == utf8("content-length")
            ==> context.content_length is None,
{
    lemma_first_text(before, name, value@, after);
}

/// PHP is told of the request what its context holds, with a status of 200 to start with and a
/// length of zero where none was announced.
pub proof fn law_php_is_told_about_the_request<B, H, R>(
    context: &PhpRequestContext<B, H, R>,
    info: RequestInfo,
)
    requires
        call_ensures(PhpRequestContext::<B, H, R>::populate_request_info, (context,), info),
    ensures
        info.response_code == 200,
        info.request_method@ == context.method@,
        info.request_uri@ == context.uri@,
        info.proto_num == context.proto_num,
        info.query_string is Some <==> context.query is Some,
        context.query is Some ==> info.query_string->0@ == context.query->0@,
        info.content_type is Some <==> context.content_type is Some,
        context.content_type is Some ==> info.content_type->0@ == context.content_type->0@,
        context.content_length is Some ==> info.content_length == context.content_length->0,
        context.content_length is None ==> info.content_length == 0,
{
}

/// The credentials that PHP gets are the whole value of the first authorization header, readable
/// or not, unless it holds a NUL byte.
pub proof fn law_credentials_are_the_whole_header<B, H, R>(
    context: &PhpRequestContext<B, H, R>,
    info: RequestInfo,
    before: Seq<(Seq<u8>, Seq<u8>)>,
    value: Seq<u8>,
    after: Seq<(Seq<u8>, Seq<u8>)>,
)
    requires
        call_ensures(PhpRequestContext::<B, H, R>::populate_request_info, (context,), info),
        forall|i: int| 0 <= i < before.len() ==> (#[trigger] before[i]).0 != utf8("authorization"),
    ensures
        header_fields(context.headers) == before + seq![(utf8("authorization"), value)] + after
            ==> {
            &&& info.auth is Some <==> !value.contains(0)
            &&& info.auth is Some ==> info.auth->0@ == value
        },
        header_fields(context.headers) == before ==> info.auth is None,
{
    law_first_field_counts(before, utf8("authorization"), value, after);
}

/// A worker takes up a request exactly when there can be a context for it, and then holds that
/// context; otherwise it stays as it was.
pub proof fn law_worker_takes_up_what_it_can<B, H, R>(
    server: &mut ServerContext<B, H, R>,
    job: Job<B, H, R>,
    config: &Config,
    run: Result<Execution, NulError>,
    made: Result<PhpRequestContext<B, H, R>, NulError>,
)
    requires
        call_ensures(ServerContext::<B, H, R>::handle_request, (server, job, config), run),
        call_ensures(
            PhpRequestContext::<B, H, R>::new,
            (
                job.request_head,
                config,
                job.request_body_rx,
                job.response_head_tx,
                job.response_body_tx,
            ),
            made,
        ),
    ensures
        final(server).worker_config == old(server).worker_config,
        run is Ok <==> made is Ok,
        run is Err ==> run->Err_0 == made->Err_0 && *final(server) == *old(server),
        made matches Ok(context) ==> {
            &&& run->Ok_0.stage == Stage::Startup
            &&& final(server).request_ctx matches Some(held)
            &&& held.filename@ == context.filename@
            &&& held.proto_num == context.proto_num
            &&& held.method@ == context.method@
            &&& held.uri@ == context.uri@
            &&& bytes_of(held.query) == bytes_of(context.query)
            &&& bytes_of(held.content_type) == bytes_of(context.content_type)
            &&& held.content_length == context.content_length
            &&& bytes_of(held.cookies) == bytes_of(context.cookies)
            &&& held.request_body_rx == context.request_body_rx
            &&& held.current_request_body_chunk is None
            &&& held.head_tx == context.head_tx
            &&& held.response_tx == context.response_tx
            &&& held.headers == context.headers
            &&& held.peer == context.peer
        },
{
}

/// A worker keeps a request that was served until the engine ends it, and drops one that was
/// not; what it reports is how the run went.
pub proof fn law_failed_request_is_dropped<B, H, R>(
    server: &mut ServerContext<B, H, R>,
    outcome: Result<(), ()>,
    result: Result<(), ()>,
)
    requires
        call_ensures(ServerContext::<B, H, R>::conclude_request, (server, outcome), result),
    ensures
        result == outcome,
        outcome is Ok ==> *final(server) == *old(server),
        outcome is Err ==> final(server).request_ctx is None && final(server).worker_config == old(
            server,
        ).worker_config,
{
}

/// A new worker serves no request, and one that has finished does not either.
pub proof fn law_idle_worker_has_no_request<B, H, R>(
    worker_config: WorkerConfig,
    fresh: ServerContext<B, H, R>,
    server: &mut ServerContext<B, H, R>,
)
    requires
        call_ensures(ServerContext::<B, H, R>::new, (worker_config,), fresh),
        call_ensures(ServerContext::<B, H, R>::finish_request, (server,), ()),
    ensures
        fresh.request_ctx is None,
        fresh.worker_config == worker_config,
        final(server).request_ctx is None,
        final(server).worker_config == old(server).worker_config,
{
}

} // verus!
