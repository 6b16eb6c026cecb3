//! What the engine asks of the server while a script runs.
use crate::chunk::{chunk_data, chunk_from, chunk_len, read_chunk, shorter};
use crate::headers::{
    accepts_name, accepts_value, append_header, field_names, header_fields, is_header_name,
    is_header_value, is_status, law_status_text_reads_back, lower_name, name_count, new_headers,
    status_from_bytes, status_from_u16, status_of_digits, with_field,
};
use crate::php::context::{bytes_of, PhpRequestContext, ServerContext};
use crate::text::{
    after_first, before_first, cut_after_first, decimal, find_first,
    law_text_is_cut_at_the_first_separator,
};
use vstd::prelude::*;
use vstd::set_lib::lemma_len_subset;
use vstd::slice::{slice_subrange, slice_to_vec};

verus! {

/// The engine's answer to the sending of headers.
#[derive(Clone, Copy, Debug, PartialEq, Eq, Structural)]
pub enum SapiHeaderSendResult {
    /// The headers could not be sent.
    SendFailed,
    /// The headers were sent, or need not be.
    SentSuccessfully,
}

impl From<SapiHeaderSendResult> for i32 {
    fn from(value: SapiHeaderSendResult) -> (code: i32) {
        match value {
            SapiHeaderSendResult::SendFailed => 3,
            SapiHeaderSendResult::SentSuccessfully => 1,
        }
    }
}

impl vstd::std_specs::convert::FromSpecImpl<SapiHeaderSendResult> for i32 {
    open spec fn obeys_from_spec() -> bool {
        true
    }

    open spec fn from_spec(value: SapiHeaderSendResult) -> i32 {
        match value {
            SapiHeaderSendResult::SendFailed => 3,
            SapiHeaderSendResult::SentSuccessfully => 1,
        }
    }
}

/// A response header as a script set it; without a value when it has no colon.
#[derive(Debug)]
pub struct SapiHeader {
    pub name: Vec<u8>,
    pub value: Option<Vec<u8>>,
}

/// The response headers as a script set them.
#[derive(Debug)]
pub struct SapiHeaders {
    /// The status line, if the script set one.
    pub status_line: Option<Vec<u8>>,
    /// The status code.
    pub response_code: i32,
    /// The headers, in the order in which they were set.
    pub headers: Vec<SapiHeader>,
}

/// The head of a response.
#[derive(Debug)]
pub struct ResponseHead {
    pub status: u16,
    pub headers: hyper::HeaderMap<hyper::header::HeaderValue>,
}

/// What is to be done when the engine wants the headers sent.
#[derive(Debug)]
pub enum SendHeaders<H> {
    /// Answer the engine at once.
    Answer(SapiHeaderSendResult),
    /// Send the head, then answer according to how that went.
    Send { sender: H, head: ResponseHead },
    /// There are more headers than a header map takes.
    TooManyHeaders,
}

/// The status code in a status line: the digits between its first two spaces.
pub open spec fn status_in_line(line: Seq<u8>) -> Option<u16> {
    match after_first(line, 32) {
        Some(rest) => match rest.index_of_first(32u8) {
            Some(end) => status_of_digits(rest.take(end)),
            None => None,
        },
        None => None,
    }
}

/// The status of the response: from the status line, else from the status code (its lower
/// sixteen bits), else 200.
pub open spec fn response_status(headers: Option<SapiHeaders>) -> u16 {
    match headers {
        None => 200,
        Some(report) => {
            let from_line = match bytes_of(report.status_line) {
                Some(line) => status_in_line(line),
                None => None,
            };
            let code = report.response_code as int % 0x1_0000;
            match from_line {
                Some(status) => status,
                None => if is_status(code) {
                    code as u16
                } else {
                    200
                },
            }
        },
    }
}

/// Whether a header that a script set can be sent.
pub open spec fn is_sendable(header: SapiHeader) -> bool {
    &&& header.value is Some
    &&& is_header_name(header.name@)
    &&& is_header_value(header.value->0@)
}

/// The fields of the response head: those headers that can be sent, in order.
pub open spec fn response_fields(headers: Seq<SapiHeader>) -> Seq<(Seq<u8>, Seq<u8>)>
    decreases headers.len(),
{
    if headers.len() == 0 {
        Seq::empty()
    } else if is_sendable(headers.last()) {
        with_field(
            response_fields(headers.drop_last()),
            lower_name(headers.last().name@),
            headers.last().value->0@,
        )
    } else {
        response_fields(headers.drop_last())
    }
}

/// The different names, in lower case, of the headers that can be sent.
pub open spec fn sendable_names(headers: Seq<SapiHeader>) -> Set<Seq<u8>>
    decreases headers.len(),
{
    if headers.len() == 0 {
        Set::empty()
    } else if is_sendable(headers.last()) {
        sendable_names(headers.drop_last()).insert(lower_name(headers.last().name@))
    } else {
        sendable_names(headers.drop_last())
    }
}

/// How many different names the headers that can be sent have.
pub open spec fn sendable_name_count(headers: Option<SapiHeaders>) -> nat {
    match headers {
        Some(report) => sendable_names(report.headers@).len(),
        None => 0,
    }
}

/// The status code in a status line.
fn parse_status_line(line: &[u8]) -> (status: Option<u16>)
    ensures
        status == status_in_line(line@),
{
    match cut_after_first(line, 32) {
        Some(rest) => match find_first(rest, 32) {
            Some(end) => status_from_bytes(slice_subrange(rest, 0, end)),
            None => None,
        },
        None => None,
    }
}

/// The status of the response.
pub fn choose_status(headers: &SapiHeaders) -> (status: u16)
    ensures
        status == response_status(Some(*headers)),
{
    let from_line: Option<u16> = match &headers.status_line {
        Some(line) => parse_status_line(line),
        None => None,
    };
    match from_line {
        Some(status) => status,
        None => {
            let code: i64 = (headers.response_code as i64 + 0x1_0000_0000) % 0x1_0000;
            match status_from_u16(code as u16) {
                Some(status) => status,
                None => 200,
            }
        },
    }
}

proof fn lemma_names_with_field(
    fields: Seq<(Seq<u8>, Seq<u8>)>,
    name: Seq<u8>,
    value: Seq<u8>,
)
    ensures
        field_names(with_field(fields, name, value)).to_set() == field_names(
            fields,
        ).to_set().insert(name),
{
    let names = field_names(fields);
    let more = field_names(with_field(fields, name, value));
    names.index_of_last_ensures(name);
    let at = match names.index_of_last(name) {
        Some(at) => at + 1,
        None => fields.len() as int,
    };
    assert(more =~= names.insert(at, name));
    assert forall|other: Seq<u8>| more.to_set().contains(other) implies names.to_set().insert(
        name,
    ).contains(other) by {
        let i = choose|i: int| 0 <= i < more.len() && more[i] == other;
        if i < at {
            assert(names[i] == other);
        } else if i > at {
            assert(names[i - 1] == other);
        }
    }
    assert forall|other: Seq<u8>| names.to_set().insert(name).contains(
        other,
    ) implies more.to_set().contains(other) by {
        if other == name {
            assert(more[at] == other);
        } else {
            let i = choose|i: int| 0 <= i < names.len() && names[i] == other;
            if i < at {
                assert(more[i] == other);
            } else {
                assert(more[i + 1] == other);
            }
        }
    }
    assert(more.to_set() =~= names.to_set().insert(name));
}

proof fn lemma_sendable_names(headers: Seq<SapiHeader>)
    ensures
        field_names(response_fields(headers)).to_set() == sendable_names(headers),
        sendable_names(headers).finite(),
    decreases headers.len(),
{
    if headers.len() == 0 {
        assert(field_names(response_fields(headers)).to_set() =~= sendable_names(headers));
    } else {
        lemma_sendable_names(headers.drop_last());
        if is_sendable(headers.last()) {
            lemma_names_with_field(
                response_fields(headers.drop_last()),
                lower_name(headers.last().name@),
                headers.last().value->0@,
            );
        }
    }
}

proof fn lemma_more_headers_have_more_names(headers: Seq<SapiHeader>, count: int)
    requires
        0 <= count <= headers.len(),
    ensures
        sendable_names(headers.take(count)).subset_of(sendable_names(headers)),
        sendable_names(headers.take(count)).len() <= sendable_names(headers).len(),
    decreases headers.len(),
{
    if count == headers.len() {
        assert(headers.take(count) =~= headers);
    } else {
        lemma_more_headers_have_more_names(headers.drop_last(), count);
        assert(headers.drop_last().take(count) =~= headers.take(count));
    }
    lemma_sendable_names(headers);
    lemma_len_subset(sendable_names(headers.take(count)), sendable_names(headers));
}

/// Builds the head of the response; `None` when the header map cannot take all headers, which
/// is for it to say where there are many different names.
pub fn response_head(headers: Option<SapiHeaders>) -> (head: Option<ResponseHead>)
    ensures
        match head {
            Some(h) => h.status == response_status(headers) && header_fields(h.headers)
                == match headers {
                Some(report) => response_fields(report.headers@),
                None => Seq::empty(),
            } && sendable_name_count(headers) <= 24576,
            None => sendable_name_count(headers) > 6553,
        },
{
    let mut map: hyper::HeaderMap<hyper::header::HeaderValue> = new_headers();
    let report: SapiHeaders = match headers {
        Some(report) => report,
        None => return Some(ResponseHead { status: 200, headers: map }),
    };
    let status: u16 = choose_status(&report);
    let list: &Vec<SapiHeader> = &report.headers;
    let mut i: usize = 0;
    assert(list@.take(0) =~= Seq::<SapiHeader>::empty());
    proof {
        lemma_sendable_names(list@.take(0));
    }
    while i < list.len()
        invariant
            i <= list@.len(),
            header_fields(map) == response_fields(list@.take(i as int)),
            name_count(header_fields(map)) <= 24576,
            report.headers@ == list@,
            headers == Some(report),
        decreases list@.len() - i,
    {
        let header: &SapiHeader = &list[i];
        assert(list@.take(i + 1).drop_last() =~= list@.take(i as int));
        assert(list@.take(i + 1).last() == *header);
        if let Some(value) = &header.value {
            if accepts_name(&header.name) && accepts_value(value) {
                let ghost before = header_fields(map);
                if !append_header(&mut map, &header.name, value) {
                    proof {
                        lemma_sendable_names(list@.take(i as int));
                        lemma_more_headers_have_more_names(list@, i as int);
                    }
                    return None;
                }
                proof {
                    lemma_sendable_names(list@.take(i as int));
                    lemma_names_with_field(before, lower_name(header.name@), value@);
                }
            }
        }
        i = i + 1;
    }
    assert(list@.take(i as int) =~= list@);
    proof {
        lemma_sendable_names(list@);
    }
    Some(ResponseHead { status, headers: map })
}

/// The status of a response is always a number of three digits.
pub proof fn law_response_status_has_three_digits(headers: Option<SapiHeaders>)
    ensures
        is_status(response_status(headers) as int),
{
}

/// The values of the fields called `name`, in order.
pub open spec fn values_of(fields: Seq<(Seq<u8>, Seq<u8>)>, name: Seq<u8>) -> Seq<Seq<u8>>
    decreases fields.len(),
{
    if fields.len() == 0 {
        Seq::empty()
    } else if fields.last().0 == name {
        values_of(fields.drop_last(), name).push(fields.last().1)
    } else {
        values_of(fields.drop_last(), name)
    }
}

/// The values that a script set for the header `name` and that can be sent, in order.
pub open spec fn values_set(headers: Seq<SapiHeader>, name: Seq<u8>) -> Seq<Seq<u8>>
    decreases headers.len(),
{
    if headers.len() == 0 {
        Seq::empty()
    } else if is_sendable(headers.last()) && lower_name(headers.last().name@) == name {
        values_set(headers.drop_last(), name).push(headers.last().value->0@)
    } else {
        values_set(headers.drop_last(), name)
    }
}

proof fn lemma_values_of_parts(
    first: Seq<(Seq<u8>, Seq<u8>)>,
    second: Seq<(Seq<u8>, Seq<u8>)>,
    name: Seq<u8>,
)
    ensures
        values_of(first + second, name) == values_of(first, name) + values_of(second, name),
    decreases second.len(),
{
    if second.len() == 0 {
        assert(first + second =~= first);
        assert(values_of(first, name) + values_of(second, name) =~= values_of(first, name));
    } else {
        lemma_values_of_parts(first, second.drop_last(), name);
        assert((first + second).drop_last() =~= first + second.drop_last());
        assert((first + second).last() == second.last());
        assert(values_of(first + second, name) =~= values_of(first, name) + values_of(
            second,
            name,
        ));
    }
}

proof fn lemma_no_values_without_fields(fields: Seq<(Seq<u8>, Seq<u8>)>, name: Seq<u8>)
    requires
        forall|i: int| 0 <= i < fields.len() ==> (#[trigger] fields[i]).0 != name,
    ensures
        values_of(fields, name).len() == 0,
    decreases fields.len(),
{
    if fields.len() > 0 {
        let before = fields.drop_last();
        assert forall|i: int| 0 <= i < before.len() implies (#[trigger] before[i]).0 != name by {
            assert(before[i] == fields[i]);
        }
        lemma_no_values_without_fields(before, name);
        assert(fields[fields.len() - 1].0 != name);
    }
}

proof fn lemma_values_with_field(
    fields: Seq<(Seq<u8>, Seq<u8>)>,
    added: Seq<u8>,
    value: Seq<u8>,
    name: Seq<u8>,
)
    ensures
        values_of(with_field(fields, added, value), name) == if added == name {
            values_of(fields, name).push(value)
        } else {
            values_of(fields, name)
        },
{
    let names = field_names(fields);
    names.index_of_last_ensures(added);
    let split = match names.index_of_last(added) {
        Some(at) => at + 1,
        None => fields.len() as int,
    };
    let first = fields.take(split);
    let second = fields.skip(split);
    let one = seq![(added, value)];
    assert forall|i: int| 0 <= i < second.len() implies (#[trigger] second[i]).0 != added by {
        assert(names[split + i] == second[i].0);
        if second[i].0 == added {
            assert(names.contains(added));
        }
    }
    assert(with_field(fields, added, value) =~= first + one + second);
    assert(fields =~= first + second);
    lemma_values_of_parts(first, second, name);
    lemma_values_of_parts(first + one, second, name);
    assert((first + one).drop_last() =~= first);
    if added == name {
        lemma_no_values_without_fields(second, name);
        assert(values_of(fields, name) =~= values_of(first, name));
        assert(values_of(with_field(fields, added, value), name) =~= values_of(first, name).push(
            value,
        ));
    }
}

/// The response head carries every value that a script set and that can be sent, under the
/// header's name in lower case, in the order in which they were set, and nothing else.
pub proof fn law_response_carries_the_values_set(headers: Seq<SapiHeader>, name: Seq<u8>)
    ensures
        values_of(response_fields(headers), name) == values_set(headers, name),
    decreases headers.len(),
{
    if headers.len() > 0 {
        let before = headers.drop_last();
        law_response_carries_the_values_set(before, name);
        if is_sendable(headers.last()) {
            lemma_values_with_field(
                response_fields(before),
                lower_name(headers.last().name@),
                headers.last().value->0@,
                name,
            );
        }
    }
}

impl<B, H, R> PhpRequestContext<B, H, R> {
    /// Whether two contexts agree on everything but where the response head goes.
    pub open spec fn same_but_head(self, other: Self) -> bool {
        &&& self.filename == other.filename
        &&& self.proto_num == other.proto_num
        &&& self.method == other.method
        &&& self.uri == other.uri
        &&& self.query == other.query
        &&& self.content_type == other.content_type
        &&& self.content_length == other.content_length
        &&& self.cookies == other.cookies
        &&& self.request_body_rx == other.request_body_rx
        &&& self.current_request_body_chunk == other.current_request_body_chunk
        &&& self.response_tx == other.response_tx
        &&& self.headers == other.headers
        &&& self.peer == other.peer
    }
}

/// The code that the engine gets: that of the answer, or else that of whether the head reached
/// somebody who is still `alive`.
pub open spec fn code_for_engine<H>(action: SendHeaders<H>, alive: bool) -> i32 {
    <i32 as vstd::std_specs::convert::FromSpec<SapiHeaderSendResult>>::from_spec(
        match action {
            SendHeaders::Answer(answer) => answer,
            _ => answer_to_head(alive),
        },
    )
}

/// The answer to the engine once the head was sent, or the client was found to be gone.
pub open spec fn answer_to_head(delivered: bool) -> SapiHeaderSendResult {
    if delivered {
        SapiHeaderSendResult::SentSuccessfully
    } else {
        SapiHeaderSendResult::SendFailed
    }
}

impl<B, H, R> ServerContext<B, H, R> {
    /// Says what is to be done when the engine wants the headers sent. The head of a response
    /// is sent once: whoever asks again is told that sending failed.
    pub fn send_headers(&mut self, no_headers: bool, headers: Option<SapiHeaders>) -> (action:
        SendHeaders<H>)
        ensures
            final(self).worker_config == old(self).worker_config,
            old(self).wf() ==> final(self).wf(),
            if no_headers {
                &&& action == SendHeaders::<H>::Answer(SapiHeaderSendResult::SentSuccessfully)
                &&& *final(self) == *old(self)
            } else if old(self).request_ctx is None || old(self).request_ctx->0.head_tx is None {
                &&& action == SendHeaders::<H>::Answer(SapiHeaderSendResult::SendFailed)
                &&& *final(self) == *old(self)
            } else {
                &&& final(self).request_ctx matches Some(ctx)
                &&& ctx.head_tx is None
                &&& ctx.same_but_head(old(self).request_ctx->0)
                &&& match action {
                    SendHeaders::Answer(_) => false,
                    SendHeaders::Send { sender, head } => {
                        &&& Some(sender) == old(self).request_ctx->0.head_tx
                        &&& head.status == response_status(headers)
                        &&& header_fields(head.headers) == match headers {
                            Some(report) => response_fields(report.headers@),
                            None => Seq::empty(),
                        }
                    },
                    SendHeaders::TooManyHeaders => sendable_name_count(headers) > 6553,
                }
                &&& sendable_name_count(headers) > 24576 ==> action is TooManyHeaders
            },
            action !is TooManyHeaders ==> forall|alive: bool| #[trigger]
                code_for_engine(action, alive) == (if no_headers || (old(
                    self,
                ).request_ctx matches Some(ctx) && ctx.head_tx is Some && alive) {
                    1i32
                } else {
                    3i32
                }),
    {
        if no_headers {
            return SendHeaders::Answer(SapiHeaderSendResult::SentSuccessfully);
        }
        let sender: H = match &mut self.request_ctx {
            None => return SendHeaders::Answer(SapiHeaderSendResult::SendFailed),
            Some(ctx) => match ctx.head_tx.take() {
                None => return SendHeaders::Answer(SapiHeaderSendResult::SendFailed),
                Some(sender) => sender,
            },
        };
        match response_head(headers) {
            Some(head) => SendHeaders::Send { sender, head },
            None => SendHeaders::TooManyHeaders,
        }
    }
}

/// The answer to the engine once the head was sent, or the client was found to be gone.
pub fn head_answer(delivered: bool) -> (answer: SapiHeaderSendResult)
    ensures
        answer == answer_to_head(delivered),
{
    if delivered {
        SapiHeaderSendResult::SentSuccessfully
    } else {
        SapiHeaderSendResult::SendFailed
    }
}

/// Whether the connection counts as aborted after a flush, which sends the headers first: it
/// does exactly when they could not be sent.
pub fn flush_answer(headers_sent: bool) -> (aborted: bool)
    ensures
        aborted == !headers_sent,
{
    !headers_sent
}

/// The engine's code for success.
pub const ENGINE_SUCCESS: i32 = 0;

/// What is left of the state of a thread when a request ends: the worker, if the thread has one,
/// without a request.
pub open spec fn deactivated<B, H, R>(server: Option<ServerContext<B, H, R>>) -> Option<
    ServerContext<B, H, R>,
> {
    match server {
        Some(worker) => Some(
            ServerContext { request_ctx: None, worker_config: worker.worker_config },
        ),
        None => None,
    }
}

/// Ends the request of a thread, if the thread has a worker, and answers the engine.
pub fn deactivate<B, H, R>(server: Option<&mut ServerContext<B, H, R>>) -> (code: i32)
    ensures
        code == ENGINE_SUCCESS,
        server matches Some(worker) ==> Some(*final(worker)) == deactivated(Some(*worker)),
{
    if let Some(worker) = server {
        worker.finish_request();
    }
    ENGINE_SUCCESS
}

/// After the end of a request no request is left, the worker stays, and ending it again changes
/// nothing.
pub proof fn law_request_ends_for_good<B, H, R>(server: Option<ServerContext<B, H, R>>)
    ensures
        deactivated(server) is Some <==> server is Some,
        deactivated(server) matches Some(worker) ==> worker.request_ctx is None
            && worker.worker_config == server->0.worker_config,
        deactivated(deactivated(server)) == deactivated(server),
{
}

/// What the engine is told about an attempt to write.
#[derive(Clone, Copy, Debug, PartialEq, Eq, Structural)]
pub struct WriteAnswer {
    /// The number of bytes that were written.
    pub written: usize,
    /// Whether the client is gone, so that the connection counts as aborted.
    pub aborted: bool,
}

impl<B, H, R> ServerContext<B, H, R> {
    /// The chunk to be sent when the engine writes `data`; `None` when there is nothing to
    /// send or no request to answer, and nothing is written.
    pub fn ub_write(&self, data: &[u8]) -> (chunk: Option<bytes::Bytes>)
        ensures
            chunk is Some <==> data@.len() > 0 && self.request_ctx is Some,
            chunk matches Some(bytes) ==> chunk_data(bytes) == data@,
    {
        if data.len() == 0 || self.request_ctx.is_none() {
            None
        } else {
            Some(chunk_from(slice_to_vec(data)))
        }
    }
}

/// The answer to the engine once a chunk of `length` bytes was sent, or the client was found
/// to be gone.
pub fn write_answer(length: usize, delivered: bool) -> (answer: WriteAnswer)
    ensures
        answer.written == if delivered {
            length
        } else {
            0
        },
        answer.aborted == !delivered,
{
    if delivered {
        WriteAnswer { written: length, aborted: false }
    } else {
        WriteAnswer { written: 0, aborted: true }
    }
}

/// How a read of the request body goes on.
#[derive(Clone, Copy, Debug, PartialEq, Eq, Structural)]
pub enum ReadPost {
    /// The read is over, with this many bytes.
    Done(usize),
    /// This many bytes were read, and another chunk is wanted.
    NeedChunk(usize),
}

/// The bytes of an optional chunk.
pub open spec fn pending_data(chunk: Option<bytes::Bytes>) -> Option<Seq<u8>> {
    match chunk {
        Some(bytes) => Some(chunk_data(bytes)),
        None => None,
    }
}

/// What a read takes from the pending chunk when there is room for `room` bytes, and what is
/// left of the chunk: nothing once it was read to its end.
pub open spec fn read_step(pending: Option<Seq<u8>>, room: nat) -> (Seq<u8>, Option<Seq<u8>>) {
    match pending {
        None => (Seq::empty(), None),
        Some(data) => if room == 0 {
            (Seq::empty(), Some(data))
        } else {
            let count = shorter(room, data.len()) as int;
            (
                data.take(count),
                if count == data.len() {
                    None
                } else {
                    Some(data.skip(count))
                },
            )
        },
    }
}

impl<B, H, R> PhpRequestContext<B, H, R> {
    /// Whether two contexts agree on everything but the pending chunk.
    pub open spec fn same_but_chunk(self, other: Self) -> bool {
        &&& self.filename == other.filename
        &&& self.proto_num == other.proto_num
        &&& self.method == other.method
        &&& self.uri == other.uri
        &&& self.query == other.query
        &&& self.content_type == other.content_type
        &&& self.content_length == other.content_length
        &&& self.cookies == other.cookies
        &&& self.request_body_rx == other.request_body_rx
        &&& self.head_tx == other.head_tx
        &&& self.response_tx == other.response_tx
        &&& self.headers == other.headers
        &&& self.peer == other.peer
    }

    /// Reads from the pending chunk into `buffer`, of which `written` bytes are filled. One
    /// read may take several chunks, and one chunk may take several reads.
    pub fn read_post(&mut self, buffer: &mut [u8], written: usize) -> (next: ReadPost)
        requires
            written <= old(buffer)@.len(),
        ensures
            final(self).same_but_chunk(*old(self)),
            ({
                let has_body = old(self).request_body_rx is Some;
                let room = (old(buffer)@.len() - written) as nat;
                let (copied, left) = read_step(
                    pending_data(old(self).current_request_body_chunk),
                    room,
                );
                let filled = written + copied.len();
                if has_body {
                    &&& final(buffer)@ == old(buffer)@.take(written as int) + copied + old(
                        buffer,
                    )@.skip(filled)
                    &&& pending_data(final(self).current_request_body_chunk) == left
                    &&& next == if filled < old(buffer)@.len() {
                        ReadPost::NeedChunk(filled as usize)
                    } else {
                        ReadPost::Done(filled as usize)
                    }
                } else {
                    &&& final(buffer)@ == old(buffer)@
                    &&& *final(self) == *old(self)
                    &&& next == ReadPost::Done(written)
                }
            }),
    {
        if self.request_body_rx.is_none() {
            return ReadPost::Done(written);
        }
        let length: usize = buffer.len();
        if written == length {
            assert(buffer@ =~= buffer@.take(written as int) + Seq::<u8>::empty() + buffer@.skip(
                written as int,
            ));
            return ReadPost::Done(written);
        }
        match self.current_request_body_chunk.take() {
            None => {
                assert(buffer@ =~= buffer@.take(written as int) + Seq::<u8>::empty()
                    + buffer@.skip(written as int));
                ReadPost::NeedChunk(written)
            },
            Some(pending) => {
                let mut chunk: bytes::Bytes = pending;
                let available: usize = chunk_len(&chunk);
                let to_read: usize = if available < length - written {
                    available
                } else {
                    length - written
                };
                let count: usize = read_chunk(&mut chunk, buffer, written, written + to_read);
                if chunk_len(&chunk) > 0 {
                    self.current_request_body_chunk = Some(chunk);
                }
                if written + count < length {
                    ReadPost::NeedChunk(written + count)
                } else {
                    ReadPost::Done(written + count)
                }
            },
        }
    }

    /// Takes the next chunk of the request body; says whether there was one, so that the read
    /// goes on.
    pub fn supply_chunk(&mut self, chunk: Option<bytes::Bytes>) -> (more: bool)
        ensures
            more == (chunk is Some),
            final(self).current_request_body_chunk == chunk,
            final(self).same_but_chunk(*old(self)),
    {
        let more: bool = chunk.is_some();
        self.current_request_body_chunk = chunk;
        more
    }
}

/// A whole read with room for `room` bytes, while `chunks` are what is still to arrive: the
/// bytes that were read, the chunk that is left pending, and how many chunks were taken.
pub open spec fn read_run(pending: Option<Seq<u8>>, chunks: Seq<Seq<u8>>, room: nat) -> (
    Seq<u8>,
    Option<Seq<u8>>,
    nat,
)
    decreases chunks.len(),
{
    let (copied, left) = read_step(pending, room);
    if copied.len() >= room || chunks.len() == 0 {
        (copied, left, 0)
    } else {
        let (more, rest, taken) = read_run(
            Some(chunks[0]),
            chunks.skip(1),
            (room - copied.len()) as nat,
        );
        (copied + more, rest, taken + 1)
    }
}

/// The bytes of some chunks.
pub open spec fn data_of(chunks: Seq<bytes::Bytes>) -> Seq<Seq<u8>> {
    chunks.map_values(|chunk: bytes::Bytes| chunk_data(chunk))
}

impl<B, H, R> PhpRequestContext<B, H, R> {
    /// A whole read into `buffer`, for a body of which all that is to come is in `chunks`: takes
    /// from the front what it needs, and says how many bytes were read.
    pub fn read_through(&mut self, buffer: &mut [u8], chunks: &mut Vec<bytes::Bytes>) -> (count:
        usize)
        ensures
            final(self).same_but_chunk(*old(self)),
            ({
                let (bytes, left, taken) = read_run(
                    pending_data(old(self).current_request_body_chunk),
                    data_of(old(chunks)@),
                    old(buffer)@.len(),
                );
                if old(self).request_body_rx is Some {
                    &&& count == bytes.len()
                    &&& final(buffer)@ == bytes + old(buffer)@.skip(bytes.len() as int)
                    &&& pending_data(final(self).current_request_body_chunk) == left
                    &&& final(chunks)@ == old(chunks)@.skip(taken as int)
                } else {
                    &&& count == 0
                    &&& final(buffer)@ == old(buffer)@
                    &&& *final(self) == *old(self)
                    &&& final(chunks)@ == old(chunks)@
                }
            }),
    {
        if self.request_body_rx.is_none() {
            return 0;
        }
        let length: usize = buffer.len();
        let ghost all = chunks@;
        let ghost first = buffer@;
        let ghost whole = read_run(
            pending_data(self.current_request_body_chunk),
            data_of(all),
            length as nat,
        );
        let ghost mut taken: nat = 0;
        let mut written: usize = 0;
        assert(all.skip(0) =~= all);
        assert(first.take(0) + whole.0 =~= whole.0);
        loop
            invariant
                self.same_but_chunk(*old(self)),
                self.request_body_rx is Some,
                all == old(chunks)@,
                first == old(buffer)@,
                whole == read_run(
                    pending_data(old(self).current_request_body_chunk),
                    data_of(all),
                    length as nat,
                ),
                buffer@.len() == length,
                first.len() == length,
                written <= length,
                taken <= all.len(),
                chunks@ == all.skip(taken as int),
                forall|i: int| written <= i < length ==> #[trigger] buffer@[i] == first[i],
                ({
                    let (more, left, later) = read_run(
                        pending_data(self.current_request_body_chunk),
                        data_of(chunks@),
                        (length - written) as nat,
                    );
                    whole == (buffer@.take(written as int) + more, left, taken + later)
                }),
            decreases chunks@.len(),
        {
            let ghost pending = pending_data(self.current_request_body_chunk);
            let ghost room = (length - written) as nat;
            let ghost start = buffer@;
            let ghost step = read_step(pending, room);
            match self.read_post(buffer, written) {
                ReadPost::Done(count) => {
                    assert(buffer@ =~= whole.0 + first.skip(whole.0.len() as int));
                    return count;
                },
                ReadPost::NeedChunk(count) => {
                    assert(buffer@.take(count as int) =~= start.take(written as int) + step.0);
                    if chunks.len() == 0 {
                        self.supply_chunk(None);
                        assert(buffer@ =~= whole.0 + first.skip(whole.0.len() as int));
                        return count;
                    }
                    let ghost rest = chunks@;
                    let chunk: bytes::Bytes = chunks.remove(0);
                    self.supply_chunk(Some(chunk));
                    assert(chunks@ =~= all.skip(taken as int + 1));
                    assert(data_of(rest)[0] == chunk_data(chunk));
                    assert(data_of(chunks@) =~= data_of(rest).skip(1));
                    proof {
                        taken = taken + 1;
                    }
                    written = count;
                    let ghost later = read_run(
                        Some(chunk_data(chunk)),
                        data_of(chunks@),
                        (length - written) as nat,
                    );
                    assert(start.take(count - step.0.len()) + (step.0 + later.0)
                        =~= buffer@.take(count as int) + later.0);
                },
            }
        }
    }
}

/// What is still to be read of a body: the pending chunk and those that are to arrive.
pub open spec fn unread(pending: Option<Seq<u8>>, chunks: Seq<Seq<u8>>) -> Seq<u8> {
    (match pending {
        Some(data) => data,
        None => Seq::empty(),
    }) + chunks.flatten()
}

/// A read delivers the next bytes of the body, as many as there is room for, and leaves
/// exactly the rest to be read; it comes up short only when the body is at its end.
pub proof fn law_read_delivers_the_body(pending: Option<Seq<u8>>, chunks: Seq<Seq<u8>>, room: nat)
    ensures
        ({
            let (bytes, left, taken) = read_run(pending, chunks, room);
            let body = unread(pending, chunks);
            &&& taken <= chunks.len()
            &&& bytes == body.take(shorter(room, body.len()) as int)
            &&& unread(left, chunks.skip(taken as int)) == body.skip(bytes.len() as int)
            &&& bytes.len() < room ==> left is None && taken == chunks.len()
        }),
    decreases chunks.len(),
{
    let (copied, left) = read_step(pending, room);
    let body = unread(pending, chunks);
    let (bytes, rest, taken) = read_run(pending, chunks, room);
    if copied.len() >= room || chunks.len() == 0 {
        assert(chunks.skip(0) =~= chunks);
        assert(bytes =~= body.take(shorter(room, body.len()) as int));
        assert(unread(left, chunks) =~= body.skip(bytes.len() as int));
    } else {
        let room_left = (room - copied.len()) as nat;
        law_read_delivers_the_body(Some(chunks[0]), chunks.skip(1), room_left);
        let (more, _, taken_later) = read_run(Some(chunks[0]), chunks.skip(1), room_left);
        let later = unread(Some(chunks[0]), chunks.skip(1));
        assert(chunks.skip(1) =~= chunks.drop_first());
        assert(chunks.flatten() == chunks[0] + chunks.skip(1).flatten());
        assert(body =~= copied + later);
        assert(bytes =~= body.take(shorter(room, body.len()) as int));
        assert(chunks.skip(taken as int) =~= chunks.skip(1).skip(taken_later as int));
        assert(body.skip(bytes.len() as int) =~= later.skip(more.len() as int));
    }
}

/// Two reads in a row deliver what one read with room for both would: no byte of the body is
/// lost, repeated or moved between them.
pub proof fn law_reads_follow_each_other(
    pending: Option<Seq<u8>>,
    chunks: Seq<Seq<u8>>,
    first: nat,
    second: nat,
)
    ensures
        ({
            let (bytes, left, taken) = read_run(pending, chunks, first);
            let (more, _, _) = read_run(left, chunks.skip(taken as int), second);
            bytes + more == read_run(pending, chunks, first + second).0
        }),
{
    let (bytes, left, taken) = read_run(pending, chunks, first);
    let body = unread(pending, chunks);
    law_read_delivers_the_body(pending, chunks, first);
    law_read_delivers_the_body(left, chunks.skip(taken as int), second);
    law_read_delivers_the_body(pending, chunks, first + second);
    let (more, _, _) = read_run(left, chunks.skip(taken as int), second);
    assert(bytes + more =~= body.take(shorter(first + second, body.len()) as int));
}

/// A status line decides on the status when it has a number from 100 to 999 between its first
/// two spaces, whatever stands around it and whatever the status code says.
pub proof fn law_status_line_comes_first(
    headers: &SapiHeaders,
    status: u16,
    start: Seq<u8>,
    n: nat,
    rest: Seq<u8>,
)
    requires
        call_ensures(choose_status, (headers,), status),
        headers.status_line is Some,
        headers.status_line->0@ == start + seq![32u8] + (decimal(n) + seq![32u8] + rest),
        forall|i: int| 0 <= i < start.len() ==> #[trigger] start[i] != 32,
        100 <= n <= 999,
    ensures
        status == n,
{
    law_status_text_reads_back(n, decimal(n));
    let digits = decimal(n);
    law_text_is_cut_at_the_first_separator(start, 32, digits + seq![32u8] + rest);
    assert forall|i: int| 0 <= i < digits.len() implies #[trigger] digits[i] != 32 by {
        assert(status_of_digits(digits) is Some);
    }
    law_text_is_cut_at_the_first_separator(digits, 32, rest);
    let whole = digits + seq![32u8] + rest;
    assert(before_first(whole, 32) == digits);
    whole.index_of_first_ensures(32u8);
    assert(whole[digits.len() as int] == 32);
    assert(whole.contains(32u8));
}

/// Without such a line the status code decides, by its lower sixteen bits: it is the status when
/// it is a number from 100 to 999, and else the status is 200.
pub proof fn law_status_code_comes_second(
    headers: &SapiHeaders,
    status: u16,
    start: Seq<u8>,
    between: Seq<u8>,
    rest: Seq<u8>,
    code: int,
    times: int,
)
    requires
        call_ensures(choose_status, (headers,), status),
        forall|i: int| 0 <= i < start.len() ==> #[trigger] start[i] != 32,
        forall|i: int| 0 <= i < between.len() ==> #[trigger] between[i] != 32,
        forall|n: nat| 100 <= n <= 999 ==> between != #[trigger] decimal(n),
        headers.status_line matches Some(line) ==> {
            ||| line@ == start
            ||| line@ == start + seq![32u8] + between
            ||| line@ == start + seq![32u8] + (between + seq![32u8] + rest)
        },
        0 <= code < 0x1_0000,
        headers.response_code == code + 0x1_0000 * times,
    ensures
        100 <= code <= 999 ==> status == code,
        !(100 <= code <= 999) ==> status == 200,
{
    law_text_is_cut_at_the_first_separator(start, 32, between);
    let whole = between + seq![32u8] + rest;
    law_text_is_cut_at_the_first_separator(start, 32, whole);
    law_text_is_cut_at_the_first_separator(between, 32, rest);
    between.index_of_first_ensures(32u8);
    whole.index_of_first_ensures(32u8);
    assert(whole[between.len() as int] == 32);
    assert(whole.contains(32u8));
    assert(before_first(whole, 32) == between);
    law_status_text_reads_back(0, between);
    assert(headers.response_code as int % 0x1_0000 == code) by (nonlinear_arith)
        requires
            0 <= code < 0x1_0000,
            headers.response_code == code + 0x1_0000 * times,
    ;
}

/// The response head has the status that the script chose; without a report of headers it has
/// the status 200 and no fields.
pub proof fn law_head_has_the_chosen_status(
    report: SapiHeaders,
    status: u16,
    head: Option<ResponseHead>,
    plain: Option<ResponseHead>,
)
    requires
        call_ensures(choose_status, (&report,), status),
        call_ensures(response_head, (Some(report),), head),
        call_ensures(response_head, (None::<SapiHeaders>,), plain),
    ensures
        head is Some ==> head->0.status == status,
        plain is Some,
        plain->0.status == 200,
        header_fields(plain->0.headers).len() == 0,
{
}

/// Every header that a script set with a valid name and a valid value is in the response head,
/// under its name in lower case and with its value byte for byte.
pub proof fn law_every_valid_header_is_sent(
    report: SapiHeaders,
    head: ResponseHead,
    i: int,
)
    requires
        call_ensures(response_head, (Some(report),), Some(head)),
        0 <= i < report.headers@.len(),
        report.headers@[i].value is Some,
        is_header_name(report.headers@[i].name@),
        is_header_value(report.headers@[i].value->0@),
    ensures
        header_fields(head.headers).contains(
            (lower_name(report.headers@[i].name@), report.headers@[i].value->0@),
        ),
{
    lemma_sendable_header_is_a_field(report.headers@, i);
}

proof fn lemma_sendable_header_is_a_field(headers: Seq<SapiHeader>, i: int)
    requires
        0 <= i < headers.len(),
        is_sendable(headers[i]),
    ensures
        response_fields(headers).contains((lower_name(headers[i].name@), headers[i].value->0@)),
    decreases headers.len(),
{
    let field = (lower_name(headers[i].name@), headers[i].value->0@);
    let before = headers.drop_last();
    let fields = response_fields(before);
    let last = headers.last();
    if is_sendable(last) {
        let name = lower_name(last.name@);
        field_names(fields).index_of_last_ensures(name);
        let at = match field_names(fields).index_of_last(name) {
            Some(at) => at + 1,
            None => fields.len() as int,
        };
        let more = with_field(fields, name, last.value->0@);
        assert(more =~= fields.insert(at, (name, last.value->0@)));
        if i == headers.len() - 1 {
            assert(more[at] == field);
        } else {
            lemma_sendable_header_is_a_field(before, i);
            let j = choose|j: int| 0 <= j < fields.len() && fields[j] == field;
            if j < at {
                assert(more[j] == field);
            } else {
                assert(more[j + 1] == field);
            }
        }
    } else {
        lemma_sendable_header_is_a_field(before, i);
    }
}

/// Under each name the response head has the values that the script set for it, as often and in
/// the order in which it set them: all that are valid with a valid name, and no other.
pub proof fn law_values_are_sent_as_they_were_set(
    report: SapiHeaders,
    head: ResponseHead,
    name: Seq<u8>,
)
    requires
        call_ensures(response_head, (Some(report),), Some(head)),
    ensures
        header_fields(head.headers).filter_map(
            |field: (Seq<u8>, Seq<u8>)|
                if field.0 == name {
                    Some(field.1)
                } else {
                    None
                },
        ) == report.headers@.filter_map(
            |header: SapiHeader|
                if header.value is Some && is_header_name(header.name@) && is_header_value(
                    header.value->0@,
                ) && lower_name(header.name@) == name {
                    Some(header.value->0@)
                } else {
                    None
                },
        ),
{
    law_response_carries_the_values_set(report.headers@, name);
    lemma_values_are_filtered(header_fields(head.headers), name);
    lemma_settings_are_filtered(report.headers@, name);
}

proof fn lemma_values_are_filtered(fields: Seq<(Seq<u8>, Seq<u8>)>, name: Seq<u8>)
    ensures
        values_of(fields, name) == fields.filter_map(
            |field: (Seq<u8>, Seq<u8>)|
                if field.0 == name {
                    Some(field.1)
                } else {
                    None
                },
        ),
    decreases fields.len(),
{
    if fields.len() > 0 {
        lemma_values_are_filtered(fields.drop_last(), name);
    }
    let filtered = fields.filter_map(
        |field: (Seq<u8>, Seq<u8>)|
            if field.0 == name {
                Some(field.1)
            } else {
                None
            },
    );
    assert(values_of(fields, name) =~= filtered);
}

proof fn lemma_settings_are_filtered(headers: Seq<SapiHeader>, name: Seq<u8>)
    ensures
        values_set(headers, name) == headers.filter_map(
            |header: SapiHeader|
                if header.value is Some && is_header_name(header.name@) && is_header_value(
                    header.value->0@,
                ) && lower_name(header.name@) == name {
                    Some(header.value->0@)
                } else {
                    None
                },
        ),
    decreases headers.len(),
{
    if headers.len() > 0 {
        lemma_settings_are_filtered(headers.drop_last(), name);
    }
    let filtered = headers.filter_map(
        |header: SapiHeader|
            if header.value is Some && is_header_name(header.name@) && is_header_value(
                header.value->0@,
            ) && lower_name(header.name@) == name {
                Some(header.value->0@)
            } else {
                None
            },
    );
    assert(values_set(headers, name) =~= filtered);
}

/// A response head is built for every report whose headers have no more than 6553 different
/// names, and so for every one with no more than 6553 headers.
pub proof fn law_response_heads_are_built(
    report: SapiHeaders,
    head: Option<ResponseHead>,
    names: Set<Seq<u8>>,
)
    requires
        call_ensures(response_head, (Some(report),), head),
        names.finite(),
        names.len() <= 6553,
        report.headers@.len() <= 6553 || forall|i: int|
            0 <= i < report.headers@.len() ==> names.contains(
                lower_name((#[trigger] report.headers@[i]).name@),
            ),
    ensures
        head is Some,
{
    lemma_names_are_bounded(report.headers@, names);
}

proof fn lemma_names_are_bounded(headers: Seq<SapiHeader>, names: Set<Seq<u8>>)
    requires
        names.finite(),
    ensures
        sendable_names(headers).finite(),
        sendable_names(headers).len() <= headers.len(),
        (forall|i: int|
            0 <= i < headers.len() ==> names.contains(lower_name((#[trigger] headers[i]).name@)))
            ==> sendable_names(headers).subset_of(names) && sendable_names(headers).len()
            <= names.len(),
    decreases headers.len(),
{
    if headers.len() > 0 {
        let before = headers.drop_last();
        lemma_names_are_bounded(before, names);
        if forall|i: int|
            0 <= i < headers.len() ==> names.contains(lower_name((#[trigger] headers[i]).name@)) {
            assert forall|i: int| 0 <= i < before.len() implies names.contains(
                lower_name((#[trigger] before[i]).name@),
            ) by {
                assert(before[i] == headers[i]);
            }
            assert(names.contains(lower_name(headers[headers.len() - 1].name@)));
            assert(sendable_names(headers).subset_of(names));
        }
    }
    if sendable_names(headers).subset_of(names) {
        lemma_len_subset(sendable_names(headers), names);
    }
}

/// When the engine wants no headers, it is told at once that they were sent, and the head stays
/// to be sent. Without a request, or when the head is gone, it is told that sending failed.
/// Otherwise the head goes to the receiver, the one that `response_head` builds, and is gone.
pub proof fn law_head_is_sent_once<B, H, R>(
    server: &mut ServerContext<B, H, R>,
    no_headers: bool,
    headers: Option<SapiHeaders>,
    action: SendHeaders<H>,
    built: Option<ResponseHead>,
)
    requires
        call_ensures(
            ServerContext::<B, H, R>::send_headers,
            (server, no_headers, headers),
            action,
        ),
        call_ensures(response_head, (headers,), built),
    ensures
        ({
            let unsent = old(server).request_ctx is Some && old(
                server,
            ).request_ctx->0.head_tx is Some;
            &&& no_headers ==> *final(server) == *old(server) && action == SendHeaders::<H>::Answer(
                SapiHeaderSendResult::SentSuccessfully,
            )
            &&& !no_headers && !unsent ==> *final(server) == *old(server) && action
                == SendHeaders::<H>::Answer(SapiHeaderSendResult::SendFailed)
            &&& !no_headers && unsent ==> {
                &&& final(server).request_ctx is Some
                &&& final(server).request_ctx->0.head_tx is None
                &&& final(server).request_ctx->0.response_tx == old(
                    server,
                ).request_ctx->0.response_tx
                &&& final(server).request_ctx->0.request_body_rx == old(
                    server,
                ).request_ctx->0.request_body_rx
                &&& final(server).request_ctx->0.uri == old(server).request_ctx->0.uri
                &&& action !is Answer
                &&& action matches SendHeaders::Send { sender, head } ==> {
                    &&& Some(sender) == old(server).request_ctx->0.head_tx
                    &&& built is Some ==> head.status == built->0.status && header_fields(
                        head.headers,
                    ) == header_fields(built->0.headers)
                }
            }
        }),
{
}

/// The response head of every report with no more than 6553 headers is sent, when there is
/// somebody to send it to.
pub proof fn law_usual_heads_are_sent<B, H, R>(
    server: &mut ServerContext<B, H, R>,
    headers: Option<SapiHeaders>,
    action: SendHeaders<H>,
)
    requires
        call_ensures(ServerContext::<B, H, R>::send_headers, (server, false, headers), action),
        server.request_ctx is Some,
        server.request_ctx->0.head_tx is Some,
        headers is Some ==> headers->0.headers@.len() <= 6553,
    ensures
        action is Send,
{
    if headers is Some {
        lemma_names_are_bounded(headers->0.headers@, Set::empty());
    }
}

/// What the engine is told: 1 when the head was sent and 3 when it was not; all bytes written
/// when the client took them, and else none and that the connection is aborted.
pub proof fn law_engine_is_told_what_happened(
    delivered: bool,
    head: SapiHeaderSendResult,
    code: i32,
    length: usize,
    written: WriteAnswer,
    aborted: bool,
)
    requires
        call_ensures(head_answer, (delivered,), head),
        call_ensures(<i32 as From<SapiHeaderSendResult>>::from, (head,), code),
        call_ensures(write_answer, (length, delivered), written),
        call_ensures(flush_answer, (delivered,), aborted),
    ensures
        code == if delivered {
            1i32
        } else {
            3i32
        },
        written.written == if delivered {
            length
        } else {
            0usize
        },
        written.aborted == !delivered,
        aborted == !delivered,
{
}

/// What a script writes goes out as one chunk, byte for byte; nothing goes out when it writes
/// nothing or there is no request.
pub proof fn law_output_goes_out_unchanged<B, H, R>(
    server: &ServerContext<B, H, R>,
    data: &[u8],
    chunk: Option<bytes::Bytes>,
)
    requires
        call_ensures(ServerContext::<B, H, R>::ub_write, (server, data), chunk),
    ensures
        data@.len() > 0 && server.request_ctx is Some ==> chunk is Some && chunk_data(chunk->0)
            == data@,
        data@.len() == 0 || server.request_ctx is None ==> chunk is None,
{
}

/// A read copies the next bytes of the pending chunk behind those that are there, as many as the
/// chunk has and the buffer takes, and keeps the rest of the chunk. It is over when the buffer is
/// full, and wants another chunk before that.
pub proof fn law_read_copies_from_the_chunk<B, H, R>(
    ctx: &mut PhpRequestContext<B, H, R>,
    buffer: &mut [u8],
    written: usize,
    next: ReadPost,
    data: Seq<u8>,
)
    requires
        call_ensures(
            PhpRequestContext::<B, H, R>::read_post,
            (ctx, buffer, written),
            next,
        ),
        written <= buffer@.len(),
        ctx.request_body_rx is Some,
        data == match ctx.current_request_body_chunk {
            Some(chunk) => chunk_data(chunk),
            None => Seq::empty(),
        },
    ensures
        ({
            let length = old(buffer)@.len();
            let room = length - written;
            let count = if data.len() <= room {
                data.len() as int
            } else {
                room
            };
            &&& final(buffer)@.len() == length
            &&& forall|i: int| 0 <= i < written ==> #[trigger] final(buffer)@[i] == old(buffer)@[i]
            &&& forall|i: int|
                written <= i < written + count ==> #[trigger] final(buffer)@[i] == data[i - written]
            &&& forall|i: int|
                written + count <= i < length ==> #[trigger] final(buffer)@[i] == old(buffer)@[i]
            &&& written + count < length ==> next == ReadPost::NeedChunk((written + count) as usize)
                && final(ctx).current_request_body_chunk is None
            &&& written + count == length ==> next == ReadPost::Done((written + count) as usize)
            &&& count < data.len() ==> final(ctx).current_request_body_chunk is Some && chunk_data(
                final(ctx).current_request_body_chunk->0,
            ) == data.skip(count)
            &&& count == data.len() && room > 0 ==> final(ctx).current_request_body_chunk is None
            &&& final(ctx).request_body_rx == old(ctx).request_body_rx
            &&& final(ctx).head_tx == old(ctx).head_tx
            &&& final(ctx).response_tx == old(ctx).response_tx
        }),
{
}

/// Nothing is read of a request without a body.
pub proof fn law_no_body_no_bytes<B, H, R>(
    ctx: &mut PhpRequestContext<B, H, R>,
    buffer: &mut [u8],
    written: usize,
    next: ReadPost,
)
    requires
        call_ensures(
            PhpRequestContext::<B, H, R>::read_post,
            (ctx, buffer, written),
            next,
        ),
        written <= buffer@.len(),
        ctx.request_body_rx is None,
    ensures
        next == ReadPost::Done(written),
        final(buffer)@ == old(buffer)@,
        *final(ctx) == *old(ctx),
{
}

/// The chunk that arrives is the one that is read next; none means that the body is at its end.
pub proof fn law_supplied_chunk_is_pending<B, H, R>(
    ctx: &mut PhpRequestContext<B, H, R>,
    chunk: Option<bytes::Bytes>,
    more: bool,
)
    requires
        call_ensures(PhpRequestContext::<B, H, R>::supply_chunk, (ctx, chunk), more),
    ensures
        more <==> chunk is Some,
        final(ctx).current_request_body_chunk == chunk,
        final(ctx).request_body_rx == old(ctx).request_body_rx,
        final(ctx).head_tx == old(ctx).head_tx,
        final(ctx).uri == old(ctx).uri,
{
}

/// A whole read delivers the next bytes of the body, as many as the buffer takes or there are,
/// at the start of the buffer, and leaves exactly the rest of the body to be read.
pub proof fn law_whole_read_delivers_the_body<B, H, R>(
    ctx: &mut PhpRequestContext<B, H, R>,
    buffer: &mut [u8],
    chunks: &mut Vec<bytes::Bytes>,
    count: usize,
)
    requires
        call_ensures(
            PhpRequestContext::<B, H, R>::read_through,
            (ctx, buffer, chunks),
            count,
        ),
        ctx.request_body_rx is Some,
    ensures
        ({
            let body = unread(
                pending_data(old(ctx).current_request_body_chunk),
                data_of(old(chunks)@),
            );
            let rest = unread(
                pending_data(final(ctx).current_request_body_chunk),
                data_of(final(chunks)@),
            );
            &&& count <= body.len() && count <= old(buffer)@.len()
            &&& count == body.len() || count == old(buffer)@.len()
            &&& body == final(buffer)@.take(count as int) + rest
            &&& final(buffer)@.skip(count as int) == old(buffer)@.skip(count as int)
        }),
{
    let pending = pending_data(old(ctx).current_request_body_chunk);
    let chunk_list = data_of(old(chunks)@);
    law_read_delivers_the_body(pending, chunk_list, old(buffer)@.len());
    let (bytes, left, taken) = read_run(pending, chunk_list, old(buffer)@.len());
    let body = unread(pending, chunk_list);
    assert(data_of(final(chunks)@) =~= chunk_list.skip(taken as int));
    assert(final(buffer)@.take(count as int) =~= bytes);
    assert(final(buffer)@.skip(count as int) =~= old(buffer)@.skip(count as int));
    assert(body =~= bytes + body.skip(bytes.len() as int));
}

/// When the engine ends a request it is told of success, whether the thread has a worker or not;
/// a worker stays, without a request.
pub proof fn law_engine_ends_requests<B, H, R>(
    worker: &mut ServerContext<B, H, R>,
    code: i32,
    nobody: i32,
)
    requires
        call_ensures(deactivate::<B, H, R>, (Some(worker),), code),
        call_ensures(deactivate::<B, H, R>, (None::<&mut ServerContext<B, H, R>>,), nobody),
    ensures
        code == 0,
        nobody == 0,
        final(worker).request_ctx is None,
        final(worker).worker_config == old(worker).worker_config,
{
}

} // verus!
