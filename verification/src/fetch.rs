//! The records of an outbound fetch and their wire form.

use vstd::prelude::*;
use vstd::slice::slice_to_vec;
use crate::exchange::{
    begin_spec, optional_bytes, step_spec, well_formed, ActionView, EventView, Exchange,
    ExchangeError, ExchangeView, HostAction, HostCall, HostEvent, HostFunction, Outcome,
    OutcomeView, StageView, Step, StepView,
};
use crate::memory::{is_valid_offset, Handle, MemoryHandle};
use crate::headers::{collect, distinct_names, lemma_collect_of_distinct, Entry, Headers};
use crate::wire::{
    length_bytes, lemma_length_round_trip, lemma_mapping_round_trip,
    lemma_optional_text_round_trip, lemma_parse_bounds, lemma_text_round_trip,
    lemma_uint_round_trip, mapping_bytes, mapping_fits, optional_text_bytes,
    parse_length, parse_mapping, parse_optional_text, parse_text, parse_uint, put_length,
    put_mapping, put_nil, put_text, put_uint, read_length, read_mapping, read_optional_text,
    read_text, read_uint, text_bytes, text_fits, uint_bytes, Family, WireError,
};

verus! {

/// What the guest asks the host to fetch.
#[derive(Debug)]
pub struct FetchRequest {
    pub url: String,
    pub method: String,
    pub headers: Headers,
}

/// A request as the contracts see it.
pub struct RequestView {
    pub url: Seq<char>,
    pub method: Seq<char>,
    pub headers: Seq<Entry>,
}

impl View for FetchRequest {
    type V = RequestView;

    open spec fn view(&self) -> RequestView {
        RequestView { url: self.url@, method: self.method@, headers: self.headers.entries() }
    }
}

/// What the host answers. A `body_offset` of zero says that there is no body;
/// any other value is the offset of the block that holds it.
#[derive(Debug)]
pub struct FetchResponse {
    pub status: u16,
    pub headers: Headers,
    pub body_offset: u64,
    pub error: Option<String>,
}

/// A response as the contracts see it.
pub struct ResponseView {
    pub status: u16,
    pub headers: Seq<Entry>,
    pub body_offset: u64,
    pub error: Option<Seq<char>>,
}

/// The text inside an optional string.
pub open spec fn optional_view(text: Option<String>) -> Option<Seq<char>> {
    match text {
        Some(t) => Some(t@),
        None => None,
    }
}

impl View for FetchResponse {
    type V = ResponseView;

    open spec fn view(&self) -> ResponseView {
        ResponseView {
            status: self.status,
            headers: self.headers.entries(),
            body_offset: self.body_offset,
            error: optional_view(self.error),
        }
    }
}

/// Whether every part of the request can be written.
pub open spec fn request_fits(r: RequestView) -> bool {
    text_fits(r.url) && text_fits(r.method) && mapping_fits(r.headers)
}

/// The wire form of a request: an array of the URL, the method and the headers.
pub open spec fn request_bytes(r: RequestView) -> Seq<u8> {
    length_bytes(Family::Array, 3) + text_bytes(r.url) + text_bytes(r.method) + mapping_bytes(
        r.headers,
    )
}

/// Reads a request from the front of the bytes. Of a header name that is
/// written more than once the last value counts. Bytes after the record are
/// not looked at.
pub open spec fn parse_request(s: Seq<u8>) -> Result<RequestView, WireError> {
    match parse_length(s, Family::Array) {
        Err(e) => Err(e),
        Ok((count, a)) => if count != 3 {
            Err(WireError::WrongFieldCount)
        } else {
            match parse_text(s.skip(a)) {
                Err(e) => Err(e),
                Ok((url, b)) => match parse_text(s.skip(a + b)) {
                    Err(e) => Err(e),
                    Ok((method, c)) => match parse_mapping(s.skip(a + b + c)) {
                        Err(e) => Err(e),
                        Ok((entries, d)) => Ok(
                            RequestView { url, method, headers: collect(entries) },
                        ),
                    },
                },
            }
        },
    }
}

/// Whether every part of the response can be written.
pub open spec fn response_fits(r: ResponseView) -> bool {
    mapping_fits(r.headers) && (r.error matches Some(e) ==> text_fits(e))
}

/// The wire form of a response: an array of the status, the headers, the
/// offset of the body and the error message, if any.
pub open spec fn response_bytes(r: ResponseView) -> Seq<u8> {
    length_bytes(Family::Array, 4) + uint_bytes(r.status as int) + mapping_bytes(r.headers)
        + uint_bytes(r.body_offset as int) + optional_text_bytes(r.error)
}

/// Reads a response from the front of the bytes. Bytes after the record are
/// not looked at.
pub open spec fn parse_response(s: Seq<u8>) -> Result<ResponseView, WireError> {
    match parse_length(s, Family::Array) {
        Err(e) => Err(e),
        Ok((count, a)) => if count != 4 {
            Err(WireError::WrongFieldCount)
        } else {
            match parse_uint(s.skip(a)) {
                Err(e) => Err(e),
                Ok((status, b)) => if status > u16::MAX {
                    Err(WireError::OutOfRange)
                } else {
                    match parse_mapping(s.skip(a + b)) {
                        Err(e) => Err(e),
                        Ok((entries, c)) => match parse_uint(s.skip(a + b + c)) {
                            Err(e) => Err(e),
                            Ok((body_offset, d)) => match parse_optional_text(
                                s.skip(a + b + c + d),
                            ) {
                                Err(e) => Err(e),
                                Ok((error, f)) => Ok(
                                    ResponseView {
                                        status: status as u16,
                                        headers: collect(entries),
                                        body_offset: body_offset as u64,
                                        error,
                                    },
                                ),
                            },
                        },
                    }
                },
            }
        },
    }
}

/// Encoding a request and decoding the bytes gives the request back, whatever
/// follows the bytes.
pub proof fn lemma_request_round_trip(r: RequestView, rest: Seq<u8>)
    requires
        request_fits(r),
        distinct_names(r.headers),
    ensures
        parse_request(request_bytes(r) + rest) == Ok::<RequestView, WireError>(r),
{
    let head = length_bytes(Family::Array, 3);
    let url = text_bytes(r.url);
    let method = text_bytes(r.method);
    let headers = mapping_bytes(r.headers);
    let s = request_bytes(r) + rest;
    assert(s =~= head + (url + (method + (headers + rest))));
    lemma_length_round_trip(Family::Array, 3, url + (method + (headers + rest)));
    assert(s.skip(head.len() as int) =~= url + (method + (headers + rest)));
    lemma_text_round_trip(r.url, method + (headers + rest));
    assert(s.skip((head.len() + url.len()) as int) =~= method + (headers + rest));
    lemma_text_round_trip(r.method, headers + rest);
    assert(s.skip((head.len() + url.len() + method.len()) as int) =~= headers + rest);
    lemma_mapping_round_trip(r.headers, rest);
    lemma_collect_of_distinct(r.headers);
}

/// Encoding a response and decoding the bytes gives the response back,
/// whatever follows the bytes.
pub proof fn lemma_response_round_trip(r: ResponseView, rest: Seq<u8>)
    requires
        response_fits(r),
        distinct_names(r.headers),
    ensures
        parse_response(response_bytes(r) + rest) == Ok::<ResponseView, WireError>(r),
{
    let head = length_bytes(Family::Array, 4);
    let status = uint_bytes(r.status as int);
    let headers = mapping_bytes(r.headers);
    let offset = uint_bytes(r.body_offset as int);
    let error = optional_text_bytes(r.error);
    let s = response_bytes(r) + rest;
    assert(s =~= head + (status + (headers + (offset + (error + rest)))));
    lemma_length_round_trip(Family::Array, 4, status + (headers + (offset + (error + rest))));
    assert(s.skip(head.len() as int) =~= status + (headers + (offset + (error + rest))));
    lemma_uint_round_trip(r.status as int, headers + (offset + (error + rest)));
    assert(s.skip((head.len() + status.len()) as int) =~= headers + (offset + (error + rest)));
    lemma_mapping_round_trip(r.headers, offset + (error + rest));
    assert(s.skip((head.len() + status.len() + headers.len()) as int) =~= offset + (error
        + rest));
    lemma_uint_round_trip(r.body_offset as int, error + rest);
    assert(s.skip((head.len() + status.len() + headers.len() + offset.len()) as int) =~= error
        + rest);
    lemma_optional_text_round_trip(r.error, rest);
    lemma_collect_of_distinct(r.headers);
}


impl FetchRequest {
    /// The wire form of the request. Fails with `TooLong` exactly when a text
    /// or the header count is too long for the format.
    pub fn to_wire(&self) -> (r: Result<Vec<u8>, WireError>)
        ensures
            r is Ok <==> request_fits(self@),
            r matches Ok(bytes) ==> bytes@ == request_bytes(self@),
            r matches Err(e) ==> e == WireError::TooLong,
    {
        let mut out: Vec<u8> = Vec::new();
        put_length(&mut out, Family::Array, 3);
        match put_text(&mut out, self.url.as_str()) {
            Ok(()) => {},
            Err(e) => { return Err(e); },
        }
        match put_text(&mut out, self.method.as_str()) {
            Ok(()) => {},
            Err(e) => { return Err(e); },
        }
        match put_mapping(&mut out, &self.headers) {
            Ok(()) => {},
            Err(e) => { return Err(e); },
        }
        assert(out@ =~= request_bytes(self@));
        Ok(out)
    }

    /// Reads a request from the front of the bytes: the request that
    /// [`parse_request`] gives, or its error.
    pub fn from_wire(bytes: &[u8]) -> (r: Result<FetchRequest, WireError>)
        ensures
            match parse_request(bytes@) {
                Ok(request) => r matches Ok(found) && found@ == request,
                Err(e) => r matches Err(x) && x == e,
            },
    {
        let ghost s = bytes@;
        assert(s.skip(0) =~= s);
        proof {
            lemma_parse_bounds(s);
        }
        let (count, a) = match read_length(bytes, 0, Family::Array) {
            Ok(found) => found,
            Err(e) => { return Err(e); },
        };
        if count != 3 {
            return Err(WireError::WrongFieldCount);
        }
        proof {
            lemma_parse_bounds(s.skip(a as int));
        }
        let (url, b) = match read_text(bytes, a) {
            Ok(found) => found,
            Err(e) => { return Err(e); },
        };
        proof {
            lemma_parse_bounds(s.skip(b as int));
        }
        let (method, c) = match read_text(bytes, b) {
            Ok(found) => found,
            Err(e) => { return Err(e); },
        };
        let (headers, d) = match read_mapping(bytes, c) {
            Ok(found) => found,
            Err(e) => { return Err(e); },
        };
        Ok(FetchRequest { url, method, headers })
    }
}

impl FetchResponse {
    /// The wire form of the response. Fails with `TooLong` exactly when a text
    /// or the header count is too long for the format.
    pub fn to_wire(&self) -> (r: Result<Vec<u8>, WireError>)
        ensures
            r is Ok <==> response_fits(self@),
            r matches Ok(bytes) ==> bytes@ == response_bytes(self@),
            r matches Err(e) ==> e == WireError::TooLong,
    {
        let mut out: Vec<u8> = Vec::new();
        put_length(&mut out, Family::Array, 4);
        put_uint(&mut out, self.status as u64);
        match put_mapping(&mut out, &self.headers) {
            Ok(()) => {},
            Err(e) => { return Err(e); },
        }
        put_uint(&mut out, self.body_offset);
        match &self.error {
            Some(message) => {
                match put_text(&mut out, message.as_str()) {
                    Ok(()) => {},
                    Err(e) => { return Err(e); },
                }
            },
            None => {
                put_nil(&mut out);
            },
        }
        assert(out@ =~= response_bytes(self@));
        Ok(out)
    }

    /// Reads a response from the front of the bytes: the response that
    /// [`parse_response`] gives, or its error.
    pub fn from_wire(bytes: &[u8]) -> (r: Result<FetchResponse, WireError>)
        ensures
            match parse_response(bytes@) {
                Ok(response) => r matches Ok(found) && found@ == response,
                Err(e) => r matches Err(x) && x == e,
            },
    {
        let ghost s = bytes@;
        assert(s.skip(0) =~= s);
        proof {
            lemma_parse_bounds(s);
        }
        let (count, a) = match read_length(bytes, 0, Family::Array) {
            Ok(found) => found,
            Err(e) => { return Err(e); },
        };
        if count != 4 {
            return Err(WireError::WrongFieldCount);
        }
        proof {
            lemma_parse_bounds(s.skip(a as int));
        }
        let (status, b) = match read_uint(bytes, a) {
            Ok(found) => found,
            Err(e) => { return Err(e); },
        };
        if status > 0xffff {
            return Err(WireError::OutOfRange);
        }
        let (headers, c) = match read_mapping(bytes, b) {
            Ok(found) => found,
            Err(e) => { return Err(e); },
        };
        proof {
            lemma_parse_bounds(s.skip(c as int));
        }
        let (body_offset, d) = match read_uint(bytes, c) {
            Ok(found) => found,
            Err(e) => { return Err(e); },
        };
        let (error, f) = match read_optional_text(bytes, d) {
            Ok(found) => found,
            Err(e) => { return Err(e); },
        };
        Ok(FetchResponse { status: status as u16, headers, body_offset, error })
    }
}


/// Why a fetch did not bring a response.
#[derive(Debug, PartialEq, Eq)]
pub enum FetchError {
    /// The request could not be written as a wire record.
    Encode(WireError),
    /// The crossing of the host boundary failed; `Rejected` is the host
    /// answering the fetch with the failure sentinel.
    Exchange(ExchangeError),
    /// The host's answer is not a response record.
    Decode(WireError),
    /// The host reports that the fetch failed, with this message.
    Host(String),
}

/// A [`FetchError`] as the contracts see it.
pub enum FetchErrorView {
    Encode(WireError),
    Exchange(ExchangeError),
    Decode(WireError),
    Host(Seq<char>),
}

impl View for FetchError {
    type V = FetchErrorView;

    open spec fn view(&self) -> FetchErrorView {
        match *self {
            FetchError::Encode(e) => FetchErrorView::Encode(e),
            FetchError::Exchange(e) => FetchErrorView::Exchange(e),
            FetchError::Decode(e) => FetchErrorView::Decode(e),
            FetchError::Host(message) => FetchErrorView::Host(message@),
        }
    }
}

/// The response to a fetch: status, headers, and the bytes of the body.
#[derive(Debug)]
pub struct HttpResponse {
    status: u16,
    headers: Headers,
    body: Vec<u8>,
}

/// An [`HttpResponse`] as the contracts see it.
pub struct HttpResponseView {
    pub status: u16,
    pub headers: Seq<Entry>,
    pub body: Seq<u8>,
}

impl View for HttpResponse {
    type V = HttpResponseView;

    closed spec fn view(&self) -> HttpResponseView {
        HttpResponseView {
            status: self.status,
            headers: self.headers.entries(),
            body: self.body@,
        }
    }
}

impl HttpResponse {
    /// The status code of the response.
    pub fn status_code(&self) -> (r: u16)
        ensures
            r == self@.status,
    {
        self.status
    }

    /// The headers of the response.
    pub fn headers(&self) -> (r: &Headers)
        ensures
            r.entries() == self@.headers,
    {
        &self.headers
    }

    /// The bytes of the body; none where the response has no body.
    pub fn body(&self) -> (r: Vec<u8>)
        ensures
            r@ == self@.body,
    {
        slice_to_vec(self.body.as_slice())
    }
}

/// Where a fetch stands, as the contracts see it.
pub enum FetchStageView {
    /// The request is on its way and the answer has not been copied out yet.
    Answer { exchange: ExchangeView },
    /// The answer has been read; the length of the body is being looked up.
    BodyLength { response: ResponseView },
    /// The body is being copied out.
    BodyBytes { status: u16, headers: Seq<Entry>, handle: MemoryHandle },
}

/// A step of a fetch as the contracts see it.
pub enum FetchStepView {
    Next { exchange: FetchStageView, action: ActionView },
    Done { result: Result<HttpResponseView, FetchErrorView> },
}

/// The exchange behind a fetch is one with the fetch function, and no length
/// is looked up and no block copied but at a valid offset.
pub open spec fn fetch_well_formed(x: FetchStageView) -> bool {
    match x {
        FetchStageView::Answer { exchange } => exchange.function == HostFunction::Fetch
            && well_formed(exchange),
        FetchStageView::BodyLength { response } => is_valid_offset(response.body_offset),
        FetchStageView::BodyBytes { handle, .. } => is_valid_offset(handle.offset),
    }
}

/// How a fetch begins: the request is encoded and the exchange with the host
/// begins with storing it. A request that cannot be encoded ends the fetch
/// before anything is asked of the host.
pub open spec fn request_spec(request: RequestView, body: Option<Seq<u8>>) -> FetchStepView {
    if !request_fits(request) {
        FetchStepView::Done { result: Err(FetchErrorView::Encode(WireError::TooLong)) }
    } else {
        FetchStepView::Next {
            exchange: FetchStageView::Answer {
                exchange: begin_spec(HostFunction::Fetch, request_bytes(request), body).0,
            },
            action: begin_spec(HostFunction::Fetch, request_bytes(request), body).1,
        }
    }
}

/// What follows once the length of the body is known, or once it is known
/// that there is no body: an error that the host reported ends the fetch; a
/// response without a body is complete, with an empty body; otherwise the body
/// is copied out.
pub open spec fn after_body_length(response: ResponseView, length: u64) -> FetchStepView {
    match response.error {
        Some(message) => FetchStepView::Done { result: Err(FetchErrorView::Host(message)) },
        None => if response.body_offset == 0 {
            FetchStepView::Done {
                result: Ok(
                    HttpResponseView {
                        status: response.status,
                        headers: response.headers,
                        body: Seq::empty(),
                    },
                ),
            }
        } else {
            FetchStepView::Next {
                exchange: FetchStageView::BodyBytes {
                    status: response.status,
                    headers: response.headers,
                    handle: MemoryHandle { offset: response.body_offset, length },
                },
                action: ActionView::Load {
                    handle: MemoryHandle { offset: response.body_offset, length },
                },
            }
        },
    }
}

/// What follows once the answer has been copied out: it is read as a response
/// record; where the record names a body, the length of the body is looked up.
pub open spec fn after_answer(bytes: Seq<u8>) -> FetchStepView {
    match parse_response(bytes) {
        Err(e) => FetchStepView::Done { result: Err(FetchErrorView::Decode(e)) },
        Ok(response) => if response.body_offset == 0 {
            after_body_length(response, 0)
        } else {
            FetchStepView::Next {
                exchange: FetchStageView::BodyLength { response },
                action: ActionView::Length { offset: response.body_offset },
            }
        },
    }
}

/// The rule of a fetch: what follows from each event at each stage.
pub open spec fn fetch_step_spec(x: FetchStageView, event: EventView) -> FetchStepView {
    match x {
        FetchStageView::Answer { exchange } => match step_spec(exchange, event) {
            StepView::Next { exchange: next, action } => FetchStepView::Next {
                exchange: FetchStageView::Answer { exchange: next },
                action,
            },
            StepView::Done { result: Err(e) } => FetchStepView::Done {
                result: Err(FetchErrorView::Exchange(e)),
            },
            StepView::Done { result: Ok(OutcomeView::Code { .. }) } => FetchStepView::Done {
                result: Err(FetchErrorView::Exchange(ExchangeError::UnexpectedEvent)),
            },
            StepView::Done { result: Ok(OutcomeView::Block { bytes }) } => after_answer(bytes),
        },
        FetchStageView::BodyLength { response } => match event {
            EventView::Length { length } => after_body_length(response, length),
            _ => FetchStepView::Done {
                result: Err(FetchErrorView::Exchange(ExchangeError::UnexpectedEvent)),
            },
        },
        FetchStageView::BodyBytes { status, headers, handle } => match event {
            EventView::Loaded { bytes } => if bytes.len() == handle.length {
                FetchStepView::Done { result: Ok(HttpResponseView { status, headers, body: bytes }) }
            } else {
                FetchStepView::Done {
                    result: Err(FetchErrorView::Exchange(ExchangeError::LengthMismatch)),
                }
            },
            _ => FetchStepView::Done {
                result: Err(FetchErrorView::Exchange(ExchangeError::UnexpectedEvent)),
            },
        },
    }
}

/// When the host answers the fetch with the failure sentinel, the fetch ends
/// with an error at once: nothing more is asked of the host, so no length is
/// looked up and nothing is copied.
pub proof fn lemma_rejected_fetch_ends(exchange: ExchangeView, value: u64)
    requires
        exchange.stage is Calling,
        exchange.function == HostFunction::Fetch,
        !is_valid_offset(value),
    ensures
        fetch_step_spec(FetchStageView::Answer { exchange }, EventView::Returned { value }) == (
        FetchStepView::Done { result: Err(FetchErrorView::Exchange(ExchangeError::Rejected)) }),
{
}

/// A response whose body offset is zero and that reports no error gives a
/// response with the empty body, and the fetch ends without a length lookup
/// or a copy for the body.
pub proof fn lemma_no_body_is_empty_body(exchange: ExchangeView, bytes: Seq<u8>)
    requires
        exchange.function == HostFunction::Fetch,
        exchange.stage matches StageView::Loading { handle } && handle.length == bytes.len(),
        parse_response(bytes) matches Ok(response) && response.body_offset == 0
            && response.error is None,
    ensures
        fetch_step_spec(FetchStageView::Answer { exchange }, EventView::Loaded { bytes }) == (
        FetchStepView::Done {
            result: Ok(
                HttpResponseView {
                    status: parse_response(bytes)->Ok_0.status,
                    headers: parse_response(bytes)->Ok_0.headers,
                    body: Seq::empty(),
                },
            ),
        }),
{
}

/// When the bytes copied out of the answer's block are the wire form of a
/// response, the fetch goes on with exactly that response: without a body it
/// ends at once, and otherwise the length of the body is looked up.
pub proof fn lemma_answer_is_read_as_written(exchange: ExchangeView, response: ResponseView)
    requires
        exchange.function == HostFunction::Fetch,
        exchange.stage matches StageView::Loading { handle } && handle.length == response_bytes(
            response,
        ).len(),
        response_fits(response),
        distinct_names(response.headers),
    ensures
        fetch_step_spec(
            FetchStageView::Answer { exchange },
            EventView::Loaded { bytes: response_bytes(response) },
        ) == if response.body_offset == 0 {
            after_body_length(response, 0)
        } else {
            FetchStepView::Next {
                exchange: FetchStageView::BodyLength { response },
                action: ActionView::Length { offset: response.body_offset },
            }
        },
{
    lemma_response_round_trip(response, Seq::empty());
    assert(response_bytes(response) + Seq::<u8>::empty() =~= response_bytes(response));
}

/// A fetch stays well formed, and whatever the host reports it never looks up
/// the length of an invalid offset nor copies from one.
pub proof fn lemma_fetch_reads_at_valid_offsets(x: FetchStageView, event: EventView)
    requires
        fetch_well_formed(x),
    ensures
        fetch_step_spec(x, event) matches FetchStepView::Next { exchange, action } ==> {
            &&& fetch_well_formed(exchange)
            &&& action matches ActionView::Length { offset } ==> is_valid_offset(offset)
            &&& action matches ActionView::Load { handle } ==> is_valid_offset(handle.offset)
        },
{
}

#[derive(Debug)]
enum FetchStage {
    Answer { exchange: Exchange },
    BodyLength { response: FetchResponse, body: Handle },
    BodyBytes { status: u16, headers: Headers, handle: MemoryHandle },
}

/// A fetch under way.
#[derive(Debug)]
pub struct FetchExchange {
    stage: FetchStage,
}

impl View for FetchExchange {
    type V = FetchStageView;

    closed spec fn view(&self) -> FetchStageView {
        match self.stage {
            FetchStage::Answer { exchange } => FetchStageView::Answer { exchange: exchange@ },
            FetchStage::BodyLength { response, .. } => FetchStageView::BodyLength {
                response: response@,
            },
            FetchStage::BodyBytes { status, headers, handle } => FetchStageView::BodyBytes {
                status,
                headers: headers.entries(),
                handle,
            },
        }
    }
}

/// The next thing to do in a fetch, or its end.
#[derive(Debug)]
pub enum FetchStep {
    /// The fetch goes on: perform the action and hand the event to `step`.
    Next { exchange: FetchExchange, action: HostAction },
    /// The fetch is over.
    Done { result: Result<HttpResponse, FetchError> },
}

impl View for FetchStep {
    type V = FetchStepView;

    open spec fn view(&self) -> FetchStepView {
        match *self {
            FetchStep::Next { exchange, action } => FetchStepView::Next {
                exchange: exchange@,
                action: action@,
            },
            FetchStep::Done { result } => FetchStepView::Done {
                result: match result {
                    Ok(response) => Ok(response@),
                    Err(e) => Err(e@),
                },
            },
        }
    }
}

fn unexpected() -> (r: FetchStep)
    ensures
        r@ == (FetchStepView::Done {
            result: Err(FetchErrorView::Exchange(ExchangeError::UnexpectedEvent)),
        }),
{
    FetchStep::Done { result: Err(FetchError::Exchange(ExchangeError::UnexpectedEvent)) }
}

fn continue_after_body_length(response: FetchResponse, body: Option<MemoryHandle>) -> (r:
    FetchStep)
    requires
        match body {
            Some(block) => block.offset == response.body_offset && is_valid_offset(block.offset),
            None => response.body_offset == 0,
        },
    ensures
        r@ == after_body_length(
            response@,
            match body {
                Some(block) => block.length,
                None => 0,
            },
        ),
        r matches FetchStep::Next { exchange, .. } ==> exchange.is_sound(),
{
    let FetchResponse { status, headers, body_offset, error } = response;
    match error {
        Some(message) => FetchStep::Done { result: Err(FetchError::Host(message)) },
        None => match body {
            None => FetchStep::Done {
                result: Ok(HttpResponse { status, headers, body: Vec::new() }),
            },
            Some(handle) => FetchStep::Next {
                exchange: FetchExchange { stage: FetchStage::BodyBytes { status, headers, handle } },
                action: HostAction::Load { handle },
            },
        },
    }
}

fn continue_after_answer(bytes: Vec<u8>) -> (r: FetchStep)
    ensures
        r@ == after_answer(bytes@),
        r matches FetchStep::Next { exchange, .. } ==> exchange.is_sound(),
{
    match FetchResponse::from_wire(bytes.as_slice()) {
        Err(e) => FetchStep::Done { result: Err(FetchError::Decode(e)) },
        Ok(response) => match Handle::new(response.body_offset) {
            None => continue_after_body_length(response, None),
            Some(body) => FetchStep::Next {
                exchange: FetchExchange { stage: FetchStage::BodyLength { response, body } },
                action: HostAction::Length { offset: body.offset() },
            },
        },
    }
}

/// Begins a fetch: encodes the request and asks for it to be stored, the
/// first step of its exchange with the host. Fails at once, with nothing
/// asked of the host, exactly when the request cannot be encoded.
pub fn request(req: &FetchRequest, body: Option<Vec<u8>>) -> (r: FetchStep)
    ensures
        r@ == request_spec(req@, optional_bytes(body)),
{
    match req.to_wire() {
        Err(e) => FetchStep::Done { result: Err(FetchError::Encode(e)) },
        Ok(bytes) => {
            let (exchange, action) = Exchange::begin(HostCall::Fetch { request: bytes, body });
            FetchStep::Next {
                exchange: FetchExchange { stage: FetchStage::Answer { exchange } },
                action,
            }
        },
    }
}

impl FetchExchange {
    #[verifier::type_invariant]
    spec fn is_sound(self) -> bool {
        &&& fetch_well_formed(self@)
        &&& self.stage matches FetchStage::BodyLength { response, body } ==> body.raw()
            == response.body_offset
    }

    /// Takes what the driver reports and decides what follows, by the rule of
    /// a fetch ([`fetch_step_spec`]).
    pub fn step(self, event: HostEvent) -> (r: FetchStep)
        ensures
            r@ == fetch_step_spec(self@, event@),
            fetch_well_formed(self@),
    {
        proof {
            use_type_invariant(&self);
        }
        match self.stage {
            FetchStage::Answer { exchange } => match exchange.step(event) {
                Step::Next { exchange: next, action } => FetchStep::Next {
                    exchange: FetchExchange { stage: FetchStage::Answer { exchange: next } },
                    action,
                },
                Step::Done { result: Err(e) } => FetchStep::Done {
                    result: Err(FetchError::Exchange(e)),
                },
                Step::Done { result: Ok(Outcome::Code { .. }) } => unexpected(),
                Step::Done { result: Ok(Outcome::Block { bytes }) } => continue_after_answer(bytes),
            },
            FetchStage::BodyLength { response, body } => match event {
                HostEvent::Length { length } => continue_after_body_length(
                    response,
                    Some(body.with_length(length)),
                ),
                _ => unexpected(),
            },
            FetchStage::BodyBytes { status, headers, handle } => match event {
                HostEvent::Loaded { bytes } => {
                    if bytes.len() as u64 == handle.length {
                        FetchStep::Done { result: Ok(HttpResponse { status, headers, body: bytes }) }
                    } else {
                        FetchStep::Done {
                            result: Err(FetchError::Exchange(ExchangeError::LengthMismatch)),
                        }
                    }
                },
                _ => unexpected(),
            },
        }
    }
}

} // verus!
