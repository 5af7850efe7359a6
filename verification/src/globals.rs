//! What the script finds in its global namespace, and what each binding does.

use vstd::prelude::*;
use vstd::slice::{slice_subrange, slice_to_vec};
use vstd::string::StringExecFns;
use vstd::utf8::*;
use crate::exchange::{
    begin_spec, ActionView, Exchange, ExchangeError, HostAction, HostCall,
    HostFunction, Outcome, OutcomeView,
};
use crate::fetch::{
    request, request_spec, FetchError, FetchErrorView, FetchExchange,
    FetchRequest, FetchStageView, FetchStep, FetchStepView, HttpResponse, HttpResponseView,
    RequestView,
};
use crate::headers::{collect, Entry, Headers};
use crate::text::{checked_text, lossy_text, replaced_text};
use crate::value::{
    display, joined, lemma_property_views, natural_string, natural_text, property,
    property_views, DynamicValue, ValueView,
};
use crate::wire::WireError;

verus! {

/// What a binding raises in the script instead of returning a value.
#[derive(Debug, PartialEq, Eq)]
pub enum Thrown {
    /// A plain error with its message.
    Error(String),
    /// A type error with its message.
    TypeError(String),
}

/// A [`Thrown`] as the contracts see it.
pub enum ThrownView {
    Error(Seq<char>),
    TypeError(Seq<char>),
}

impl View for Thrown {
    type V = ThrownView;

    open spec fn view(&self) -> ThrownView {
        match self {
            Thrown::Error(message) => ThrownView::Error(message@),
            Thrown::TypeError(message) => ThrownView::TypeError(message@),
        }
    }
}

/// The view of what a binding gives: the view of the value or of what is raised.
pub open spec fn answer_view(answer: Result<DynamicValue, Thrown>) -> Result<ValueView, ThrownView> {
    match answer {
        Ok(value) => Ok(value@),
        Err(thrown) => Err(thrown@),
    }
}

/// An object with one property.
pub fn object1(key: &str, value: DynamicValue) -> (r: DynamicValue)
    ensures
        r@ == ValueView::Object(seq![(key@, value@)]),
{
    let mut properties: Vec<(String, DynamicValue)> = Vec::new();
    properties.push((key.to_owned(), value));
    proof {
        lemma_property_views(properties@);
        assert(property_views(properties@) =~= seq![(key@, value@)]);
    }
    DynamicValue::Object(properties)
}

/// An object with two properties, in this order.
pub fn object2(key1: &str, value1: DynamicValue, key2: &str, value2: DynamicValue) -> (r:
    DynamicValue)
    ensures
        r@ == ValueView::Object(seq![(key1@, value1@), (key2@, value2@)]),
{
    let mut properties: Vec<(String, DynamicValue)> = Vec::new();
    properties.push((key1.to_owned(), value1));
    properties.push((key2.to_owned(), value2));
    proof {
        lemma_property_views(properties@);
        assert(property_views(properties@) =~= seq![(key1@, value1@), (key2@, value2@)]);
    }
    DynamicValue::Object(properties)
}

/// An object with three properties, in this order.
pub fn object3(
    key1: &str,
    value1: DynamicValue,
    key2: &str,
    value2: DynamicValue,
    key3: &str,
    value3: DynamicValue,
) -> (r: DynamicValue)
    ensures
        r@ == ValueView::Object(seq![(key1@, value1@), (key2@, value2@), (key3@, value3@)]),
{
    let mut properties: Vec<(String, DynamicValue)> = Vec::new();
    properties.push((key1.to_owned(), value1));
    properties.push((key2.to_owned(), value2));
    properties.push((key3.to_owned(), value3));
    proof {
        lemma_property_views(properties@);
        assert(property_views(properties@) =~= seq![
            (key1@, value1@),
            (key2@, value2@),
            (key3@, value3@),
        ]);
    }
    DynamicValue::Object(properties)
}

/// The severities of the host's log sink.
#[derive(Clone, Copy, Debug, PartialEq, Eq, Structural)]
pub enum LogLevel {
    Debug,
    Info,
    Warn,
    Error,
}

/// The methods of `console` and the severity each logs at; `log` is another
/// name for `info`.
pub open spec fn console_methods() -> Seq<(Seq<char>, LogLevel)> {
    seq![
        ("log"@, LogLevel::Info),
        ("debug"@, LogLevel::Debug),
        ("info"@, LogLevel::Info),
        ("warn"@, LogLevel::Warn),
        ("error"@, LogLevel::Error),
    ]
}

/// The views of the texts, in order.
pub open spec fn texts_of(texts: Seq<String>) -> Seq<Seq<char>> {
    texts.map_values(|t: String| t@)
}

/// The names of the methods of `console`, each with its severity.
pub fn build_console_object() -> (r: Vec<(String, LogLevel)>)
    ensures
        r@.map_values(|m: (String, LogLevel)| (m.0@, m.1)) == console_methods(),
{
    let mut r: Vec<(String, LogLevel)> = Vec::new();
    r.push(("log".to_owned(), LogLevel::Info));
    r.push(("debug".to_owned(), LogLevel::Debug));
    r.push(("info".to_owned(), LogLevel::Info));
    r.push(("warn".to_owned(), LogLevel::Warn));
    r.push(("error".to_owned(), LogLevel::Error));
    assert(r@.map_values(|m: (String, LogLevel)| (m.0@, m.1)) =~= console_methods());
    r
}

/// The line that a call of a console method logs: its arguments, as text,
/// with one space between each two.
pub fn get_args_as_str(args: &Vec<String>) -> (r: String)
    ensures
        r@ == joined(texts_of(args@), " "@),
{
    let mut out = String::new();
    let mut i: usize = 0;
    let ghost all = texts_of(args@);
    assert(all.take(0) =~= Seq::<Seq<char>>::empty());
    while i < args.len()
        invariant
            i <= args.len(),
            all == texts_of(args@),
            out@ == joined(all.take(i as int), " "@),
        decreases args.len() - i,
    {
        if i > 0 {
            out.append(" ");
        }
        out.append(args[i].as_str());
        proof {
            let upto = all.take(i + 1);
            assert(upto.drop_last() =~= all.take(i as int));
            assert(upto.last() == args@[i as int]@);
            if i == 0 {
                assert(upto[0] == args@[0]@);
                assert(out@ =~= args@[0]@);
            }
        }
        i += 1;
    }
    assert(all.take(args.len() as int) =~= all);
    out
}

/// The message for an argument that is not of the kind a binding needs.
pub open spec fn conversion_message(kind: Seq<char>) -> Seq<char> {
    "Error: could not convert JSValue to "@ + kind
}

/// The byte order mark of UTF-8.
pub open spec fn starts_with_mark(bytes: Seq<u8>) -> bool {
    bytes.len() >= 3 && bytes[0] == 0xEF && bytes[1] == 0xBB && bytes[2] == 0xBF
}

/// What decoding a window of a buffer gives. A window that does not lie
/// within the buffer is an error. A byte order mark in front is dropped unless
/// it is to be kept. Invalid UTF-8 raises a type error when decoding is fatal,
/// and otherwise decodes with replacement characters.
pub open spec fn decode_window(
    buffer: Seq<u8>,
    offset: int,
    length: int,
    fatal: bool,
    ignore_mark: bool,
) -> Result<ValueView, ThrownView> {
    if offset < 0 || length < 0 || offset + length > buffer.len() {
        Err(ThrownView::Error("Provided offset and length is not valid for provided buffer"@))
    } else {
        let window = buffer.subrange(offset, offset + length);
        let bytes = if !ignore_mark && starts_with_mark(window) {
            window.skip(3)
        } else {
            window
        };
        if !fatal {
            Ok(ValueView::Text(lossy_text(bytes)))
        } else if valid_utf8(bytes) {
            Ok(ValueView::Text(decode_utf8(bytes)))
        } else {
            Err(ThrownView::TypeError("The encoded data was not valid utf-8"@))
        }
    }
}

/// What the decoder binding gives for its arguments: a buffer, the offset and
/// the length of the window, whether decoding is fatal, whether a byte order
/// mark is kept. The first argument of the wrong kind raises an error.
pub open spec fn decode_spec(args: Seq<ValueView>) -> Result<ValueView, ThrownView> {
    if args.len() != 5 {
        Err(ThrownView::Error("Expecting 5 arguments, received "@ + natural_text(args.len())))
    } else {
        match args[0] {
            ValueView::Buffer(buffer) => match args[1] {
                ValueView::Int(offset) => match args[2] {
                    ValueView::Int(length) => match args[3] {
                        ValueView::Bool(fatal) => match args[4] {
                            ValueView::Bool(ignore_mark) => decode_window(
                                buffer,
                                offset as int,
                                length as int,
                                fatal,
                                ignore_mark,
                            ),
                            _ => Err(ThrownView::Error(conversion_message("bool"@))),
                        },
                        _ => Err(ThrownView::Error(conversion_message("bool"@))),
                    },
                    _ => Err(ThrownView::Error(conversion_message("usize"@))),
                },
                _ => Err(ThrownView::Error(conversion_message("usize"@))),
            },
            _ => Err(ThrownView::Error(conversion_message("alloc::vec::Vec<u8>"@))),
        }
    }
}

fn conversion_error(kind: &str) -> (r: Thrown)
    ensures
        r@ == ThrownView::Error(conversion_message(kind@)),
{
    let mut message = "Error: could not convert JSValue to ".to_owned();
    message.append(kind);
    Thrown::Error(message)
}

fn count_error(prefix: &str, count: usize) -> (r: Thrown)
    ensures
        r@ == ThrownView::Error(prefix@ + natural_text(count as nat)),
{
    let mut message = prefix.to_owned();
    let digits = natural_string(count as u64);
    message.append(digits.as_str());
    Thrown::Error(message)
}

fn decode_in_window(buffer: &Vec<u8>, offset: i32, length: i32, fatal: bool, ignore_mark: bool) -> (r:
    Result<DynamicValue, Thrown>)
    ensures
        answer_view(r) == decode_window(buffer@, offset as int, length as int, fatal, ignore_mark),
{
    if offset < 0 || length < 0 || offset as u64 + length as u64 > buffer.len() as u64 {
        return Err(
            Thrown::Error(
                "Provided offset and length is not valid for provided buffer".to_owned(),
            ),
        );
    }
    let start = offset as usize;
    let end = start + length as usize;
    let window = slice_subrange(buffer.as_slice(), start, end);
    let bytes = if !ignore_mark && window.len() >= 3 && window[0] == 0xEF && window[1] == 0xBB
        && window[2] == 0xBF {
        let rest = slice_subrange(window, 3, window.len());
        assert(rest@ =~= window@.skip(3));
        rest
    } else {
        window
    };
    if !fatal {
        Ok(DynamicValue::String(replaced_text(bytes)))
    } else {
        match checked_text(bytes) {
            Some(text) => Ok(DynamicValue::String(text.to_owned())),
            None => Err(Thrown::TypeError("The encoded data was not valid utf-8".to_owned())),
        }
    }
}

/// The decoder binding: decodes a window of a buffer as UTF-8 ([`decode_spec`]).
pub fn decode_utf8_buffer_to_js_string(args: &Vec<DynamicValue>) -> (r: Result<
    DynamicValue,
    Thrown,
>)
    ensures
        answer_view(r) == decode_spec(crate::value::views_of(args@)),
{
    proof {
        crate::value::lemma_views_of(args@);
    }
    if args.len() != 5 {
        return Err(count_error("Expecting 5 arguments, received ", args.len()));
    }
    match &args[0] {
        DynamicValue::ArrayBuffer(buffer) => match &args[1] {
            DynamicValue::Int(offset) => match &args[2] {
                DynamicValue::Int(length) => match &args[3] {
                    DynamicValue::Bool(fatal) => match &args[4] {
                        DynamicValue::Bool(ignore_mark) => decode_in_window(
                            buffer,
                            *offset,
                            *length,
                            *fatal,
                            *ignore_mark,
                        ),
                        _ => Err(conversion_error("bool")),
                    },
                    _ => Err(conversion_error("bool")),
                },
                _ => Err(conversion_error("usize")),
            },
            _ => Err(conversion_error("usize")),
        },
        _ => Err(conversion_error("alloc::vec::Vec<u8>")),
    }
}

/// What the encoder binding gives for its arguments: the UTF-8 bytes of the
/// one text it takes.
pub open spec fn encode_spec(args: Seq<ValueView>) -> Result<ValueView, ThrownView> {
    if args.len() != 1 {
        Err(ThrownView::Error("Expecting 1 argument, got "@ + natural_text(args.len())))
    } else {
        match args[0] {
            ValueView::Text(text) => Ok(ValueView::Buffer(encode_utf8(text))),
            _ => Err(ThrownView::Error(conversion_message("alloc::string::String"@))),
        }
    }
}

/// The encoder binding: the UTF-8 bytes of a text ([`encode_spec`]).
pub fn encode_js_string_to_utf8_buffer(args: &Vec<DynamicValue>) -> (r: Result<
    DynamicValue,
    Thrown,
>)
    ensures
        answer_view(r) == encode_spec(crate::value::views_of(args@)),
{
    proof {
        crate::value::lemma_views_of(args@);
    }
    if args.len() != 1 {
        return Err(count_error("Expecting 1 argument, got ", args.len()));
    }
    match &args[0] {
        DynamicValue::String(text) => Ok(
            DynamicValue::ArrayBuffer(slice_to_vec(text.as_str().as_bytes())),
        ),
        _ => Err(conversion_error("alloc::string::String")),
    }
}


/// The text that chrono writes for the moment that lies the given number of
/// milliseconds after the Unix epoch, in UTC: date and time as RFC 3339 has
/// them, with three digits of fraction and `Z` for the zone. `None` for a
/// moment outside the range of chrono's dates.
pub uninterp spec fn rfc3339_millis(millis: i64) -> Option<Seq<char>>;

/// The shape of a timestamp: it ends in `THH:MM:SS.mmmZ`, after a date of ten
/// characters at least.
pub open spec fn is_timestamp(text: Seq<char>) -> bool {
    &&& text.len() >= 24
    &&& text[text.len() - 14] == 'T'
    &&& text[text.len() - 5] == '.'
    &&& text[text.len() - 1] == 'Z'
}

/// Trusted: `chrono::DateTime::<Utc>::from_timestamp_millis`, then
/// `to_rfc3339_opts(SecondsFormat::Millis, true)` on the moment it gives. The
/// result is a function of the number alone, named [`rfc3339_millis`]. What
/// chrono writes there has the shape of a timestamp: two digits each for
/// month, day, hour, minute and second, three for the fraction, and `Z` for
/// the zone of UTC.
#[verifier::external_body]
fn timestamp_text(millis: i64) -> (r: Option<String>)
    ensures
        r is Some <==> rfc3339_millis(millis) is Some,
        r matches Some(text) ==> rfc3339_millis(millis) == Some(text@) && is_timestamp(text@),
{
    match chrono::DateTime::<chrono::Utc>::from_timestamp_millis(millis) {
        Some(moment) => Some(moment.to_rfc3339_opts(chrono::SecondsFormat::Millis, true)),
        None => None,
    }
}

/// Trusted: `chrono::Utc::now`, as milliseconds since the Unix epoch. Nothing
/// is claimed of the number. chrono gives up on a system clock that stands
/// before 1970.
#[verifier::external_body]
fn clock_millis() -> (r: i64) {
    chrono::Utc::now().timestamp_millis()
}

/// What the clock binding gives at a moment: its text, or an error for a
/// moment that has none.
pub open spec fn time_spec(millis: i64) -> Result<ValueView, ThrownView> {
    match rfc3339_millis(millis) {
        Some(text) => Ok(ValueView::Text(text)),
        None => Err(ThrownView::Error("The time is out of range"@)),
    }
}

/// The value of the clock binding at the given moment ([`time_spec`]). A
/// text that it gives has the shape of a timestamp.
pub fn time_value(millis: i64) -> (r: Result<DynamicValue, Thrown>)
    ensures
        answer_view(r) == time_spec(millis),
        answer_view(r) matches Ok(value) ==> value matches ValueView::Text(text) && is_timestamp(
            text,
        ),
{
    match timestamp_text(millis) {
        Some(text) => Ok(DynamicValue::String(text)),
        None => Err(Thrown::Error("The time is out of range".to_owned())),
    }
}

/// The clock binding: the current time as text. It is what [`time_value`]
/// gives at the moment the clock shows, so a timestamp with milliseconds and
/// the zone, or the error of a clock out of range.
pub fn get_time() -> (r: Result<DynamicValue, Thrown>)
    ensures
        exists|millis: i64| answer_view(r) == #[trigger] time_spec(millis),
        answer_view(r) matches Ok(value) ==> value matches ValueView::Text(text) && is_timestamp(
            text,
        ),
{
    let now = clock_millis();
    let r = time_value(now);
    assert(answer_view(r) == time_spec(now));
    r
}

/// The methods that `fetch` may be called with.
pub open spec fn allowed_method(method: Seq<char>) -> bool {
    method == "GET"@ || method == "POST"@ || method == "PUT"@ || method == "DELETE"@ || method
        == "PATCH"@ || method == "HEAD"@ || method == "OPTIONS"@
}

/// Whether `fetch` may be called with the method.
pub fn is_allowed_method(method: &String) -> (r: bool)
    ensures
        r == allowed_method(method@),
{
    *method == "GET".to_owned() || *method == "POST".to_owned() || *method == "PUT".to_owned()
        || *method == "DELETE".to_owned() || *method == "PATCH".to_owned() || *method
        == "HEAD".to_owned() || *method == "OPTIONS".to_owned()
}

/// The headers that the properties of a `headers` object write, in order:
/// each key with its value as it prints.
pub open spec fn header_writes(properties: Seq<(Seq<char>, ValueView)>) -> Seq<Entry> {
    properties.map_values(|p: (Seq<char>, ValueView)| (p.0, display(p.1)))
}

/// The headers of a fetch: those that a `headers` object writes, and none for
/// any other value.
pub open spec fn headers_of(value: ValueView) -> Seq<Entry> {
    match value {
        ValueView::Object(properties) => collect(header_writes(properties)),
        _ => Seq::empty(),
    }
}

/// The body of a fetch: the UTF-8 bytes of a `body` that is a text, and none
/// for any other value or where there is no `body`.
pub open spec fn body_of(value: Option<ValueView>) -> Option<Seq<u8>> {
    match value {
        Some(ValueView::Text(text)) => Some(encode_utf8(text)),
        _ => None,
    }
}

/// The request and the body that a call of `fetch` asks for, or the message
/// of the validation error: the options are an object with a method from the
/// allowed set and with headers.
pub open spec fn fetch_arguments(url: Seq<char>, options: ValueView) -> Result<
    (RequestView, Option<Seq<u8>>),
    Seq<char>,
> {
    match options {
        ValueView::Object(properties) => match property(properties, "method"@) {
            None => Err("Missing option: method"@),
            Some(method) => if !allowed_method(display(method)) {
                Err("Invalid method: "@ + display(method))
            } else {
                match property(properties, "headers"@) {
                    None => Err("Missing option: headers"@),
                    Some(headers) => Ok(
                        (
                            RequestView {
                                url,
                                method: display(method),
                                headers: headers_of(headers),
                            },
                            body_of(property(properties, "body"@)),
                        ),
                    ),
                }
            },
        },
        _ => Err("The options of fetch are not an object"@),
    }
}

/// The object that tells the script of a validation error.
pub open spec fn validation_failure(message: Seq<char>) -> ValueView {
    ValueView::Object(
        seq![
            ("error"@, ValueView::Bool(true)),
            ("type"@, ValueView::Text("ValidationError"@)),
            ("message"@, ValueView::Text(message)),
        ],
    )
}

/// The object that tells the script that the fetch itself failed.
pub open spec fn internal_failure(message: Seq<char>) -> ValueView {
    ValueView::Object(
        seq![
            ("error"@, ValueView::Bool(true)),
            ("type"@, ValueView::Text("InternalError"@)),
            ("message"@, ValueView::Text(message)),
        ],
    )
}

/// The object that tells the script that an edge binding failed.
pub open spec fn failure(message: Seq<char>) -> ValueView {
    ValueView::Object(
        seq![("error"@, ValueView::Bool(true)), ("message"@, ValueView::Text(message))],
    )
}

/// The object that tells the script that an edge binding succeeded.
pub open spec fn success() -> ValueView {
    ValueView::Object(seq![("error"@, ValueView::Bool(false))])
}

/// What a wire error reads as.
pub open spec fn wire_error_text(e: WireError) -> Seq<char> {
    match e {
        WireError::TooLong => "a text or a mapping is too long"@,
        WireError::Truncated => "the record is cut short"@,
        WireError::Mismatch => "a field is of the wrong kind"@,
        WireError::OutOfRange => "a number is out of range"@,
        WireError::InvalidText => "a text is not valid utf-8"@,
        WireError::WrongFieldCount => "the record has the wrong number of fields"@,
    }
}

/// What a failed exchange reads as.
pub open spec fn exchange_error_text(e: ExchangeError) -> Seq<char> {
    match e {
        ExchangeError::StoreFailed => "Failed to store the data for the host"@,
        ExchangeError::Rejected => "The host call failed"@,
        ExchangeError::LengthMismatch => "The host returned less than it announced"@,
        ExchangeError::UnexpectedEvent => "Unexpected answer from the host"@,
    }
}

/// What a failed fetch reads as. The host's own message is passed on as it is.
pub open spec fn fetch_error_text(e: FetchErrorView) -> Seq<char> {
    match e {
        FetchErrorView::Encode(w) => "Failed to encode the request: "@ + wire_error_text(w),
        FetchErrorView::Exchange(ExchangeError::Rejected) => "fetch failed"@,
        FetchErrorView::Exchange(x) => exchange_error_text(x),
        FetchErrorView::Decode(w) => "Failed to decode the response: "@ + wire_error_text(w),
        FetchErrorView::Host(message) => message,
    }
}

/// The text of a wire error ([`wire_error_text`]).
pub fn wire_error_message(e: WireError) -> (r: &'static str)
    ensures
        r@ == wire_error_text(e),
{
    match e {
        WireError::TooLong => "a text or a mapping is too long",
        WireError::Truncated => "the record is cut short",
        WireError::Mismatch => "a field is of the wrong kind",
        WireError::OutOfRange => "a number is out of range",
        WireError::InvalidText => "a text is not valid utf-8",
        WireError::WrongFieldCount => "the record has the wrong number of fields",
    }
}

/// The text of a failed exchange ([`exchange_error_text`]).
pub fn exchange_error_message(e: ExchangeError) -> (r: &'static str)
    ensures
        r@ == exchange_error_text(e),
{
    match e {
        ExchangeError::StoreFailed => "Failed to store the data for the host",
        ExchangeError::Rejected => "The host call failed",
        ExchangeError::LengthMismatch => "The host returned less than it announced",
        ExchangeError::UnexpectedEvent => "Unexpected answer from the host",
    }
}

/// The text of a failed fetch ([`fetch_error_text`]).
pub fn fetch_error_message(e: &FetchError) -> (r: String)
    ensures
        r@ == fetch_error_text(e@),
{
    match e {
        FetchError::Encode(w) => {
            let mut message = "Failed to encode the request: ".to_owned();
            message.append(wire_error_message(*w));
            message
        },
        FetchError::Exchange(ExchangeError::Rejected) => "fetch failed".to_owned(),
        FetchError::Exchange(x) => exchange_error_message(*x).to_owned(),
        FetchError::Decode(w) => {
            let mut message = "Failed to decode the response: ".to_owned();
            message.append(wire_error_message(*w));
            message
        },
        FetchError::Host(message) => message.clone(),
    }
}

fn failure_object(message: String) -> (r: DynamicValue)
    ensures
        r@ == failure(message@),
{
    object2("error", DynamicValue::Bool(true), "message", DynamicValue::String(message))
}

fn typed_failure_object(kind: &str, message: String) -> (r: DynamicValue)
    ensures
        r@ == ValueView::Object(
            seq![
                ("error"@, ValueView::Bool(true)),
                ("type"@, ValueView::Text(kind@)),
                ("message"@, ValueView::Text(message@)),
            ],
        ),
{
    object3(
        "error",
        DynamicValue::Bool(true),
        "type",
        DynamicValue::String(kind.to_owned()),
        "message",
        DynamicValue::String(message),
    )
}

fn headers_from(value: &DynamicValue) -> (r: Headers)
    ensures
        r.entries() == headers_of(value@),
{
    let mut headers = Headers::new();
    match value {
        DynamicValue::Object(properties) => {
            let ghost all = property_views(properties@);
            let ghost writes = header_writes(all);
            proof {
                lemma_property_views(properties@);
                assert(writes.take(0) =~= Seq::<Entry>::empty());
            }
            let mut i: usize = 0;
            while i < properties.len()
                invariant
                    i <= properties.len(),
                    all == property_views(properties@),
                    writes == header_writes(all),
                    all.len() == properties.len(),
                    forall|j: int|
                        0 <= j < properties.len() ==> (#[trigger] all[j]) == (
                            properties@[j].0@,
                            properties@[j].1@,
                        ),
                    headers.entries() == collect(writes.take(i as int)),
                decreases properties.len() - i,
            {
                let name = properties[i].0.clone();
                let value = properties[i].1.to_text();
                proof {
                    let upto = writes.take(i + 1);
                    assert(upto.drop_last() =~= writes.take(i as int));
                    assert(upto.last() == (all[i as int].0, display(all[i as int].1)));
                }
                headers.insert(name, value);
                i += 1;
            }
            assert(writes.take(properties.len() as int) =~= writes);
            headers
        },
        _ => headers,
    }
}

fn body_from(value: Option<&DynamicValue>) -> (r: Option<Vec<u8>>)
    ensures
        crate::exchange::optional_bytes(r) == body_of(
            match value {
                Some(v) => Some(v@),
                None => None,
            },
        ),
{
    match value {
        Some(DynamicValue::String(text)) => Some(slice_to_vec(text.as_str().as_bytes())),
        _ => None,
    }
}

/// How a call of `fetch` begins.
#[derive(Debug)]
pub enum FetchCall {
    /// The call is over before anything was asked of the host: this is what
    /// the script gets.
    Answer { value: DynamicValue },
    /// The fetch is under way: perform the action and go on with the exchange.
    Exchange { exchange: FetchExchange, action: HostAction },
}

/// A [`FetchCall`] as the contracts see it.
pub enum FetchCallView {
    Answer { value: ValueView },
    Exchange { exchange: FetchStageView, action: ActionView },
}

impl View for FetchCall {
    type V = FetchCallView;

    open spec fn view(&self) -> FetchCallView {
        match self {
            FetchCall::Answer { value } => FetchCallView::Answer { value: value@ },
            FetchCall::Exchange { exchange, action } => FetchCallView::Exchange {
                exchange: exchange@,
                action: action@,
            },
        }
    }
}

/// What the script gets from a fetch that has ended: status and body of the
/// response, or the object that tells of the failure.
pub open spec fn fetch_answer(result: Result<HttpResponseView, FetchErrorView>) -> ValueView {
    match result {
        Ok(response) => ValueView::Object(
            seq![
                ("status"@, ValueView::Int(response.status as i32)),
                ("body"@, ValueView::Buffer(response.body)),
            ],
        ),
        Err(e) => internal_failure(fetch_error_text(e)),
    }
}

/// How a call of `fetch` begins: arguments that do not pass validation are
/// answered at once with a validation failure; otherwise the fetch begins
/// ([`request_spec`]), and one that ends there is answered with its failure.
pub open spec fn begin_fetch_spec(url: Seq<char>, options: ValueView) -> FetchCallView {
    match fetch_arguments(url, options) {
        Err(message) => FetchCallView::Answer { value: validation_failure(message) },
        Ok((request, body)) => match request_spec(request, body) {
            FetchStepView::Next { exchange, action } => FetchCallView::Exchange { exchange, action },
            FetchStepView::Done { result } => FetchCallView::Answer { value: fetch_answer(result) },
        },
    }
}

/// A call of `fetch` with a method outside the allowed set is answered with a
/// validation failure, and nothing is asked of the host.
pub proof fn lemma_disallowed_method_calls_nothing(
    url: Seq<char>,
    properties: Seq<(Seq<char>, ValueView)>,
)
    requires
        property(properties, "method"@) matches Some(method) && !allowed_method(display(method)),
    ensures
        begin_fetch_spec(url, ValueView::Object(properties)) == (FetchCallView::Answer {
            value: validation_failure(
                "Invalid method: "@ + display(property(properties, "method"@)->0),
            ),
        }),
{
}

/// The value that a fetch that has ended gives to the script ([`fetch_answer`]).
pub fn finish_fetch(result: Result<HttpResponse, FetchError>) -> (r: DynamicValue)
    ensures
        r@ == fetch_answer(
            match result {
                Ok(response) => Ok(response@),
                Err(e) => Err(e@),
            },
        ),
{
    match result {
        Ok(response) => {
            let status = response.status_code();
            let body = response.body();
            object2(
                "status",
                DynamicValue::Int(status as i32),
                "body",
                DynamicValue::ArrayBuffer(body),
            )
        },
        Err(e) => typed_failure_object("InternalError", fetch_error_message(&e)),
    }
}

fn validation_answer(message: String) -> (r: FetchCall)
    ensures
        r@ == (FetchCallView::Answer { value: validation_failure(message@) }),
{
    FetchCall::Answer { value: typed_failure_object("ValidationError", message) }
}

/// The `fetch` binding: validates the arguments and, where they pass, begins
/// the fetch ([`begin_fetch_spec`]).
pub fn begin_fetch(url: String, options: &DynamicValue) -> (r: FetchCall)
    ensures
        r@ == begin_fetch_spec(url@, options@),
{
    match options {
        DynamicValue::Object(_) => {},
        _ => {
            return validation_answer("The options of fetch are not an object".to_owned());
        },
    }
    let method = match options.get("method") {
        Some(value) => value.to_text(),
        None => {
            return validation_answer("Missing option: method".to_owned());
        },
    };
    if !is_allowed_method(&method) {
        let mut message = "Invalid method: ".to_owned();
        message.append(method.as_str());
        return validation_answer(message);
    }
    let headers = match options.get("headers") {
        Some(value) => headers_from(value),
        None => {
            return validation_answer("Missing option: headers".to_owned());
        },
    };
    let body = body_from(options.get("body"));
    let fetch_request = FetchRequest { url, method, headers };
    match request(&fetch_request, body) {
        FetchStep::Next { exchange, action } => FetchCall::Exchange { exchange, action },
        FetchStep::Done { result } => FetchCall::Answer { value: finish_fetch(result) },
    }
}

/// The bindings of the edge request and response API.
#[derive(Clone, Copy, Debug, PartialEq, Eq, Structural)]
pub enum EdgeBinding {
    RequestBody,
    RequestSend,
    ResponseBody,
    ResponseSend,
    SendDownstream,
}

impl EdgeBinding {
    /// The host function behind the binding.
    pub open spec fn function(self) -> HostFunction {
        match self {
            EdgeBinding::RequestBody => HostFunction::RequestBody,
            EdgeBinding::RequestSend => HostFunction::RequestSend,
            EdgeBinding::ResponseBody => HostFunction::ResponseBody,
            EdgeBinding::ResponseSend => HostFunction::ResponseSend,
            EdgeBinding::SendDownstream => HostFunction::SendDownstream,
        }
    }

    /// Whether the binding sends a body beside the record.
    pub open spec fn sends_body(self) -> bool {
        self != EdgeBinding::RequestBody && self != EdgeBinding::ResponseBody
    }
}

/// What an edge binding gives to the script, and, for a request that was sent
/// on, the bytes of the response record that belongs to the request object.
pub open spec fn edge_answer(binding: EdgeBinding, result: Result<OutcomeView, ExchangeError>) -> (
    ValueView,
    Option<Seq<u8>>,
) {
    match result {
        Err(e) => (failure(exchange_error_text(e)), None),
        Ok(OutcomeView::Block { bytes }) => match binding {
            EdgeBinding::RequestBody => (ValueView::Object(seq![("bytes"@, ValueView::Buffer(bytes))]), None),
            EdgeBinding::ResponseBody => (ValueView::Object(seq![("bytes"@, ValueView::Buffer(bytes))]), None),
            EdgeBinding::RequestSend => (success(), Some(bytes)),
            _ => (failure(exchange_error_text(ExchangeError::UnexpectedEvent)), None),
        },
        Ok(OutcomeView::Code { value }) => match binding {
            EdgeBinding::ResponseSend => if value == 0 {
                (success(), None)
            } else {
                (failure("Failed to send response"@), None)
            },
            EdgeBinding::SendDownstream => if value == 0 {
                (success(), None)
            } else {
                (failure("Failed to send response"@), None)
            },
            _ => (failure(exchange_error_text(ExchangeError::UnexpectedEvent)), None),
        },
    }
}

/// Begins the exchange of an edge binding: the record is stored first, and
/// the body after it where the binding sends one.
pub fn begin_edge(binding: EdgeBinding, record: Vec<u8>, body: Vec<u8>) -> (r: (
    Exchange,
    HostAction,
))
    ensures
        (r.0@, r.1@) == begin_spec(
            binding.function(),
            record@,
            if binding.sends_body() {
                Some(body@)
            } else {
                None
            },
        ),
{
    let call = match binding {
        EdgeBinding::RequestBody => HostCall::RequestBody { request: record },
        EdgeBinding::RequestSend => HostCall::RequestSend { request: record, body },
        EdgeBinding::ResponseBody => HostCall::ResponseBody { response: record },
        EdgeBinding::ResponseSend => HostCall::ResponseSend { response: record, body },
        EdgeBinding::SendDownstream => HostCall::SendDownstream { response: record, body },
    };
    Exchange::begin(call)
}

/// What an edge binding hands back when its exchange is over.
#[derive(Debug, PartialEq)]
pub struct EdgeAnswer {
    /// What the script gets.
    pub value: DynamicValue,
    /// For a request that was sent on: the bytes of the response record.
    pub response: Option<Vec<u8>>,
}

/// Ends an edge binding ([`edge_answer`]): a failed exchange and a result
/// code other than zero become an object that tells of the error; nothing is
/// raised.
pub fn finish_edge(binding: EdgeBinding, result: Result<Outcome, ExchangeError>) -> (r: EdgeAnswer)
    ensures
        (r.value@, crate::exchange::optional_bytes(r.response)) == edge_answer(
            binding,
            match result {
                Ok(outcome) => Ok(outcome@),
                Err(e) => Err(e),
            },
        ),
{
    match result {
        Err(e) => EdgeAnswer {
            value: failure_object(exchange_error_message(e).to_owned()),
            response: None,
        },
        Ok(Outcome::Block { bytes }) => match binding {
            EdgeBinding::RequestBody => EdgeAnswer {
                value: object1("bytes", DynamicValue::ArrayBuffer(bytes)),
                response: None,
            },
            EdgeBinding::ResponseBody => EdgeAnswer {
                value: object1("bytes", DynamicValue::ArrayBuffer(bytes)),
                response: None,
            },
            EdgeBinding::RequestSend => EdgeAnswer {
                value: object1("error", DynamicValue::Bool(false)),
                response: Some(bytes),
            },
            _ => EdgeAnswer {
                value: failure_object(
                    exchange_error_message(ExchangeError::UnexpectedEvent).to_owned(),
                ),
                response: None,
            },
        },
        Ok(Outcome::Code { value }) => match binding {
            EdgeBinding::ResponseSend | EdgeBinding::SendDownstream => {
                if value == 0 {
                    EdgeAnswer { value: object1("error", DynamicValue::Bool(false)), response: None }
                } else {
                    EdgeAnswer {
                        value: failure_object("Failed to send response".to_owned()),
                        response: None,
                    }
                }
            },
            _ => EdgeAnswer {
                value: failure_object(
                    exchange_error_message(ExchangeError::UnexpectedEvent).to_owned(),
                ),
                response: None,
            },
        },
    }
}


/// What can be bound into the global namespace.
#[derive(Clone, Copy, Debug, PartialEq, Eq, Structural)]
pub enum Global {
    /// The `console` object ([`build_console_object`]).
    Console,
    /// The `module` object ([`build_module_object`]).
    Module,
    /// The decoder ([`decode_utf8_buffer_to_js_string`]).
    Decoder,
    /// The encoder ([`encode_js_string_to_utf8_buffer`]).
    Encoder,
    /// The clock ([`get_time`]).
    Clock,
    /// The namespace object of the platform ([`build_apoxy_object`]).
    Apoxy,
    /// The outbound fetch ([`begin_fetch`]).
    Fetch,
    /// One of the edge bindings ([`begin_edge`]).
    Edge(EdgeBinding),
}

/// The scripts that are evaluated once the bindings are in place.
#[derive(Clone, Copy, Debug, PartialEq, Eq, Structural)]
pub enum Script {
    /// Seeds `module.exports` with an empty object.
    ModuleExports,
    /// Makes `global` another name of the top-level namespace.
    GlobalAlias,
    /// The bundled polyfills.
    Prelude,
}

/// One step of furnishing the global namespace.
#[derive(Debug, PartialEq, Eq)]
pub enum GlobalStep {
    /// Set the global of this name to the binding.
    Bind { name: String, global: Global },
    /// Evaluate the script in the global namespace.
    Evaluate { script: Script },
}

/// A [`GlobalStep`] as the contracts see it.
pub enum GlobalStepView {
    Bind { name: Seq<char>, global: Global },
    Evaluate { script: Script },
}

impl View for GlobalStep {
    type V = GlobalStepView;

    open spec fn view(&self) -> GlobalStepView {
        match self {
            GlobalStep::Bind { name, global } => GlobalStepView::Bind {
                name: name@,
                global: *global,
            },
            GlobalStep::Evaluate { script } => GlobalStepView::Evaluate { script: *script },
        }
    }
}

/// The global namespace that scripts find: each binding under its name, then
/// the three scripts.
pub open spec fn global_plan() -> Seq<GlobalStepView> {
    seq![
        GlobalStepView::Bind { name: "console"@, global: Global::Console },
        GlobalStepView::Bind { name: "module"@, global: Global::Module },
        GlobalStepView::Bind { name: "__decodeUtf8BufferToString"@, global: Global::Decoder },
        GlobalStepView::Bind { name: "__encodeStringToUtf8Buffer"@, global: Global::Encoder },
        GlobalStepView::Bind { name: "__getTime"@, global: Global::Clock },
        GlobalStepView::Bind { name: "Apoxy"@, global: Global::Apoxy },
        GlobalStepView::Bind { name: "__fetch"@, global: Global::Fetch },
        GlobalStepView::Bind {
            name: "__apoxy_req_body"@,
            global: Global::Edge(EdgeBinding::RequestBody),
        },
        GlobalStepView::Bind {
            name: "__apoxy_req_send"@,
            global: Global::Edge(EdgeBinding::RequestSend),
        },
        GlobalStepView::Bind {
            name: "__apoxy_resp_body"@,
            global: Global::Edge(EdgeBinding::ResponseBody),
        },
        GlobalStepView::Bind {
            name: "__apoxy_resp_send"@,
            global: Global::Edge(EdgeBinding::ResponseSend),
        },
        GlobalStepView::Bind {
            name: "__apoxy_send_downstream"@,
            global: Global::Edge(EdgeBinding::SendDownstream),
        },
        GlobalStepView::Evaluate { script: Script::ModuleExports },
        GlobalStepView::Evaluate { script: Script::GlobalAlias },
        GlobalStepView::Evaluate { script: Script::Prelude },
    ]
}

/// The steps as the contracts see them.
pub open spec fn steps_view(steps: Seq<GlobalStep>) -> Seq<GlobalStepView> {
    steps.map_values(|step: GlobalStep| step@)
}

fn bind(steps: &mut Vec<GlobalStep>, name: &str, global: Global)
    ensures
        steps_view(final(steps)@) == steps_view(old(steps)@).push(
            GlobalStepView::Bind { name: name@, global },
        ),
{
    steps.push(GlobalStep::Bind { name: name.to_owned(), global });
    assert(steps_view(steps@) =~= steps_view(old(steps)@).push(
        GlobalStepView::Bind { name: name@, global },
    ));
}

fn evaluate(steps: &mut Vec<GlobalStep>, script: Script)
    ensures
        steps_view(final(steps)@) == steps_view(old(steps)@).push(
            GlobalStepView::Evaluate { script },
        ),
{
    steps.push(GlobalStep::Evaluate { script });
    assert(steps_view(steps@) =~= steps_view(old(steps)@).push(
        GlobalStepView::Evaluate { script },
    ));
}

/// The steps that furnish the global namespace, in the order in which they
/// are to be taken ([`global_plan`]). A step that fails ends the furnishing.
pub fn inject_globals() -> (r: Vec<GlobalStep>)
    ensures
        steps_view(r@) == global_plan(),
{
    let mut steps: Vec<GlobalStep> = Vec::new();
    assert(steps_view(steps@) =~= Seq::<GlobalStepView>::empty());
    bind(&mut steps, "console", Global::Console);
    bind(&mut steps, "module", Global::Module);
    bind(&mut steps, "__decodeUtf8BufferToString", Global::Decoder);
    bind(&mut steps, "__encodeStringToUtf8Buffer", Global::Encoder);
    bind(&mut steps, "__getTime", Global::Clock);
    bind(&mut steps, "Apoxy", Global::Apoxy);
    bind(&mut steps, "__fetch", Global::Fetch);
    bind(&mut steps, "__apoxy_req_body", Global::Edge(EdgeBinding::RequestBody));
    bind(&mut steps, "__apoxy_req_send", Global::Edge(EdgeBinding::RequestSend));
    bind(&mut steps, "__apoxy_resp_body", Global::Edge(EdgeBinding::ResponseBody));
    bind(&mut steps, "__apoxy_resp_send", Global::Edge(EdgeBinding::ResponseSend));
    bind(&mut steps, "__apoxy_send_downstream", Global::Edge(EdgeBinding::SendDownstream));
    evaluate(&mut steps, Script::ModuleExports);
    evaluate(&mut steps, Script::GlobalAlias);
    evaluate(&mut steps, Script::Prelude);
    assert(steps_view(steps@) =~= global_plan());
    steps
}

/// The text of a script, where the library holds it; the polyfills are
/// bundled with the program.
pub open spec fn script_text(script: Script) -> Option<Seq<char>> {
    match script {
        Script::ModuleExports => Some("globalThis.module = {}; globalThis.module.exports = {}"@),
        Script::GlobalAlias => Some("global = globalThis"@),
        Script::Prelude => None,
    }
}

/// The text of a script ([`script_text`]).
pub fn script_source(script: Script) -> (r: Option<&'static str>)
    ensures
        r is Some <==> script_text(script) is Some,
        r matches Some(text) ==> script_text(script) == Some(text@),
{
    match script {
        Script::ModuleExports => Some("globalThis.module = {}; globalThis.module.exports = {}"),
        Script::GlobalAlias => Some("global = globalThis"),
        Script::Prelude => None,
    }
}

/// The name under which the scripts are evaluated.
pub fn script_name() -> (r: &'static str)
    ensures
        r@ == "script.js"@,
{
    "script.js"
}

/// The `module` object: it has `exports`, an empty object.
pub fn build_module_object() -> (r: DynamicValue)
    ensures
        r@ == ValueView::Object(seq![("exports"@, ValueView::Object(Seq::empty()))]),
{
    let exports: Vec<(String, DynamicValue)> = Vec::new();
    proof {
        lemma_property_views(exports@);
        assert(property_views(exports@) =~= Seq::empty());
    }
    object1("exports", DynamicValue::Object(exports))
}

/// The methods of the platform's namespace object. Each does nothing and
/// gives `undefined`; there is one, `serve`.
pub fn build_apoxy_object() -> (r: Vec<String>)
    ensures
        r@.map_values(|name: String| name@) == seq!["serve"@],
{
    let mut r: Vec<String> = Vec::new();
    r.push("serve".to_owned());
    assert(r@.map_values(|name: String| name@) =~= seq!["serve"@]);
    r
}

} // verus!
