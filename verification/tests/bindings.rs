use apoxy_js::exchange::{ExchangeError, HostAction, HostFunction, Outcome};
use apoxy_js::fetch::FetchError;
use apoxy_js::globals::{
    begin_edge, begin_fetch, build_apoxy_object, build_console_object, build_module_object,
    decode_utf8_buffer_to_js_string, encode_js_string_to_utf8_buffer, exchange_error_message,
    fetch_error_message, finish_edge, finish_fetch, get_args_as_str, get_time, inject_globals,
    is_allowed_method, object1, object2, object3, script_name, script_source, time_value,
    wire_error_message, EdgeBinding, FetchCall, Global, GlobalStep, LogLevel, Script, Thrown,
};
use apoxy_js::value::DynamicValue;
use apoxy_js::wire::WireError;

fn text(s: &str) -> DynamicValue {
    DynamicValue::String(s.to_string())
}

fn object(pairs: Vec<(&str, DynamicValue)>) -> DynamicValue {
    DynamicValue::Object(pairs.into_iter().map(|(k, v)| (k.to_string(), v)).collect())
}

fn decode_args(buffer: Vec<u8>, offset: i32, length: i32, fatal: bool, keep: bool) -> Vec<DynamicValue> {
    vec![
        DynamicValue::ArrayBuffer(buffer),
        DynamicValue::Int(offset),
        DynamicValue::Int(length),
        DynamicValue::Bool(fatal),
        DynamicValue::Bool(keep),
    ]
}

#[test]
fn console_methods_and_levels() {
    let methods = build_console_object();
    assert_eq!(
        methods,
        vec![
            ("log".to_string(), LogLevel::Info),
            ("debug".to_string(), LogLevel::Debug),
            ("info".to_string(), LogLevel::Info),
            ("warn".to_string(), LogLevel::Warn),
            ("error".to_string(), LogLevel::Error),
        ]
    );
}

#[test]
fn console_line_joins_with_spaces() {
    assert_eq!(get_args_as_str(&vec![]), "");
    assert_eq!(get_args_as_str(&vec!["one".to_string()]), "one");
    assert_eq!(
        get_args_as_str(&vec!["a".to_string(), "".to_string(), "b c".to_string()]),
        "a  b c"
    );
}

#[test]
fn decode_plain_window() {
    let args = decode_args(b"hello world".to_vec(), 6, 5, true, false);
    assert_eq!(decode_utf8_buffer_to_js_string(&args), Ok(text("world")));
    let args = decode_args(b"hello".to_vec(), 5, 0, true, false);
    assert_eq!(decode_utf8_buffer_to_js_string(&args), Ok(text("")));
    let args = decode_args(b"hello".to_vec(), 0, 5, false, false);
    assert_eq!(decode_utf8_buffer_to_js_string(&args), Ok(text("hello")));
}

#[test]
fn decode_window_outside_the_buffer_is_an_error() {
    let message = "Provided offset and length is not valid for provided buffer".to_string();
    for (offset, length) in [(0, 6), (3, 3), (6, 0), (-1, 1), (0, -1), (i32::MAX, i32::MAX), (-1, -1)] {
        let args = decode_args(b"hello".to_vec(), offset, length, false, false);
        assert_eq!(
            decode_utf8_buffer_to_js_string(&args),
            Err(Thrown::Error(message.clone())),
            "offset {} length {}",
            offset,
            length
        );
    }
}

#[test]
fn decode_strips_the_byte_order_mark_unless_told_to_keep_it() {
    let bytes = vec![0xEF, 0xBB, 0xBF, b'h', b'i'];
    let args = decode_args(bytes.clone(), 0, 5, true, false);
    assert_eq!(decode_utf8_buffer_to_js_string(&args), Ok(text("hi")));
    let args = decode_args(bytes.clone(), 0, 5, true, true);
    assert_eq!(decode_utf8_buffer_to_js_string(&args), Ok(text("\u{feff}hi")));
    let args = decode_args(bytes.clone(), 0, 3, false, false);
    assert_eq!(decode_utf8_buffer_to_js_string(&args), Ok(text("")));
    // the mark is looked for at the start of the window, not of the buffer
    let args = decode_args(bytes, 1, 4, false, false);
    assert_eq!(decode_utf8_buffer_to_js_string(&args), Ok(text("\u{fffd}\u{fffd}hi")));
}

#[test]
fn decode_invalid_bytes() {
    let args = decode_args(vec![b'a', 0xff, b'b'], 0, 3, true, false);
    assert_eq!(
        decode_utf8_buffer_to_js_string(&args),
        Err(Thrown::TypeError("The encoded data was not valid utf-8".to_string()))
    );
    let args = decode_args(vec![b'a', 0xff, b'b'], 0, 3, false, false);
    assert_eq!(decode_utf8_buffer_to_js_string(&args), Ok(text("a\u{fffd}b")));
    // a window that cuts a character in two
    let args = decode_args("h\u{e9}".as_bytes().to_vec(), 0, 2, true, false);
    assert_eq!(
        decode_utf8_buffer_to_js_string(&args),
        Err(Thrown::TypeError("The encoded data was not valid utf-8".to_string()))
    );
}

#[test]
fn decode_checks_its_arguments() {
    assert_eq!(
        decode_utf8_buffer_to_js_string(&vec![text("a"), text("b")]),
        Err(Thrown::Error("Expecting 5 arguments, received 2".to_string()))
    );
    assert_eq!(
        decode_utf8_buffer_to_js_string(&vec![]),
        Err(Thrown::Error("Expecting 5 arguments, received 0".to_string()))
    );
    let mut args = decode_args(vec![], 0, 0, false, false);
    args[0] = text("not a buffer");
    assert_eq!(
        decode_utf8_buffer_to_js_string(&args),
        Err(Thrown::Error("Error: could not convert JSValue to alloc::vec::Vec<u8>".to_string()))
    );
    let mut args = decode_args(vec![], 0, 0, false, false);
    args[2] = DynamicValue::Null;
    assert_eq!(
        decode_utf8_buffer_to_js_string(&args),
        Err(Thrown::Error("Error: could not convert JSValue to usize".to_string()))
    );
    let mut args = decode_args(vec![], 0, 0, false, false);
    args[4] = DynamicValue::Int(1);
    assert_eq!(
        decode_utf8_buffer_to_js_string(&args),
        Err(Thrown::Error("Error: could not convert JSValue to bool".to_string()))
    );
}

#[test]
fn encode_gives_utf8_bytes() {
    assert_eq!(
        encode_js_string_to_utf8_buffer(&vec![text("h\u{e9}\u{4e16}")]),
        Ok(DynamicValue::ArrayBuffer(vec![b'h', 0xc3, 0xa9, 0xe4, 0xb8, 0x96]))
    );
    assert_eq!(
        encode_js_string_to_utf8_buffer(&vec![text("")]),
        Ok(DynamicValue::ArrayBuffer(vec![]))
    );
    assert_eq!(
        encode_js_string_to_utf8_buffer(&vec![]),
        Err(Thrown::Error("Expecting 1 argument, got 0".to_string()))
    );
    assert_eq!(
        encode_js_string_to_utf8_buffer(&vec![text("a"), text("b"), text("c")]),
        Err(Thrown::Error("Expecting 1 argument, got 3".to_string()))
    );
    assert_eq!(
        encode_js_string_to_utf8_buffer(&vec![DynamicValue::Int(1)]),
        Err(Thrown::Error(
            "Error: could not convert JSValue to alloc::string::String".to_string()
        ))
    );
}

#[test]
fn clock_text_of_given_moments() {
    assert_eq!(time_value(0), Ok(text("1970-01-01T00:00:00.000Z")));
    assert_eq!(time_value(1_516_991_409_453), Ok(text("2018-01-26T18:30:09.453Z")));
    assert_eq!(time_value(-1), Ok(text("1969-12-31T23:59:59.999Z")));
    assert_eq!(
        time_value(i64::MAX),
        Err(Thrown::Error("The time is out of range".to_string()))
    );
}

#[test]
fn clock_shows_a_timestamp() {
    match get_time() {
        Ok(DynamicValue::String(now)) => {
            assert_eq!(now.len(), 24);
            assert!(now.ends_with('Z'));
            assert_eq!(&now[4..5], "-");
            assert_eq!(&now[10..11], "T");
            assert_eq!(&now[19..20], ".");
        }
        other => panic!("unexpected: {:?}", other),
    }
}

#[test]
fn allowed_methods() {
    for method in ["GET", "POST", "PUT", "DELETE", "PATCH", "HEAD", "OPTIONS"] {
        assert!(is_allowed_method(&method.to_string()), "{}", method);
    }
    for method in ["get", "TRACE", "CONNECT", "", "GET ", "POST,PUT"] {
        assert!(!is_allowed_method(&method.to_string()), "{}", method);
    }
}

fn validation(message: &str) -> DynamicValue {
    object(vec![
        ("error", DynamicValue::Bool(true)),
        ("type", text("ValidationError")),
        ("message", text(message)),
    ])
}

fn answer(call: FetchCall) -> DynamicValue {
    match call {
        FetchCall::Answer { value } => value,
        FetchCall::Exchange { action, .. } => panic!("a host action was asked for: {:?}", action),
    }
}

#[test]
fn fetch_with_disallowed_method_asks_nothing_of_the_host() {
    let options = object(vec![("method", text("TRACE")), ("headers", object(vec![]))]);
    assert_eq!(
        answer(begin_fetch("https://example.com".to_string(), &options)),
        validation("Invalid method: TRACE")
    );
    let options = object(vec![("method", DynamicValue::Int(7)), ("headers", object(vec![]))]);
    assert_eq!(
        answer(begin_fetch("https://example.com".to_string(), &options)),
        validation("Invalid method: 7")
    );
}

#[test]
fn fetch_with_malformed_options_asks_nothing_of_the_host() {
    assert_eq!(
        answer(begin_fetch("u".to_string(), &DynamicValue::Undefined)),
        validation("The options of fetch are not an object")
    );
    assert_eq!(
        answer(begin_fetch("u".to_string(), &object(vec![("headers", object(vec![]))]))),
        validation("Missing option: method")
    );
    assert_eq!(
        answer(begin_fetch("u".to_string(), &object(vec![("method", text("GET"))]))),
        validation("Missing option: headers")
    );
}

#[test]
fn fetch_builds_the_request_record() {
    let options = object(vec![
        ("method", text("POST")),
        (
            "headers",
            object(vec![
                ("content-length", DynamicValue::Int(5)),
                ("x-list", DynamicValue::Array(vec![text("a"), text("b")])),
                ("accept", text("*/*")),
                ("content-length", DynamicValue::Int(7)),
            ]),
        ),
        ("body", text("hello")),
    ]);
    match begin_fetch("https://example.com/x".to_string(), &options) {
        FetchCall::Exchange { exchange, action } => {
            // url, method, then 3 headers in the order of their first writing
            let mut expected = vec![0x93];
            expected.push(0xa0 + 21);
            expected.extend_from_slice(b"https://example.com/x");
            expected.extend_from_slice(&[0xa4, b'P', b'O', b'S', b'T', 0x83]);
            for (k, v) in [("content-length", "7"), ("x-list", "a,b"), ("accept", "*/*")] {
                expected.push(0xa0 + k.len() as u8);
                expected.extend_from_slice(k.as_bytes());
                expected.push(0xa0 + v.len() as u8);
                expected.extend_from_slice(v.as_bytes());
            }
            assert_eq!(action, HostAction::Store { bytes: expected });
            match exchange.step(apoxy_js::exchange::HostEvent::Stored { offset: 10 }) {
                apoxy_js::fetch::FetchStep::Next { action, .. } => {
                    assert_eq!(action, HostAction::Store { bytes: b"hello".to_vec() });
                }
                other => panic!("unexpected: {:?}", other),
            }
        }
        FetchCall::Answer { value } => panic!("answered early: {:?}", value),
    }
}

#[test]
fn fetch_takes_method_as_it_prints_and_body_only_as_text() {
    let options = object(vec![
        ("method", DynamicValue::Array(vec![text("GET")])),
        ("headers", DynamicValue::Null),
        ("body", DynamicValue::ArrayBuffer(vec![1, 2, 3])),
    ]);
    match begin_fetch("u".to_string(), &options) {
        FetchCall::Exchange { exchange, action } => {
            assert_eq!(
                action,
                HostAction::Store { bytes: vec![0x93, 0xa1, b'u', 0xa3, b'G', b'E', b'T', 0x80] }
            );
            match exchange.step(apoxy_js::exchange::HostEvent::Stored { offset: 10 }) {
                apoxy_js::fetch::FetchStep::Next { action, .. } => {
                    assert_eq!(
                        action,
                        HostAction::Call { function: HostFunction::Fetch, first: 10, second: 0 }
                    );
                }
                other => panic!("unexpected: {:?}", other),
            }
        }
        FetchCall::Answer { value } => panic!("answered early: {:?}", value),
    }
}

#[test]
fn fetch_failure_is_an_internal_error_object() {
    let failed = |e: FetchError, message: &str| {
        assert_eq!(
            finish_fetch(Err(e)),
            object(vec![
                ("error", DynamicValue::Bool(true)),
                ("type", text("InternalError")),
                ("message", text(message)),
            ])
        );
    };
    failed(FetchError::Exchange(ExchangeError::Rejected), "fetch failed");
    failed(FetchError::Host("boom".to_string()), "boom");
    failed(
        FetchError::Decode(WireError::Truncated),
        "Failed to decode the response: the record is cut short",
    );
    failed(
        FetchError::Encode(WireError::TooLong),
        "Failed to encode the request: a text or a mapping is too long",
    );
    failed(
        FetchError::Exchange(ExchangeError::StoreFailed),
        "Failed to store the data for the host",
    );
}

#[test]
fn error_messages() {
    assert_eq!(wire_error_message(WireError::Mismatch), "a field is of the wrong kind");
    assert_eq!(wire_error_message(WireError::OutOfRange), "a number is out of range");
    assert_eq!(wire_error_message(WireError::InvalidText), "a text is not valid utf-8");
    assert_eq!(
        wire_error_message(WireError::WrongFieldCount),
        "the record has the wrong number of fields"
    );
    assert_eq!(exchange_error_message(ExchangeError::Rejected), "The host call failed");
    assert_eq!(
        exchange_error_message(ExchangeError::LengthMismatch),
        "The host returned less than it announced"
    );
    assert_eq!(
        exchange_error_message(ExchangeError::UnexpectedEvent),
        "Unexpected answer from the host"
    );
    assert_eq!(
        fetch_error_message(&FetchError::Exchange(ExchangeError::UnexpectedEvent)),
        "Unexpected answer from the host"
    );
}

#[test]
fn edge_bindings_begin_with_storing_the_record() {
    let (exchange, action) = begin_edge(EdgeBinding::RequestBody, b"{}".to_vec(), b"x".to_vec());
    assert_eq!(action, HostAction::Store { bytes: b"{}".to_vec() });
    match exchange.step(apoxy_js::exchange::HostEvent::Stored { offset: 3 }) {
        apoxy_js::exchange::Step::Next { action, .. } => assert_eq!(
            action,
            HostAction::Call { function: HostFunction::RequestBody, first: 3, second: 0 }
        ),
        other => panic!("unexpected: {:?}", other),
    }
    for (binding, function) in [
        (EdgeBinding::RequestSend, HostFunction::RequestSend),
        (EdgeBinding::ResponseSend, HostFunction::ResponseSend),
        (EdgeBinding::SendDownstream, HostFunction::SendDownstream),
    ] {
        let (exchange, _) = begin_edge(binding, b"{}".to_vec(), b"body".to_vec());
        let exchange = match exchange.step(apoxy_js::exchange::HostEvent::Stored { offset: 3 }) {
            apoxy_js::exchange::Step::Next { exchange, action } => {
                assert_eq!(action, HostAction::Store { bytes: b"body".to_vec() });
                exchange
            }
            other => panic!("unexpected: {:?}", other),
        };
        match exchange.step(apoxy_js::exchange::HostEvent::Stored { offset: 9 }) {
            apoxy_js::exchange::Step::Next { action, .. } => {
                assert_eq!(action, HostAction::Call { function, first: 3, second: 9 })
            }
            other => panic!("unexpected: {:?}", other),
        }
    }
}

#[test]
fn edge_bindings_answers() {
    let ok = object(vec![("error", DynamicValue::Bool(false))]);
    let failed = |message: &str| {
        object(vec![("error", DynamicValue::Bool(true)), ("message", text(message))])
    };
    let block = || Ok(Outcome::Block { bytes: vec![1, 2] });

    let answer = finish_edge(EdgeBinding::RequestBody, block());
    assert_eq!(answer.value, object(vec![("bytes", DynamicValue::ArrayBuffer(vec![1, 2]))]));
    assert_eq!(answer.response, None);
    let answer = finish_edge(EdgeBinding::ResponseBody, block());
    assert_eq!(answer.value, object(vec![("bytes", DynamicValue::ArrayBuffer(vec![1, 2]))]));

    let answer = finish_edge(EdgeBinding::RequestSend, block());
    assert_eq!(answer.value, ok);
    assert_eq!(answer.response, Some(vec![1, 2]));

    for binding in [EdgeBinding::ResponseSend, EdgeBinding::SendDownstream] {
        let answer = finish_edge(binding, Ok(Outcome::Code { value: 0 }));
        assert_eq!(answer.value, ok);
        assert_eq!(answer.response, None);
        for code in [1, 2, u64::MAX] {
            let answer = finish_edge(binding, Ok(Outcome::Code { value: code }));
            assert_eq!(answer.value, failed("Failed to send response"));
        }
        let answer = finish_edge(binding, block());
        assert_eq!(answer.value, failed("Unexpected answer from the host"));
    }
    for binding in [EdgeBinding::RequestBody, EdgeBinding::RequestSend, EdgeBinding::ResponseBody] {
        let answer = finish_edge(binding, Err(ExchangeError::Rejected));
        assert_eq!(answer.value, failed("The host call failed"));
        assert_eq!(answer.response, None);
        let answer = finish_edge(binding, Ok(Outcome::Code { value: 0 }));
        assert_eq!(answer.value, failed("Unexpected answer from the host"));
    }
    let answer = finish_edge(EdgeBinding::SendDownstream, Err(ExchangeError::StoreFailed));
    assert_eq!(answer.value, failed("Failed to store the data for the host"));
}

#[test]
fn global_namespace_in_order() {
    let steps = inject_globals();
    let names: Vec<String> = steps
        .iter()
        .filter_map(|step| match step {
            GlobalStep::Bind { name, .. } => Some(name.clone()),
            GlobalStep::Evaluate { .. } => None,
        })
        .collect();
    assert_eq!(
        names,
        vec![
            "console",
            "module",
            "__decodeUtf8BufferToString",
            "__encodeStringToUtf8Buffer",
            "__getTime",
            "Apoxy",
            "__fetch",
            "__apoxy_req_body",
            "__apoxy_req_send",
            "__apoxy_resp_body",
            "__apoxy_resp_send",
            "__apoxy_send_downstream",
        ]
    );
    assert_eq!(steps.len(), 15);
    assert_eq!(steps[6], GlobalStep::Bind { name: "__fetch".to_string(), global: Global::Fetch });
    assert_eq!(
        steps[11],
        GlobalStep::Bind {
            name: "__apoxy_send_downstream".to_string(),
            global: Global::Edge(EdgeBinding::SendDownstream)
        }
    );
    assert_eq!(steps[12], GlobalStep::Evaluate { script: Script::ModuleExports });
    assert_eq!(steps[13], GlobalStep::Evaluate { script: Script::GlobalAlias });
    assert_eq!(steps[14], GlobalStep::Evaluate { script: Script::Prelude });
}

#[test]
fn scripts_and_small_objects() {
    assert_eq!(script_name(), "script.js");
    assert_eq!(
        script_source(Script::ModuleExports),
        Some("globalThis.module = {}; globalThis.module.exports = {}")
    );
    assert_eq!(script_source(Script::GlobalAlias), Some("global = globalThis"));
    assert_eq!(script_source(Script::Prelude), None);
    assert_eq!(build_module_object(), object(vec![("exports", object(vec![]))]));
    assert_eq!(build_apoxy_object(), vec!["serve".to_string()]);
    assert_eq!(object1("a", DynamicValue::Null), object(vec![("a", DynamicValue::Null)]));
    assert_eq!(
        object2("a", DynamicValue::Int(1), "b", DynamicValue::Int(2)),
        object(vec![("a", DynamicValue::Int(1)), ("b", DynamicValue::Int(2))])
    );
    assert_eq!(
        object3("a", text("x"), "b", text("y"), "c", text("z")),
        object(vec![("a", text("x")), ("b", text("y")), ("c", text("z"))])
    );
}
