use apoxy_js::convert::{convert_js_value, BuildOp};
use apoxy_js::value::{integer_string, natural_string, DynamicValue};

fn text(s: &str) -> DynamicValue {
    DynamicValue::String(s.to_string())
}

fn object(pairs: Vec<(&str, DynamicValue)>) -> DynamicValue {
    DynamicValue::Object(pairs.into_iter().map(|(k, v)| (k.to_string(), v)).collect())
}

#[test]
fn numbers_in_decimal() {
    assert_eq!(natural_string(0), "0");
    assert_eq!(natural_string(9), "9");
    assert_eq!(natural_string(10), "10");
    assert_eq!(natural_string(1234567890), "1234567890");
    assert_eq!(natural_string(u64::MAX), u64::MAX.to_string());
    assert_eq!(integer_string(0), "0");
    assert_eq!(integer_string(-1), "-1");
    assert_eq!(integer_string(42), "42");
    assert_eq!(integer_string(i64::MIN), i64::MIN.to_string());
    assert_eq!(integer_string(i64::MAX), i64::MAX.to_string());
}

#[test]
fn values_print_as_in_the_script() {
    assert_eq!(DynamicValue::Undefined.to_text(), "undefined");
    assert_eq!(DynamicValue::Null.to_text(), "null");
    assert_eq!(DynamicValue::Bool(true).to_text(), "true");
    assert_eq!(DynamicValue::Bool(false).to_text(), "false");
    assert_eq!(DynamicValue::Int(2).to_text(), "2");
    assert_eq!(DynamicValue::Int(i32::MIN).to_text(), "-2147483648");
    assert_eq!(
        DynamicValue::Float { bits: 2.3f64.to_bits(), text: "2.3".to_string() }.to_text(),
        "2.3"
    );
    assert_eq!(text("hello").to_text(), "hello");
    assert_eq!(DynamicValue::ArrayBuffer(vec![1, 2]).to_text(), "[object ArrayBuffer]");
    assert_eq!(object(vec![("a", DynamicValue::Int(1))]).to_text(), "[object Object]");
    assert_eq!(DynamicValue::Array(vec![]).to_text(), "");
    assert_eq!(
        DynamicValue::Array(vec![DynamicValue::Int(1), DynamicValue::Int(2)]).to_text(),
        "1,2"
    );
    assert_eq!(DynamicValue::Array(vec![text("h"), text("w")]).to_text(), "h,w");
    assert_eq!(
        DynamicValue::Array(vec![
            DynamicValue::Array(vec![text("a"), DynamicValue::Null]),
            DynamicValue::Array(vec![]),
            text("z"),
        ])
        .to_text(),
        "a,null,,z"
    );
}

#[test]
fn property_written_last_is_found() {
    let value = object(vec![
        ("a", DynamicValue::Int(1)),
        ("b", DynamicValue::Int(2)),
        ("a", DynamicValue::Int(3)),
    ]);
    assert_eq!(value.get("a"), Some(&DynamicValue::Int(3)));
    assert_eq!(value.get("b"), Some(&DynamicValue::Int(2)));
    assert_eq!(value.get("c"), None);
    assert_eq!(text("a").get("a"), None);
    assert_eq!(DynamicValue::Array(vec![text("a")]).get("0"), None);
}

#[test]
fn plan_of_a_scalar_is_one_step() {
    assert_eq!(convert_js_value(&DynamicValue::Undefined), vec![BuildOp::Undefined]);
    assert_eq!(convert_js_value(&DynamicValue::Null), vec![BuildOp::Null]);
    assert_eq!(convert_js_value(&DynamicValue::Bool(true)), vec![BuildOp::Bool(true)]);
    assert_eq!(convert_js_value(&DynamicValue::Int(-7)), vec![BuildOp::Int(-7)]);
    assert_eq!(convert_js_value(&text("s")), vec![BuildOp::Text("s".to_string())]);
    assert_eq!(
        convert_js_value(&DynamicValue::ArrayBuffer(vec![0, 255])),
        vec![BuildOp::Buffer(vec![0, 255])]
    );
    assert_eq!(
        convert_js_value(&DynamicValue::Float { bits: 7, text: "x".to_string() }),
        vec![BuildOp::Float { bits: 7, text: "x".to_string() }]
    );
}

#[test]
fn plan_of_nested_value_is_exact() {
    let value = object(vec![
        ("list", DynamicValue::Array(vec![DynamicValue::Int(1), text("two")])),
        ("flag", DynamicValue::Bool(false)),
    ]);
    assert_eq!(
        convert_js_value(&value),
        vec![
            BuildOp::NewObject,
            BuildOp::NewArray,
            BuildOp::Int(1),
            BuildOp::Append,
            BuildOp::Text("two".to_string()),
            BuildOp::Append,
            BuildOp::SetProperty("list".to_string()),
            BuildOp::Bool(false),
            BuildOp::SetProperty("flag".to_string()),
        ]
    );
}

/// The engine's stack, played with plain values.
fn run(ops: Vec<BuildOp>) -> Vec<DynamicValue> {
    let mut stack: Vec<DynamicValue> = Vec::new();
    for op in ops {
        match op {
            BuildOp::Undefined => stack.push(DynamicValue::Undefined),
            BuildOp::Null => stack.push(DynamicValue::Null),
            BuildOp::Bool(b) => stack.push(DynamicValue::Bool(b)),
            BuildOp::Int(i) => stack.push(DynamicValue::Int(i)),
            BuildOp::Float { bits, text } => stack.push(DynamicValue::Float { bits, text }),
            BuildOp::Text(s) => stack.push(DynamicValue::String(s)),
            BuildOp::Buffer(b) => stack.push(DynamicValue::ArrayBuffer(b)),
            BuildOp::NewArray => stack.push(DynamicValue::Array(vec![])),
            BuildOp::NewObject => stack.push(DynamicValue::Object(vec![])),
            BuildOp::Append => {
                let item = stack.pop().unwrap();
                match stack.last_mut().unwrap() {
                    DynamicValue::Array(items) => items.push(item),
                    other => panic!("no array below: {:?}", other),
                }
            }
            BuildOp::SetProperty(key) => {
                let value = stack.pop().unwrap();
                match stack.last_mut().unwrap() {
                    DynamicValue::Object(properties) => {
                        match properties.iter().position(|(k, _)| *k == key) {
                            Some(at) => properties[at] = (key, value),
                            None => properties.push((key, value)),
                        }
                    }
                    other => panic!("no object below: {:?}", other),
                }
            }
        }
    }
    stack
}

#[test]
fn running_the_plan_gives_the_value_back() {
    let value = object(vec![
        ("status", DynamicValue::Int(200)),
        (
            "headers",
            object(vec![("a", text("b")), ("c", DynamicValue::Array(vec![]))]),
        ),
        ("body", DynamicValue::ArrayBuffer(vec![0, 1, 2, 255])),
        (
            "items",
            DynamicValue::Array(vec![
                DynamicValue::Null,
                DynamicValue::Undefined,
                DynamicValue::Array(vec![DynamicValue::Bool(true)]),
                object(vec![]),
                DynamicValue::Float { bits: 1.5f64.to_bits(), text: "1.5".to_string() },
            ]),
        ),
    ]);
    assert_eq!(run(convert_js_value(&value)), vec![value]);
}
