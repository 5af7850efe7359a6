//! The tagged value that crosses between the script engine and the library.

use vstd::prelude::*;
use vstd::string::StringExecFns;
use crate::headers::distinct_names;

verus! {

/// A script value of any kind.
///
/// A float is held as its IEEE 754 bit pattern together with the text that
/// the number prints as; the library never computes with it. An object holds
/// its properties in the order in which their keys were first written; where
/// a key stands twice the later property counts ([`property`]), and
/// [`keys_unique`] says that none does.
#[derive(Debug, PartialEq)]
pub enum DynamicValue {
    Undefined,
    Null,
    Bool(bool),
    Int(i32),
    Float { bits: u64, text: String },
    String(String),
    Array(Vec<DynamicValue>),
    ArrayBuffer(Vec<u8>),
    Object(Vec<(String, DynamicValue)>),
}

/// A [`DynamicValue`] as the contracts see it.
pub enum ValueView {
    Undefined,
    Null,
    Bool(bool),
    Int(i32),
    Float { bits: u64, text: Seq<char> },
    Text(Seq<char>),
    Array(Seq<ValueView>),
    Buffer(Seq<u8>),
    Object(Seq<(Seq<char>, ValueView)>),
}

/// The views of the items, in order.
pub open spec fn views_of(items: Seq<DynamicValue>) -> Seq<ValueView>
    decreases items,
{
    if items.len() == 0 {
        Seq::empty()
    } else {
        views_of(items.drop_last()).push(items.last().view())
    }
}

/// The views of the properties, in order.
pub open spec fn property_views(properties: Seq<(String, DynamicValue)>) -> Seq<
    (Seq<char>, ValueView),
>
    decreases properties,
{
    if properties.len() == 0 {
        Seq::empty()
    } else {
        property_views(properties.drop_last()).push(
            (properties.last().0@, properties.last().1.view()),
        )
    }
}

impl View for DynamicValue {
    type V = ValueView;

    open spec fn view(&self) -> ValueView
        decreases self,
    {
        match self {
            DynamicValue::Undefined => ValueView::Undefined,
            DynamicValue::Null => ValueView::Null,
            DynamicValue::Bool(b) => ValueView::Bool(*b),
            DynamicValue::Int(i) => ValueView::Int(*i),
            DynamicValue::Float { bits, text } => ValueView::Float { bits: *bits, text: text@ },
            DynamicValue::String(s) => ValueView::Text(s@),
            DynamicValue::Array(items) => ValueView::Array(views_of(items@)),
            DynamicValue::ArrayBuffer(bytes) => ValueView::Buffer(bytes@),
            DynamicValue::Object(properties) => ValueView::Object(property_views(properties@)),
        }
    }
}


/// In every object of the value, at any depth, no key occurs twice.
pub open spec fn keys_unique(value: ValueView) -> bool
    decreases value,
{
    match value {
        ValueView::Array(items) => forall|i: int|
            0 <= i < items.len() ==> keys_unique(#[trigger] items[i]),
        ValueView::Object(properties) => distinct_names(properties) && forall|i: int|
            0 <= i < properties.len() ==> keys_unique((#[trigger] properties[i]).1),
        _ => true,
    }
}

/// The view of a sequence of items is the sequence of their views.
pub proof fn lemma_views_of(items: Seq<DynamicValue>)
    ensures
        views_of(items).len() == items.len(),
        forall|i: int| 0 <= i < items.len() ==> (#[trigger] views_of(items)[i]) == items[i]@,
    decreases items.len(),
{
    if items.len() > 0 {
        lemma_views_of(items.drop_last());
        assert(views_of(items) == views_of(items.drop_last()).push(items.last().view()));
    } else {
        assert(views_of(items) == Seq::<ValueView>::empty());
    }
}

/// The view of a sequence of properties is the sequence of their views.
pub proof fn lemma_property_views(properties: Seq<(String, DynamicValue)>)
    ensures
        property_views(properties).len() == properties.len(),
        forall|i: int|
            0 <= i < properties.len() ==> (#[trigger] property_views(properties)[i]) == (
                properties[i].0@,
                properties[i].1@,
            ),
    decreases properties.len(),
{
    if properties.len() > 0 {
        lemma_property_views(properties.drop_last());
        assert(property_views(properties) == property_views(properties.drop_last()).push(
            (properties.last().0@, properties.last().1.view()),
        ));
    } else {
        assert(property_views(properties) == Seq::<(Seq<char>, ValueView)>::empty());
    }
}

/// The character of a decimal digit.
pub open spec fn digit(d: int) -> char {
    if d == 0 {
        '0'
    } else if d == 1 {
        '1'
    } else if d == 2 {
        '2'
    } else if d == 3 {
        '3'
    } else if d == 4 {
        '4'
    } else if d == 5 {
        '5'
    } else if d == 6 {
        '6'
    } else if d == 7 {
        '7'
    } else if d == 8 {
        '8'
    } else {
        '9'
    }
}

/// A natural number in decimal, without leading zeros.
pub open spec fn natural_text(n: nat) -> Seq<char>
    decreases n,
{
    if n < 10 {
        seq![digit(n as int)]
    } else {
        natural_text(n / 10).push(digit((n % 10) as int))
    }
}

/// An integer in decimal, with a minus sign in front of a negative one.
pub open spec fn integer_text(i: int) -> Seq<char> {
    if i < 0 {
        seq!['-'] + natural_text((-i) as nat)
    } else {
        natural_text(i as nat)
    }
}

/// The texts with the separator between each two of them.
pub open spec fn joined(parts: Seq<Seq<char>>, separator: Seq<char>) -> Seq<char>
    decreases parts.len(),
{
    if parts.len() == 0 {
        Seq::empty()
    } else if parts.len() == 1 {
        parts[0]
    } else {
        joined(parts.drop_last(), separator) + separator + parts.last()
    }
}

/// How a value prints: text as it is, numbers in decimal, the items of an
/// array with commas between them, and a fixed text for each other kind.
pub open spec fn display(value: ValueView) -> Seq<char>
    decreases value,
{
    match value {
        ValueView::Undefined => "undefined"@,
        ValueView::Null => "null"@,
        ValueView::Bool(b) => if b {
            "true"@
        } else {
            "false"@
        },
        ValueView::Int(i) => integer_text(i as int),
        ValueView::Float { text, .. } => text,
        ValueView::Text(s) => s,
        ValueView::Array(items) => display_items(items),
        ValueView::Buffer(_) => "[object ArrayBuffer]"@,
        ValueView::Object(_) => "[object Object]"@,
    }
}

/// How the items of an array print: each as it prints, with commas between them.
pub open spec fn display_items(items: Seq<ValueView>) -> Seq<char>
    decreases items,
{
    if items.len() == 0 {
        Seq::empty()
    } else if items.len() == 1 {
        display(items[0])
    } else {
        display_items(items.drop_last()) + seq![','] + display(items.last())
    }
}

/// The value of the property that was written last under the key, if any.
pub open spec fn property(properties: Seq<(Seq<char>, ValueView)>, key: Seq<char>) -> Option<
    ValueView,
>
    decreases properties.len(),
{
    if properties.len() == 0 {
        None
    } else if properties.last().0 == key {
        Some(properties.last().1)
    } else {
        property(properties.drop_last(), key)
    }
}

fn digit_text(d: u64) -> (r: &'static str)
    requires
        d < 10,
    ensures
        r@ == seq![digit(d as int)],
{
    proof {
        reveal_strlit("0");
        reveal_strlit("1");
        reveal_strlit("2");
        reveal_strlit("3");
        reveal_strlit("4");
        reveal_strlit("5");
        reveal_strlit("6");
        reveal_strlit("7");
        reveal_strlit("8");
        reveal_strlit("9");
    }
    let r = if d == 0 {
        "0"
    } else if d == 1 {
        "1"
    } else if d == 2 {
        "2"
    } else if d == 3 {
        "3"
    } else if d == 4 {
        "4"
    } else if d == 5 {
        "5"
    } else if d == 6 {
        "6"
    } else if d == 7 {
        "7"
    } else if d == 8 {
        "8"
    } else {
        "9"
    };
    assert(r@ =~= seq![digit(d as int)]);
    r
}

/// A natural number in decimal.
pub fn natural_string(n: u64) -> (r: String)
    ensures
        r@ == natural_text(n as nat),
    decreases n,
{
    if n < 10 {
        digit_text(n).to_owned()
    } else {
        let mut r = natural_string(n / 10);
        r.append(digit_text(n % 10));
        assert(r@ =~= natural_text(n as nat));
        r
    }
}

/// An integer in decimal.
pub fn integer_string(i: i64) -> (r: String)
    ensures
        r@ == integer_text(i as int),
{
    if i < 0 {
        let magnitude: u64 = if i == i64::MIN {
            0x8000_0000_0000_0000
        } else {
            (-i) as u64
        };
        proof {
            reveal_strlit("-");
        }
        let mut r = "-".to_owned();
        let digits = natural_string(magnitude);
        r.append(digits.as_str());
        assert(r@ =~= integer_text(i as int));
        r
    } else {
        natural_string(i as u64)
    }
}

impl DynamicValue {
    /// The text that the value prints as ([`display`]).
    pub fn to_text(&self) -> (r: String)
        ensures
            r@ == display(self@),
        decreases self,
    {
        match self {
            DynamicValue::Undefined => "undefined".to_owned(),
            DynamicValue::Null => "null".to_owned(),
            DynamicValue::Bool(b) => if *b {
                "true".to_owned()
            } else {
                "false".to_owned()
            },
            DynamicValue::Int(i) => integer_string(*i as i64),
            DynamicValue::Float { text, .. } => text.clone(),
            DynamicValue::String(s) => s.clone(),
            DynamicValue::ArrayBuffer(_) => "[object ArrayBuffer]".to_owned(),
            DynamicValue::Object(_) => "[object Object]".to_owned(),
            DynamicValue::Array(items) => {
                let mut out = String::new();
                let mut i: usize = 0;
                proof {
                    lemma_views_of(items@);
                    reveal_strlit(",");
                }
                assert(decreases_to!(*self => items@));
                while i < items.len()
                    invariant
                        i <= items.len(),
                        decreases_to!(*self => items@),
                        views_of(items@).len() == items.len(),
                        forall|j: int|
                            0 <= j < items.len() ==> (#[trigger] views_of(items@)[j])
                                == items@[j]@,
                        ","@ == seq![','],
                        out@ == display_items(views_of(items@).take(i as int)),
                    decreases items.len() - i,
                {
                    if i > 0 {
                        out.append(",");
                    }
                    assert(decreases_to!(items@ => items@[i as int]));
                    let item = items[i].to_text();
                    out.append(item.as_str());
                    proof {
                        let all = views_of(items@);
                        let before = all.take(i as int);
                        let after = all.take(i + 1);
                        assert(after.drop_last() =~= before);
                        assert(after.last() == all[i as int]);
                        if i == 0 {
                            assert(after[0] == all[0]);
                            assert(out@ =~= display(all[0]));
                        }
                    }
                    i += 1;
                }
                assert(views_of(items@).take(items.len() as int) =~= views_of(items@));
                out
            },
        }
    }

    /// The property of an object that was written last under the key. A value
    /// that is no object has no properties.
    pub fn get(&self, key: &str) -> (r: Option<&DynamicValue>)
        ensures
            match self@ {
                ValueView::Object(properties) => match property(properties, key@) {
                    Some(value) => r matches Some(found) && found@ == value,
                    None => r is None,
                },
                _ => r is None,
            },
    {
        match self {
            DynamicValue::Object(properties) => {
                let wanted = key.to_owned();
                let mut i: usize = properties.len();
                proof {
                    lemma_property_views(properties@);
                }
                let ghost all = property_views(properties@);
                assert(all.take(i as int) =~= all);
                while i > 0
                    invariant
                        i <= properties.len(),
                        wanted@ == key@,
                        self@ == ValueView::Object(all),
                        all == property_views(properties@),
                        all.len() == properties.len(),
                        forall|j: int|
                            0 <= j < properties.len() ==> (#[trigger] all[j]) == (
                                properties@[j].0@,
                                properties@[j].1@,
                            ),
                        property(all, key@) == property(all.take(i as int), key@),
                    decreases i,
                {
                    i -= 1;
                    let ghost upto = all.take(i + 1);
                    proof {
                        assert(upto.last() == all[i as int]);
                        assert(upto.drop_last() =~= all.take(i as int));
                    }
                    if properties[i].0 == wanted {
                        assert(property(upto, key@) == Some(all[i as int].1));
                        return Some(&properties[i].1);
                    }
                    assert(property(upto, key@) == property(upto.drop_last(), key@));
                }
                None
            },
            _ => None,
        }
    }
}

} // verus!
