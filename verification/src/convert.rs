//! From a value to the steps that build it inside the script engine.
//!
//! The engine builds values on a stack: a step puts a new value on top, adds
//! the top value to the array below it, or writes it as a property of the
//! object below it. [`convert_js_value`] lays a value out as such steps, and
//! [`lemma_plan_builds_value`] shows that running them gives the value back.

use vstd::prelude::*;
use vstd::slice::slice_to_vec;
use crate::headers::{distinct_names, lemma_position_of, position_of, put};
use crate::value::{
    keys_unique, lemma_property_views, lemma_views_of, property_views, views_of, DynamicValue,
    ValueView,
};

verus! {

/// One step of building a value.
#[derive(Debug, PartialEq)]
pub enum BuildOp {
    Undefined,
    Null,
    Bool(bool),
    Int(i32),
    Float { bits: u64, text: String },
    Text(String),
    Buffer(Vec<u8>),
    /// Puts an empty array on the stack.
    NewArray,
    /// Takes the top value off and appends it to the array below.
    Append,
    /// Puts an empty object on the stack.
    NewObject,
    /// Takes the top value off and writes it under the key to the object below.
    SetProperty(String),
}

/// A [`BuildOp`] as the contracts see it.
pub enum OpView {
    Undefined,
    Null,
    Bool(bool),
    Int(i32),
    Float { bits: u64, text: Seq<char> },
    Text(Seq<char>),
    Buffer(Seq<u8>),
    NewArray,
    Append,
    NewObject,
    SetProperty(Seq<char>),
}

impl View for BuildOp {
    type V = OpView;

    open spec fn view(&self) -> OpView {
        match self {
            BuildOp::Undefined => OpView::Undefined,
            BuildOp::Null => OpView::Null,
            BuildOp::Bool(b) => OpView::Bool(*b),
            BuildOp::Int(i) => OpView::Int(*i),
            BuildOp::Float { bits, text } => OpView::Float { bits: *bits, text: text@ },
            BuildOp::Text(s) => OpView::Text(s@),
            BuildOp::Buffer(bytes) => OpView::Buffer(bytes@),
            BuildOp::NewArray => OpView::NewArray,
            BuildOp::Append => OpView::Append,
            BuildOp::NewObject => OpView::NewObject,
            BuildOp::SetProperty(key) => OpView::SetProperty(key@),
        }
    }
}

/// The steps as the contracts see them.
pub open spec fn plan_view(ops: Seq<BuildOp>) -> Seq<OpView> {
    ops.map_values(|op: BuildOp| op@)
}

/// The steps that build a value: one step for a value without parts; for an
/// array the empty array and then, item by item in order, the item's steps
/// and an append; for an object the empty object and then, property by
/// property in order, the steps of the property's value and the write.
pub open spec fn plan_of(value: ValueView) -> Seq<OpView>
    decreases value,
{
    match value {
        ValueView::Undefined => seq![OpView::Undefined],
        ValueView::Null => seq![OpView::Null],
        ValueView::Bool(b) => seq![OpView::Bool(b)],
        ValueView::Int(i) => seq![OpView::Int(i)],
        ValueView::Float { bits, text } => seq![OpView::Float { bits, text }],
        ValueView::Text(s) => seq![OpView::Text(s)],
        ValueView::Buffer(bytes) => seq![OpView::Buffer(bytes)],
        ValueView::Array(items) => seq![OpView::NewArray] + plan_of_items(items),
        ValueView::Object(properties) => seq![OpView::NewObject] + plan_of_properties(properties),
    }
}

/// The steps that append the items to the array on top of the stack.
pub open spec fn plan_of_items(items: Seq<ValueView>) -> Seq<OpView>
    decreases items,
{
    if items.len() == 0 {
        Seq::empty()
    } else {
        plan_of_items(items.drop_last()) + plan_of(items.last()) + seq![OpView::Append]
    }
}

/// The steps that write the properties to the object on top of the stack.
pub open spec fn plan_of_properties(properties: Seq<(Seq<char>, ValueView)>) -> Seq<OpView>
    decreases properties,
{
    if properties.len() == 0 {
        Seq::empty()
    } else {
        plan_of_properties(properties.drop_last()) + plan_of(properties.last().1) + seq![
            OpView::SetProperty(properties.last().0),
        ]
    }
}

/// What one step does to the stack of the engine, or `None` where the step
/// does not apply: nothing to take off, or no array or object below it.
pub open spec fn apply(op: OpView, stack: Seq<ValueView>) -> Option<Seq<ValueView>> {
    match op {
        OpView::Undefined => Some(stack.push(ValueView::Undefined)),
        OpView::Null => Some(stack.push(ValueView::Null)),
        OpView::Bool(b) => Some(stack.push(ValueView::Bool(b))),
        OpView::Int(i) => Some(stack.push(ValueView::Int(i))),
        OpView::Float { bits, text } => Some(stack.push(ValueView::Float { bits, text })),
        OpView::Text(s) => Some(stack.push(ValueView::Text(s))),
        OpView::Buffer(bytes) => Some(stack.push(ValueView::Buffer(bytes))),
        OpView::NewArray => Some(stack.push(ValueView::Array(Seq::empty()))),
        OpView::NewObject => Some(stack.push(ValueView::Object(Seq::empty()))),
        OpView::Append => if stack.len() < 2 {
            None
        } else {
            match stack[stack.len() - 2] {
                ValueView::Array(items) => Some(
                    stack.take(stack.len() - 2).push(ValueView::Array(items.push(stack.last()))),
                ),
                _ => None,
            }
        },
        OpView::SetProperty(key) => if stack.len() < 2 {
            None
        } else {
            match stack[stack.len() - 2] {
                ValueView::Object(properties) => Some(
                    stack.take(stack.len() - 2).push(
                        ValueView::Object(put(properties, key, stack.last())),
                    ),
                ),
                _ => None,
            }
        },
    }
}

/// What the steps do to the stack, one after the other.
pub open spec fn run(ops: Seq<OpView>, stack: Seq<ValueView>) -> Option<Seq<ValueView>>
    decreases ops.len(),
{
    if ops.len() == 0 {
        Some(stack)
    } else {
        match apply(ops[0], stack) {
            Some(next) => run(ops.drop_first(), next),
            None => None,
        }
    }
}

/// Running two plans one after the other is running them joined.
pub proof fn lemma_run_joined(first: Seq<OpView>, second: Seq<OpView>, stack: Seq<ValueView>)
    ensures
        run(first + second, stack) == match run(first, stack) {
            Some(between) => run(second, between),
            None => None,
        },
    decreases first.len(),
{
    if first.len() == 0 {
        assert(first + second =~= second);
    } else {
        assert((first + second)[0] == first[0]);
        assert((first + second).drop_first() =~= first.drop_first() + second);
        match apply(first[0], stack) {
            Some(next) => {
                lemma_run_joined(first.drop_first(), second, next);
            },
            None => {},
        }
    }
}

/// Running one step is applying it.
pub proof fn lemma_run_one(op: OpView, stack: Seq<ValueView>)
    ensures
        run(seq![op], stack) == apply(op, stack),
{
    let ops = seq![op];
    assert(ops.drop_first() =~= Seq::empty());
    match apply(op, stack) {
        Some(next) => {
            assert(run(ops.drop_first(), next) == Some(next));
        },
        None => {},
    }
}

/// Running the plan of a value whose keys are unique puts exactly that value
/// on the stack and leaves what was there untouched: arrays keep their order,
/// objects their keys and values, buffers their bytes.
pub proof fn lemma_plan_builds_value(value: ValueView, stack: Seq<ValueView>)
    requires
        keys_unique(value),
    ensures
        run(plan_of(value), stack) == Some(stack.push(value)),
    decreases value, 1nat,
{
    match value {
        ValueView::Array(items) => {
            lemma_run_one(OpView::NewArray, stack);
            lemma_run_joined(seq![OpView::NewArray], plan_of_items(items), stack);
            lemma_items_build(items, items.len() as int, stack);
            assert(items.take(items.len() as int) =~= items);
        },
        ValueView::Object(properties) => {
            lemma_run_one(OpView::NewObject, stack);
            lemma_run_joined(seq![OpView::NewObject], plan_of_properties(properties), stack);
            lemma_properties_build(properties, properties.len() as int, stack);
            assert(properties.take(properties.len() as int) =~= properties);
        },
        ValueView::Undefined => {
            lemma_run_one(OpView::Undefined, stack);
        },
        ValueView::Null => {
            lemma_run_one(OpView::Null, stack);
        },
        ValueView::Bool(b) => {
            lemma_run_one(OpView::Bool(b), stack);
        },
        ValueView::Int(i) => {
            lemma_run_one(OpView::Int(i), stack);
        },
        ValueView::Float { bits, text } => {
            lemma_run_one(OpView::Float { bits, text }, stack);
        },
        ValueView::Text(s) => {
            lemma_run_one(OpView::Text(s), stack);
        },
        ValueView::Buffer(bytes) => {
            lemma_run_one(OpView::Buffer(bytes), stack);
        },
    }
}

/// Appending the first `count` items to an empty array on the stack gives the
/// array of those items.
pub proof fn lemma_items_build(items: Seq<ValueView>, count: int, stack: Seq<ValueView>)
    requires
        0 <= count <= items.len(),
        forall|i: int| 0 <= i < items.len() ==> keys_unique(#[trigger] items[i]),
    ensures
        run(plan_of_items(items.take(count)), stack.push(ValueView::Array(Seq::empty()))) == Some(
            stack.push(ValueView::Array(items.take(count))),
        ),
    decreases items, 0nat, count,
{
    let start = stack.push(ValueView::Array(Seq::empty()));
    let taken = items.take(count);
    if count == 0 {
        assert(taken =~= Seq::empty());
        assert(plan_of_items(taken) =~= Seq::empty());
    } else {
        let front = items.take(count - 1);
        let item = items[count - 1];
        assert(taken.drop_last() =~= front);
        assert(taken.last() == item);
        lemma_items_build(items, count - 1, stack);
        let built = stack.push(ValueView::Array(front));
        assert(decreases_to!(items => items[count - 1]));
        lemma_plan_builds_value(item, built);
        let top = built.push(item);
        lemma_run_one(OpView::Append, top);
        assert(top.take(top.len() - 2) =~= stack);
        assert(front.push(item) =~= taken);
        assert(apply(OpView::Append, top) == Some(stack.push(ValueView::Array(taken))));
        lemma_run_joined(plan_of_items(front), plan_of(item), start);
        lemma_run_joined(plan_of_items(front) + plan_of(item), seq![OpView::Append], start);
    }
}

/// Writing the first `count` properties to an empty object on the stack gives
/// the object of those properties.
pub proof fn lemma_properties_build(
    properties: Seq<(Seq<char>, ValueView)>,
    count: int,
    stack: Seq<ValueView>,
)
    requires
        0 <= count <= properties.len(),
        distinct_names(properties),
        forall|i: int| 0 <= i < properties.len() ==> keys_unique((#[trigger] properties[i]).1),
    ensures
        run(
            plan_of_properties(properties.take(count)),
            stack.push(ValueView::Object(Seq::empty())),
        ) == Some(stack.push(ValueView::Object(properties.take(count)))),
    decreases properties, 0nat, count,
{
    let start = stack.push(ValueView::Object(Seq::empty()));
    let taken = properties.take(count);
    if count == 0 {
        assert(taken =~= Seq::empty());
        assert(plan_of_properties(taken) =~= Seq::empty());
    } else {
        let front = properties.take(count - 1);
        let entry = properties[count - 1];
        assert(taken.drop_last() =~= front);
        assert(taken.last() == entry);
        lemma_properties_build(properties, count - 1, stack);
        let built = stack.push(ValueView::Object(front));
        assert(decreases_to!(properties => properties[count - 1]));
        assert(decreases_to!(properties[count - 1] => properties[count - 1].1));
        lemma_plan_builds_value(entry.1, built);
        let top = built.push(entry.1);
        lemma_run_one(OpView::SetProperty(entry.0), top);
        assert(top.take(top.len() - 2) =~= stack);
        lemma_position_of(front, entry.0);
        assert(position_of(front, entry.0) == front.len()) by {
            let at = position_of(front, entry.0);
            if at < front.len() {
                assert(front[at] == properties[at]);
                assert(properties[at].0 == properties[count - 1].0);
            }
        }
        assert(put(front, entry.0, entry.1) =~= taken);
        assert(apply(OpView::SetProperty(entry.0), top) == Some(
            stack.push(ValueView::Object(taken)),
        ));
        lemma_run_joined(plan_of_properties(front), plan_of(entry.1), start);
        lemma_run_joined(
            plan_of_properties(front) + plan_of(entry.1),
            seq![OpView::SetProperty(entry.0)],
            start,
        );
    }
}


fn emit(value: &DynamicValue, out: &mut Vec<BuildOp>)
    ensures
        plan_view(final(out)@) == plan_view(old(out)@) + plan_of(value@),
    decreases value,
{
    let ghost start = plan_view(out@);
    match value {
        DynamicValue::Undefined => {
            out.push(BuildOp::Undefined);
            assert(plan_view(out@) =~= start + plan_of(value@));
        },
        DynamicValue::Null => {
            out.push(BuildOp::Null);
            assert(plan_view(out@) =~= start + plan_of(value@));
        },
        DynamicValue::Bool(b) => {
            out.push(BuildOp::Bool(*b));
            assert(plan_view(out@) =~= start + plan_of(value@));
        },
        DynamicValue::Int(i) => {
            out.push(BuildOp::Int(*i));
            assert(plan_view(out@) =~= start + plan_of(value@));
        },
        DynamicValue::Float { bits, text } => {
            out.push(BuildOp::Float { bits: *bits, text: text.clone() });
            assert(plan_view(out@) =~= start + plan_of(value@));
        },
        DynamicValue::String(s) => {
            out.push(BuildOp::Text(s.clone()));
            assert(plan_view(out@) =~= start + plan_of(value@));
        },
        DynamicValue::ArrayBuffer(bytes) => {
            out.push(BuildOp::Buffer(slice_to_vec(bytes.as_slice())));
            assert(plan_view(out@) =~= start + plan_of(value@));
        },
        DynamicValue::Array(items) => {
            out.push(BuildOp::NewArray);
            let ghost all = views_of(items@);
            proof {
                lemma_views_of(items@);
                assert(all.take(0) =~= Seq::<ValueView>::empty());
                assert(plan_view(out@) =~= start + seq![OpView::NewArray] + plan_of_items(
                    all.take(0),
                ));
            }
            assert(decreases_to!(*value => items@));
            let mut i: usize = 0;
            while i < items.len()
                invariant
                    i <= items.len(),
                    decreases_to!(*value => items@),
                    all == views_of(items@),
                    all.len() == items.len(),
                    forall|j: int| 0 <= j < items.len() ==> (#[trigger] all[j]) == items@[j]@,
                    plan_view(out@) == start + seq![OpView::NewArray] + plan_of_items(
                        all.take(i as int),
                    ),
                decreases items.len() - i,
            {
                let ghost before = plan_view(out@);
                assert(decreases_to!(items@ => items@[i as int]));
                emit(&items[i], out);
                out.push(BuildOp::Append);
                proof {
                    let upto = all.take(i + 1);
                    assert(upto.drop_last() =~= all.take(i as int));
                    assert(upto.last() == all[i as int]);
                    assert(plan_view(out@) =~= before + plan_of(all[i as int]) + seq![
                        OpView::Append,
                    ]);
                    assert(plan_view(out@) =~= start + seq![OpView::NewArray] + plan_of_items(
                        upto,
                    ));
                }
                i += 1;
            }
            proof {
                assert(all.take(items.len() as int) =~= all);
                assert(plan_view(out@) =~= start + plan_of(value@));
            }
        },
        DynamicValue::Object(properties) => {
            out.push(BuildOp::NewObject);
            let ghost all = property_views(properties@);
            proof {
                lemma_property_views(properties@);
                assert(all.take(0) =~= Seq::<(Seq<char>, ValueView)>::empty());
                assert(plan_view(out@) =~= start + seq![OpView::NewObject] + plan_of_properties(
                    all.take(0),
                ));
            }
            assert(decreases_to!(*value => properties@));
            let mut i: usize = 0;
            while i < properties.len()
                invariant
                    i <= properties.len(),
                    decreases_to!(*value => properties@),
                    all == property_views(properties@),
                    all.len() == properties.len(),
                    forall|j: int|
                        0 <= j < properties.len() ==> (#[trigger] all[j]) == (
                            properties@[j].0@,
                            properties@[j].1@,
                        ),
                    plan_view(out@) == start + seq![OpView::NewObject] + plan_of_properties(
                        all.take(i as int),
                    ),
                decreases properties.len() - i,
            {
                let ghost before = plan_view(out@);
                assert(decreases_to!(properties@ => properties@[i as int]));
                assert(decreases_to!(properties@[i as int] => properties@[i as int].1));
                emit(&properties[i].1, out);
                out.push(BuildOp::SetProperty(properties[i].0.clone()));
                proof {
                    let upto = all.take(i + 1);
                    assert(upto.drop_last() =~= all.take(i as int));
                    assert(upto.last() == all[i as int]);
                    assert(plan_view(out@) =~= before + plan_of(all[i as int].1) + seq![
                        OpView::SetProperty(all[i as int].0),
                    ]);
                    assert(plan_view(out@) =~= start + seq![OpView::NewObject]
                        + plan_of_properties(upto));
                }
                i += 1;
            }
            proof {
                assert(all.take(properties.len() as int) =~= all);
                assert(plan_view(out@) =~= start + plan_of(value@));
            }
        },
    }
}

/// Lays a value out as the steps that build it in the engine ([`plan_of`]).
pub fn convert_js_value(value: &DynamicValue) -> (r: Vec<BuildOp>)
    ensures
        plan_view(r@) == plan_of(value@),
{
    let mut out: Vec<BuildOp> = Vec::new();
    assert(plan_view(out@) =~= Seq::<OpView>::empty());
    emit(value, &mut out);
    assert(plan_view(out@) =~= plan_of(value@));
    out
}

} // verus!
