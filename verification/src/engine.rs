//! The life of one instance: set up once, then entered as often as the host likes.

use vstd::prelude::*;
use vstd::seq_lib::{to_multiset_contains, to_multiset_insert, to_multiset_remove};
use vstd::utf8::encode_utf8;

verus! {

/// What an entry point asks of the script engine.
#[derive(Debug, PartialEq, Eq)]
pub enum EngineAction {
    /// Evaluate the user's source in the global namespace, under this name.
    EvaluateSource { name: String, source: String },
    /// Turn the input bytes into a script value: the request.
    ReadRequest { input: Vec<u8> },
    /// Set the global to the property of the request.
    ForwardProperty { property: String, global: String },
    /// Call the function held by the global with the request as its argument.
    CallHandler { global: String },
    /// Run pending microtasks until none is left ([`drain`]).
    DrainMicrotasks,
}

/// An [`EngineAction`] as the contracts see it.
pub enum EngineActionView {
    EvaluateSource { name: Seq<char>, source: Seq<char> },
    ReadRequest { input: Seq<u8> },
    ForwardProperty { property: Seq<char>, global: Seq<char> },
    CallHandler { global: Seq<char> },
    DrainMicrotasks,
}

impl View for EngineAction {
    type V = EngineActionView;

    open spec fn view(&self) -> EngineActionView {
        match self {
            EngineAction::EvaluateSource { name, source } => EngineActionView::EvaluateSource {
                name: name@,
                source: source@,
            },
            EngineAction::ReadRequest { input } => EngineActionView::ReadRequest { input: input@ },
            EngineAction::ForwardProperty { property, global } => {
                EngineActionView::ForwardProperty { property: property@, global: global@ }
            },
            EngineAction::CallHandler { global } => EngineActionView::CallHandler {
                global: global@,
            },
            EngineAction::DrainMicrotasks => EngineActionView::DrainMicrotasks,
        }
    }
}

/// The actions as the contracts see them.
pub open spec fn actions_view(actions: Seq<EngineAction>) -> Seq<EngineActionView> {
    actions.map_values(|action: EngineAction| action@)
}

/// The ways into an instance.
pub enum Entry {
    /// Evaluate the top-level source.
    Plain,
    /// Invoke the handler that the script defined, with the given input.
    Edge { input: Seq<u8> },
}

/// What the plain entry asks for: the stored source is evaluated.
pub open spec fn plain_plan(source: Seq<char>) -> Seq<EngineActionView> {
    seq![EngineActionView::EvaluateSource { name: "script.js"@, source }]
}

/// What the edge entry asks for: the request is read from the input, its
/// backend mode is put where the handler finds it, the handler is called, and
/// the microtasks are run to the end.
pub open spec fn edge_plan(input: Seq<u8>) -> Seq<EngineActionView> {
    seq![
        EngineActionView::ReadRequest { input },
        EngineActionView::ForwardProperty { property: "backend_mode"@, global: "__backend_mode"@ },
        EngineActionView::CallHandler { global: "__handler"@ },
        EngineActionView::DrainMicrotasks,
    ]
}

/// What an entry asks for.
pub open spec fn entry_plan(source: Seq<char>, entry: Entry) -> Seq<EngineActionView> {
    match entry {
        Entry::Plain => plain_plan(source),
        Entry::Edge { input } => edge_plan(input),
    }
}

/// What a run of entries asks for, one entry after the other.
pub open spec fn session_plan(source: Seq<char>, entries: Seq<Entry>) -> Seq<EngineActionView>
    decreases entries.len(),
{
    if entries.len() == 0 {
        Seq::empty()
    } else {
        session_plan(source, entries.drop_last()) + entry_plan(source, entries.last())
    }
}

/// How often the actions evaluate the user's source.
pub open spec fn evaluations(actions: Seq<EngineActionView>) -> nat
    decreases actions.len(),
{
    if actions.len() == 0 {
        0
    } else {
        evaluations(actions.drop_last()) + if actions.last() is EvaluateSource {
            1nat
        } else {
            0nat
        }
    }
}

/// How many of the entries are plain.
pub open spec fn plain_entries(entries: Seq<Entry>) -> nat
    decreases entries.len(),
{
    if entries.len() == 0 {
        0
    } else {
        plain_entries(entries.drop_last()) + if entries.last() is Plain {
            1nat
        } else {
            0nat
        }
    }
}

/// The evaluations of two runs of actions add up.
pub proof fn lemma_evaluations_add(first: Seq<EngineActionView>, second: Seq<EngineActionView>)
    ensures
        evaluations(first + second) == evaluations(first) + evaluations(second),
    decreases second.len(),
{
    if second.len() == 0 {
        assert(first + second =~= first);
    } else {
        lemma_evaluations_add(first, second.drop_last());
        assert((first + second).drop_last() =~= first + second.drop_last());
        assert((first + second).last() == second.last());
    }
}

/// The edge entry never evaluates the user's source, and the plain entry
/// evaluates it once.
pub proof fn lemma_entry_evaluations(source: Seq<char>, entry: Entry)
    ensures
        evaluations(entry_plan(source, entry)) == if entry is Plain {
            1nat
        } else {
            0nat
        },
{
    match entry {
        Entry::Plain => {
            let plan = plain_plan(source);
            assert(plan.drop_last() =~= Seq::empty());
            assert(evaluations(plan.drop_last()) == 0);
        },
        Entry::Edge { input } => {
            let plan = edge_plan(input);
            let three = plan.drop_last();
            let two = three.drop_last();
            let one = two.drop_last();
            assert(one.drop_last() =~= Seq::empty());
            assert(evaluations(one.drop_last()) == 0);
            assert(evaluations(one) == 0);
            assert(evaluations(two) == 0);
            assert(evaluations(three) == 0);
        },
    }
}

/// The user's source is evaluated once for each plain entry and never for an
/// edge entry: however often the edge entry is invoked, before or after, the
/// source is evaluated exactly as often as the plain entry was.
pub proof fn lemma_source_evaluated_once_per_plain_entry(source: Seq<char>, entries: Seq<Entry>)
    ensures
        evaluations(session_plan(source, entries)) == plain_entries(entries),
    decreases entries.len(),
{
    if entries.len() > 0 {
        lemma_source_evaluated_once_per_plain_entry(source, entries.drop_last());
        lemma_entry_evaluations(source, entries.last());
        lemma_evaluations_add(
            session_plan(source, entries.drop_last()),
            entry_plan(source, entries.last()),
        );
    }
}

/// Where the host enters an instance through the plain entry once at most,
/// the user's source is evaluated once at most, however often the edge entry
/// is invoked before or after.
pub proof fn lemma_source_evaluated_at_most_once(source: Seq<char>, entries: Seq<Entry>)
    requires
        plain_entries(entries) <= 1,
    ensures
        evaluations(session_plan(source, entries)) <= 1,
{
    lemma_source_evaluated_once_per_plain_entry(source, entries);
}

/// The configuration of an instance: the user's source, captured when the
/// engine is set up and never changed afterwards.
#[derive(Debug)]
pub struct Engine {
    source: String,
}

impl Engine {
    /// The source that was captured.
    pub closed spec fn source_text(&self) -> Seq<char> {
        self.source@
    }

    /// The user's source.
    pub fn code(&self) -> (r: &str)
        ensures
            r@ == self.source_text(),
    {
        self.source.as_str()
    }

    /// What the plain entry asks for ([`plain_plan`]).
    pub fn start(&self) -> (r: Vec<EngineAction>)
        ensures
            actions_view(r@) == plain_plan(self.source_text()),
    {
        let mut actions: Vec<EngineAction> = Vec::new();
        actions.push(
            EngineAction::EvaluateSource { name: "script.js".to_owned(), source: self.source.clone() },
        );
        assert(actions_view(actions@) =~= plain_plan(self.source_text()));
        actions
    }

    /// What the edge entry asks for with the given input ([`edge_plan`]).
    pub fn apoxy_start(&self, input: Vec<u8>) -> (r: Vec<EngineAction>)
        ensures
            actions_view(r@) == edge_plan(input@),
    {
        let mut actions: Vec<EngineAction> = Vec::new();
        actions.push(EngineAction::ReadRequest { input });
        actions.push(
            EngineAction::ForwardProperty {
                property: "backend_mode".to_owned(),
                global: "__backend_mode".to_owned(),
            },
        );
        actions.push(EngineAction::CallHandler { global: "__handler".to_owned() });
        actions.push(EngineAction::DrainMicrotasks);
        assert(actions_view(actions@) =~= edge_plan(input@));
        actions
    }
}

/// What setting an instance up takes.
#[derive(Clone, Copy, Debug, PartialEq, Eq, Structural)]
pub enum SetupStep {
    /// Make a fresh context of the script engine.
    CreateContext,
    /// Furnish the global namespace, by the steps of `inject_globals`.
    InjectGlobals,
    /// Read the user's source from the input channel and hand it to
    /// [`Instance::complete`].
    ReadSource,
}

/// Setting up: a fresh context, the global namespace, the user's source.
pub open spec fn setup_plan() -> Seq<SetupStep> {
    seq![SetupStep::CreateContext, SetupStep::InjectGlobals, SetupStep::ReadSource]
}

/// An instance of the module: not set up yet, or set up with its engine.
#[derive(Debug)]
pub struct Instance {
    engine: Option<Engine>,
}

impl Instance {
    /// The source of the engine, once the instance is set up.
    pub closed spec fn source(&self) -> Option<Seq<char>> {
        match self.engine {
            Some(engine) => Some(engine.source_text()),
            None => None,
        }
    }

    /// An instance that is not set up.
    pub fn new() -> (r: Instance)
        ensures
            r.source() is None,
    {
        Instance { engine: None }
    }

    /// What has to be done before the engine can be used: the whole setup for
    /// an instance that is not set up, and nothing for one that is.
    pub fn init(&self) -> (r: Vec<SetupStep>)
        ensures
            r@ == if self.source() is None {
                setup_plan()
            } else {
                Seq::empty()
            },
    {
        let mut steps: Vec<SetupStep> = Vec::new();
        if self.engine.is_some() {
            return steps;
        }
        steps.push(SetupStep::CreateContext);
        steps.push(SetupStep::InjectGlobals);
        steps.push(SetupStep::ReadSource);
        assert(steps@ =~= setup_plan());
        steps
    }

    /// Ends the setup with the source that was read. The source of an
    /// instance that is set up already stays as it is: it is captured once.
    pub fn complete(&mut self, source: String)
        ensures
            final(self).source() == match old(self).source() {
                Some(kept) => Some(kept),
                None => Some(source@),
            },
    {
        if self.engine.is_none() {
            self.engine = Some(Engine { source });
        }
    }

    /// The engine of an instance that is set up.
    pub fn js_context(&self) -> (r: Option<&Engine>)
        ensures
            r is Some <==> self.source() is Some,
            r matches Some(engine) ==> Some(engine.source_text()) == self.source(),
    {
        self.engine.as_ref()
    }
}

/// What to do about the microtask queue.
#[derive(Clone, Copy, Debug, PartialEq, Eq, Structural)]
pub enum Drain {
    /// Microtasks are pending: run them and look again.
    ExecutePending,
    /// The queue is empty: control goes back to the host.
    Done,
}

/// One turn of draining the microtask queue: the entry returns only when
/// nothing is pending any more.
pub fn drain(pending: bool) -> (r: Drain)
    ensures
        r == Drain::Done <==> !pending,
        r == Drain::ExecutePending <==> pending,
{
    if pending {
        Drain::ExecutePending
    } else {
        Drain::Done
    }
}


/// The order of byte strings: byte by byte, and a string before every longer
/// one that begins with it.
pub open spec fn bytes_in_order(a: Seq<u8>, b: Seq<u8>) -> bool
    decreases a.len(),
{
    if a.len() == 0 {
        true
    } else if b.len() == 0 {
        false
    } else if a[0] != b[0] {
        a[0] < b[0]
    } else {
        bytes_in_order(a.skip(1), b.skip(1))
    }
}

/// The order of names: that of their UTF-8 bytes.
pub open spec fn names_in_order(a: Seq<char>, b: Seq<char>) -> bool {
    bytes_in_order(encode_utf8(a), encode_utf8(b))
}

/// Each name stands before or beside every later one.
pub open spec fn sorted(names: Seq<Seq<char>>) -> bool {
    forall|i: int, j: int| 0 <= i < j < names.len() ==> names_in_order(names[i], names[j])
}

/// The views of the names, in order.
pub open spec fn names_of(names: Seq<String>) -> Seq<Seq<char>> {
    names.map_values(|name: String| name@)
}

/// Of two byte strings one stands before or beside the other.
pub proof fn lemma_bytes_order_total(a: Seq<u8>, b: Seq<u8>)
    ensures
        bytes_in_order(a, b) || bytes_in_order(b, a),
    decreases a.len(),
{
    if a.len() > 0 && b.len() > 0 && a[0] == b[0] {
        lemma_bytes_order_total(a.skip(1), b.skip(1));
    }
}

/// The order of byte strings is transitive.
pub proof fn lemma_bytes_order_transitive(a: Seq<u8>, b: Seq<u8>, c: Seq<u8>)
    requires
        bytes_in_order(a, b),
        bytes_in_order(b, c),
    ensures
        bytes_in_order(a, c),
    decreases a.len(),
{
    if a.len() > 0 && b.len() > 0 && c.len() > 0 && a[0] == b[0] && b[0] == c[0] {
        lemma_bytes_order_transitive(a.skip(1), b.skip(1), c.skip(1));
    }
}

fn in_order(a: &str, b: &str) -> (r: bool)
    ensures
        r == names_in_order(a@, b@),
{
    let x = a.as_bytes();
    let y = b.as_bytes();
    let mut i: usize = 0;
    assert(x@.skip(0) =~= x@);
    assert(y@.skip(0) =~= y@);
    while i < x.len() && i < y.len()
        invariant
            i <= x@.len(),
            i <= y@.len(),
            x@ == encode_utf8(a@),
            y@ == encode_utf8(b@),
            bytes_in_order(x@, y@) == bytes_in_order(x@.skip(i as int), y@.skip(i as int)),
        decreases x@.len() - i,
    {
        let ghost here_x = x@.skip(i as int);
        let ghost here_y = y@.skip(i as int);
        assert(here_x[0] == x@[i as int]);
        assert(here_y[0] == y@[i as int]);
        if x[i] != y[i] {
            return x[i] < y[i];
        }
        assert(here_x.skip(1) =~= x@.skip(i + 1));
        assert(here_y.skip(1) =~= y@.skip(i + 1));
        i += 1;
    }
    i >= x.len()
}

/// The names of the exports in order: the same names, sorted by their bytes.
pub fn export_names(keys: Vec<String>) -> (r: Vec<String>)
    ensures
        sorted(names_of(r@)),
        names_of(r@).to_multiset() == names_of(keys@).to_multiset(),
{
    let mut left = keys;
    let mut done: Vec<String> = Vec::new();
    let ghost all = names_of(keys@).to_multiset();
    assert(names_of(done@) =~= Seq::<Seq<char>>::empty());
    assert(names_of(done@).to_multiset() =~= vstd::multiset::Multiset::empty()) by {
        broadcast use vstd::seq_lib::group_to_multiset_ensures;

    }
    assert(names_of(done@).to_multiset().add(names_of(left@).to_multiset()) =~= all);
    while left.len() > 0
        invariant
            sorted(names_of(done@)),
            names_of(done@).to_multiset().add(names_of(left@).to_multiset()) == all,
        decreases left.len(),
    {
        let ghost before_left = names_of(left@);
        let ghost before_done = names_of(done@);
        let key = left.pop().unwrap();
        proof {
            let last = before_left.len() - 1;
            assert(names_of(left@) =~= before_left.remove(last));
            assert(before_left[last] == key@);
            to_multiset_remove(before_left, last);
            to_multiset_contains(before_left, key@);
            assert(before_left.contains(key@));
        }
        let mut at: usize = 0;
        while at < done.len() && in_order(done[at].as_str(), key.as_str())
            invariant
                at <= done.len(),
                before_done == names_of(done@),
                forall|j: int| 0 <= j < at ==> names_in_order(#[trigger] before_done[j], key@),
            decreases done.len() - at,
        {
            at += 1;
        }
        done.insert(at, key);
        proof {
            let after = names_of(done@);
            assert(after =~= before_done.insert(at as int, key@));
            to_multiset_insert(before_done, at as int, key@);
            assert(names_of(done@).to_multiset().add(names_of(left@).to_multiset()) =~= all) by {
                broadcast use vstd::multiset::group_multiset_axioms;

            }
            assert forall|i: int, j: int| 0 <= i < j < after.len() implies names_in_order(
                after[i],
                after[j],
            ) by {
                if j == at {
                    assert(after[i] == before_done[i]);
                } else if i == at {
                    assert(after[j] == before_done[j - 1]);
                    lemma_bytes_order_total(encode_utf8(before_done[at as int]), encode_utf8(key@));
                    if j - 1 > at {
                        assert(names_in_order(before_done[at as int], before_done[j - 1]));
                        lemma_bytes_order_transitive(
                            encode_utf8(key@),
                            encode_utf8(before_done[at as int]),
                            encode_utf8(before_done[j - 1]),
                        );
                    }
                } else {
                    let from = if i < at {
                        i
                    } else {
                        i - 1
                    };
                    let to = if j < at {
                        j
                    } else {
                        j - 1
                    };
                    assert(after[i] == before_done[from]);
                    assert(after[j] == before_done[to]);
                }
            }
        }
    }
    proof {
        assert(names_of(left@) =~= Seq::<Seq<char>>::empty());
        assert(names_of(left@).to_multiset() =~= vstd::multiset::Multiset::empty()) by {
            broadcast use vstd::seq_lib::group_to_multiset_ensures;

        }
        assert(names_of(done@).to_multiset() =~= all);
    }
    done
}

} // verus!
