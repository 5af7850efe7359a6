//! One crossing of the host boundary, step by step.
//!
//! The guest stores what it sends in its own memory, calls the host function
//! with the offsets, and gets one integer back. Where that integer stands for a
//! block, the guest asks for the block's length and only then copies it out.
//! An [`Exchange`] decides each of these steps; whoever drives it performs the
//! step against the host and reports what came of it.

use vstd::prelude::*;
use crate::memory::{is_valid_offset, Handle, MemoryHandle};

verus! {

/// The host functions that the guest imports.
#[derive(Clone, Copy, Debug, PartialEq, Eq, Structural)]
pub enum HostFunction {
    Fetch,
    RequestBody,
    RequestSend,
    ResponseBody,
    ResponseSend,
    SendDownstream,
}

impl HostFunction {
    /// Whether the function answers with the offset of a block (and with zero
    /// on failure). The others answer with a result code.
    pub open spec fn answers_with_block(self) -> bool {
        self == HostFunction::Fetch || self == HostFunction::RequestBody || self
            == HostFunction::RequestSend || self == HostFunction::ResponseBody
    }

    /// Whether the function answers with the offset of a block.
    pub fn gives_block(&self) -> (r: bool)
        ensures
            r == self.answers_with_block(),
    {
        match self {
            HostFunction::Fetch => true,
            HostFunction::RequestBody => true,
            HostFunction::RequestSend => true,
            HostFunction::ResponseBody => true,
            HostFunction::ResponseSend => false,
            HostFunction::SendDownstream => false,
        }
    }
}

/// What the driver is asked to do next.
#[derive(Debug, PartialEq, Eq)]
pub enum HostAction {
    /// Copy the bytes into guest memory and report the offset they got.
    Store { bytes: Vec<u8> },
    /// Call the host function with the two offsets (the second is zero where
    /// there is none) and report the integer it returns.
    Call { function: HostFunction, first: u64, second: u64 },
    /// Ask the host for the length of the block at the offset.
    Length { offset: u64 },
    /// Copy the block out and report its bytes.
    Load { handle: MemoryHandle },
}

/// A [`HostAction`] as the contracts see it.
pub enum ActionView {
    Store { bytes: Seq<u8> },
    Call { function: HostFunction, first: u64, second: u64 },
    Length { offset: u64 },
    Load { handle: MemoryHandle },
}

impl View for HostAction {
    type V = ActionView;

    open spec fn view(&self) -> ActionView {
        match *self {
            HostAction::Store { bytes } => ActionView::Store { bytes: bytes@ },
            HostAction::Call { function, first, second } => ActionView::Call {
                function,
                first,
                second,
            },
            HostAction::Length { offset } => ActionView::Length { offset },
            HostAction::Load { handle } => ActionView::Load { handle },
        }
    }
}

/// What came of the action that was asked for.
#[derive(Debug, PartialEq, Eq)]
pub enum HostEvent {
    /// The bytes are in guest memory at this offset.
    Stored { offset: u64 },
    /// The bytes could not be stored.
    StoreFailed,
    /// The host function returned this integer.
    Returned { value: u64 },
    /// The block has this length.
    Length { length: u64 },
    /// These bytes were copied out of the block.
    Loaded { bytes: Vec<u8> },
}

/// A [`HostEvent`] as the contracts see it.
pub enum EventView {
    Stored { offset: u64 },
    StoreFailed,
    Returned { value: u64 },
    Length { length: u64 },
    Loaded { bytes: Seq<u8> },
}

impl View for HostEvent {
    type V = EventView;

    open spec fn view(&self) -> EventView {
        match *self {
            HostEvent::Stored { offset } => EventView::Stored { offset },
            HostEvent::StoreFailed => EventView::StoreFailed,
            HostEvent::Returned { value } => EventView::Returned { value },
            HostEvent::Length { length } => EventView::Length { length },
            HostEvent::Loaded { bytes } => EventView::Loaded { bytes: bytes@ },
        }
    }
}

/// What a completed exchange brought back.
#[derive(Debug, PartialEq, Eq)]
pub enum Outcome {
    /// The bytes of the block that the host answered with.
    Block { bytes: Vec<u8> },
    /// The result code that the host answered with.
    Code { value: u64 },
}

/// An [`Outcome`] as the contracts see it.
pub enum OutcomeView {
    Block { bytes: Seq<u8> },
    Code { value: u64 },
}

impl View for Outcome {
    type V = OutcomeView;

    open spec fn view(&self) -> OutcomeView {
        match *self {
            Outcome::Block { bytes } => OutcomeView::Block { bytes: bytes@ },
            Outcome::Code { value } => OutcomeView::Code { value },
        }
    }
}

/// Why an exchange ended without an outcome.
#[derive(Clone, Copy, Debug, PartialEq, Eq, Structural)]
pub enum ExchangeError {
    /// What was to be sent could not be stored in guest memory.
    StoreFailed,
    /// The host answered with the failure sentinel instead of an offset.
    Rejected,
    /// The bytes copied out are not as many as the length that was looked up.
    LengthMismatch,
    /// The driver reported something that was not asked for.
    UnexpectedEvent,
}

/// Where an exchange stands, as the contracts see it.
pub enum StageView {
    /// The record is being stored; the body, if any, comes next.
    StoringRecord { body: Option<Seq<u8>> },
    /// The body is being stored; the record is at the given offset.
    StoringBody { record: u64 },
    /// The host function is being called.
    Calling,
    /// The length of the block at the offset is being looked up.
    Measuring { offset: u64 },
    /// The block is being copied out.
    Loading { handle: MemoryHandle },
}

/// An [`Exchange`] as the contracts see it.
pub struct ExchangeView {
    pub function: HostFunction,
    pub stage: StageView,
}

/// No length is looked up and no block is copied but at a valid offset.
pub open spec fn well_formed(x: ExchangeView) -> bool {
    match x.stage {
        StageView::Measuring { offset } => is_valid_offset(offset),
        StageView::Loading { handle } => is_valid_offset(handle.offset),
        _ => true,
    }
}

/// A step of an exchange as the contracts see it.
pub enum StepView {
    Next { exchange: ExchangeView, action: ActionView },
    Done { result: Result<OutcomeView, ExchangeError> },
}

/// The bytes inside an optional buffer.
pub open spec fn optional_bytes(bytes: Option<Vec<u8>>) -> Option<Seq<u8>> {
    match bytes {
        Some(b) => Some(b@),
        None => None,
    }
}

/// How an exchange begins: with storing the record.
pub open spec fn begin_spec(function: HostFunction, record: Seq<u8>, body: Option<Seq<u8>>) -> (
    ExchangeView,
    ActionView,
) {
    (
        ExchangeView { function, stage: StageView::StoringRecord { body } },
        ActionView::Store { bytes: record },
    )
}

/// The rule of the protocol: what follows from each event at each stage.
///
/// Record and body are stored one after the other and the function is called
/// with their offsets. A function that answers with a result code ends the
/// exchange there. Of one that answers with a block, zero ends it as rejected;
/// any other value is an offset, whose length is looked up and whose block is
/// then copied out with exactly that length.
pub open spec fn step_spec(x: ExchangeView, event: EventView) -> StepView {
    match (x.stage, event) {
        (StageView::StoringRecord { body: Some(bytes) }, EventView::Stored { offset }) => {
            StepView::Next {
                exchange: ExchangeView {
                    function: x.function,
                    stage: StageView::StoringBody { record: offset },
                },
                action: ActionView::Store { bytes },
            }
        },
        (StageView::StoringRecord { body: None }, EventView::Stored { offset }) => StepView::Next {
            exchange: ExchangeView { function: x.function, stage: StageView::Calling },
            action: ActionView::Call { function: x.function, first: offset, second: 0 },
        },
        (StageView::StoringBody { record }, EventView::Stored { offset }) => StepView::Next {
            exchange: ExchangeView { function: x.function, stage: StageView::Calling },
            action: ActionView::Call { function: x.function, first: record, second: offset },
        },
        (StageView::StoringRecord { .. }, EventView::StoreFailed) => StepView::Done {
            result: Err(ExchangeError::StoreFailed),
        },
        (StageView::StoringBody { .. }, EventView::StoreFailed) => StepView::Done {
            result: Err(ExchangeError::StoreFailed),
        },
        (StageView::Calling, EventView::Returned { value }) => {
            if !x.function.answers_with_block() {
                StepView::Done { result: Ok(OutcomeView::Code { value }) }
            } else if !is_valid_offset(value) {
                StepView::Done { result: Err(ExchangeError::Rejected) }
            } else {
                StepView::Next {
                    exchange: ExchangeView {
                        function: x.function,
                        stage: StageView::Measuring { offset: value },
                    },
                    action: ActionView::Length { offset: value },
                }
            }
        },
        (StageView::Measuring { offset }, EventView::Length { length }) => StepView::Next {
            exchange: ExchangeView {
                function: x.function,
                stage: StageView::Loading { handle: MemoryHandle { offset, length } },
            },
            action: ActionView::Load { handle: MemoryHandle { offset, length } },
        },
        (StageView::Loading { handle }, EventView::Loaded { bytes }) => {
            if bytes.len() == handle.length {
                StepView::Done { result: Ok(OutcomeView::Block { bytes }) }
            } else {
                StepView::Done { result: Err(ExchangeError::LengthMismatch) }
            }
        },
        _ => StepView::Done { result: Err(ExchangeError::UnexpectedEvent) },
    }
}

/// The actions that an exchange asks for while the given events come in, one
/// event answering each action. After the exchange is done nothing is asked.
pub open spec fn actions_of(x: ExchangeView, events: Seq<EventView>) -> Seq<ActionView>
    decreases events.len(),
{
    if events.len() == 0 {
        Seq::empty()
    } else {
        match step_spec(x, events[0]) {
            StepView::Next { exchange, action } => seq![action] + actions_of(
                exchange,
                events.drop_first(),
            ),
            StepView::Done { .. } => Seq::empty(),
        }
    }
}

/// When the host answers the call with the failure sentinel, the exchange ends
/// with an error and asks for nothing more: no length lookup, no copy.
pub proof fn lemma_rejected_call_ends_exchange(x: ExchangeView, events: Seq<EventView>)
    requires
        x.stage is Calling,
        x.function.answers_with_block(),
        events.len() > 0,
        events[0] matches EventView::Returned { value } && !is_valid_offset(value),
    ensures
        step_spec(x, events[0]) == (StepView::Done { result: Err(ExchangeError::Rejected) }),
        actions_of(x, events) == Seq::<ActionView>::empty(),
{
}

/// A step keeps the exchange well formed.
pub proof fn lemma_step_well_formed(x: ExchangeView, event: EventView)
    requires
        well_formed(x),
    ensures
        step_spec(x, event) matches StepView::Next { exchange, action } ==> well_formed(exchange),
{
}

/// A length is looked up only of the valid offset that the call just returned.
pub proof fn lemma_lookup_follows_valid_answer(x: ExchangeView, event: EventView)
    ensures
        step_spec(x, event) matches StepView::Next { exchange, action: ActionView::Length { offset } }
            ==> x.stage is Calling && event == (EventView::Returned { value: offset })
            && is_valid_offset(offset) && exchange.stage == (StageView::Measuring { offset }),
{
}

/// A block is copied only at the offset whose length was just looked up, and
/// with exactly that length.
pub proof fn lemma_copy_follows_lookup(x: ExchangeView, event: EventView)
    ensures
        step_spec(x, event) matches StepView::Next { exchange, action: ActionView::Load { handle } }
            ==> x.stage == (StageView::Measuring { offset: handle.offset }) && event == (
        EventView::Length { length: handle.length }),
{
}

/// The offset that an action reads host memory at, if it reads any.
pub open spec fn offset_read(action: ActionView) -> Option<u64> {
    match action {
        ActionView::Length { offset } => Some(offset),
        ActionView::Load { handle } => Some(handle.offset),
        _ => None,
    }
}

/// Whatever the host reports, an exchange never looks up the length of an
/// invalid offset nor copies from one.
pub proof fn lemma_reads_at_valid_offsets(x: ExchangeView, events: Seq<EventView>, i: int)
    requires
        well_formed(x),
        0 <= i < actions_of(x, events).len(),
    ensures
        offset_read(actions_of(x, events)[i]) matches Some(offset) ==> is_valid_offset(offset),
    decreases events.len(),
{
    if events.len() > 0 {
        match step_spec(x, events[0]) {
            StepView::Next { exchange, action } => {
                if i > 0 {
                    lemma_reads_at_valid_offsets(exchange, events.drop_first(), i - 1);
                }
            },
            StepView::Done { .. } => {},
        }
    }
}


/// A host call with what it sends.
#[derive(Debug, PartialEq, Eq)]
#[allow(inconsistent_fields)]
pub enum HostCall {
    /// An outbound fetch: the request record and, if there is one, the body.
    Fetch { request: Vec<u8>, body: Option<Vec<u8>> },
    /// Retrieval of the body of the request at hand.
    RequestBody { request: Vec<u8> },
    /// Sending a request on, with its body.
    RequestSend { request: Vec<u8>, body: Vec<u8> },
    /// Retrieval of the body of the response at hand.
    ResponseBody { response: Vec<u8> },
    /// Sending a response on, with its body.
    ResponseSend { response: Vec<u8>, body: Vec<u8> },
    /// Sending a response downstream, with its body.
    SendDownstream { response: Vec<u8>, body: Vec<u8> },
}

impl HostCall {
    /// The host function that the call goes to.
    pub open spec fn function(self) -> HostFunction {
        match self {
            HostCall::Fetch { .. } => HostFunction::Fetch,
            HostCall::RequestBody { .. } => HostFunction::RequestBody,
            HostCall::RequestSend { .. } => HostFunction::RequestSend,
            HostCall::ResponseBody { .. } => HostFunction::ResponseBody,
            HostCall::ResponseSend { .. } => HostFunction::ResponseSend,
            HostCall::SendDownstream { .. } => HostFunction::SendDownstream,
        }
    }

    /// The record that the call sends.
    pub open spec fn record(self) -> Seq<u8> {
        match self {
            HostCall::Fetch { request, .. } => request@,
            HostCall::RequestBody { request } => request@,
            HostCall::RequestSend { request, .. } => request@,
            HostCall::ResponseBody { response } => response@,
            HostCall::ResponseSend { response, .. } => response@,
            HostCall::SendDownstream { response, .. } => response@,
        }
    }

    /// The body that the call sends beside the record, if any.
    pub open spec fn body(self) -> Option<Seq<u8>> {
        match self {
            HostCall::Fetch { body, .. } => optional_bytes(body),
            HostCall::RequestBody { .. } => None,
            HostCall::RequestSend { body, .. } => Some(body@),
            HostCall::ResponseBody { .. } => None,
            HostCall::ResponseSend { body, .. } => Some(body@),
            HostCall::SendDownstream { body, .. } => Some(body@),
        }
    }
}

#[derive(Debug)]
#[allow(inconsistent_fields)]
enum Stage {
    StoringRecord { body: Option<Vec<u8>> },
    StoringBody { record: u64 },
    Calling,
    Measuring { handle: Handle },
    Loading { handle: MemoryHandle },
}

/// An exchange under way: which host function it is for and what it waits for.
#[derive(Debug)]
pub struct Exchange {
    function: HostFunction,
    stage: Stage,
}

impl View for Exchange {
    type V = ExchangeView;

    closed spec fn view(&self) -> ExchangeView {
        ExchangeView {
            function: self.function,
            stage: match self.stage {
                Stage::StoringRecord { body } => StageView::StoringRecord {
                    body: optional_bytes(body),
                },
                Stage::StoringBody { record } => StageView::StoringBody { record },
                Stage::Calling => StageView::Calling,
                Stage::Measuring { handle } => StageView::Measuring { offset: handle.raw() },
                Stage::Loading { handle } => StageView::Loading { handle },
            },
        }
    }
}

/// The next thing to do in an exchange, or its end.
#[derive(Debug)]
pub enum Step {
    /// The exchange goes on: perform the action and hand the event to `step`.
    Next { exchange: Exchange, action: HostAction },
    /// The exchange is over.
    Done { result: Result<Outcome, ExchangeError> },
}

impl View for Step {
    type V = StepView;

    open spec fn view(&self) -> StepView {
        match *self {
            Step::Next { exchange, action } => StepView::Next {
                exchange: exchange@,
                action: action@,
            },
            Step::Done { result } => StepView::Done {
                result: match result {
                    Ok(outcome) => Ok(outcome@),
                    Err(e) => Err(e),
                },
            },
        }
    }
}

impl Exchange {
    #[verifier::type_invariant]
    spec fn reads_only_valid_offsets(self) -> bool {
        well_formed(self@)
    }

    /// Begins the exchange for a host call. The first thing asked for is to
    /// store the record.
    pub fn begin(call: HostCall) -> (r: (Exchange, HostAction))
        ensures
            (r.0@, r.1@) == begin_spec(call.function(), call.record(), call.body()),
    {
        let (function, record, body): (HostFunction, Vec<u8>, Option<Vec<u8>>) = match call {
            HostCall::Fetch { request, body } => (HostFunction::Fetch, request, body),
            HostCall::RequestBody { request } => (HostFunction::RequestBody, request, None),
            HostCall::RequestSend { request, body } => (
                HostFunction::RequestSend,
                request,
                Some(body),
            ),
            HostCall::ResponseBody { response } => (HostFunction::ResponseBody, response, None),
            HostCall::ResponseSend { response, body } => (
                HostFunction::ResponseSend,
                response,
                Some(body),
            ),
            HostCall::SendDownstream { response, body } => (
                HostFunction::SendDownstream,
                response,
                Some(body),
            ),
        };
        (
            Exchange { function, stage: Stage::StoringRecord { body } },
            HostAction::Store { bytes: record },
        )
    }

    /// Takes what the driver reports and decides what follows, by the rule of
    /// the protocol ([`step_spec`]). The exchange that comes back, if any, is
    /// well formed.
    pub fn step(self, event: HostEvent) -> (r: Step)
        ensures
            r@ == step_spec(self@, event@),
            well_formed(self@),
            r matches Step::Next { exchange, .. } ==> well_formed(exchange@),
    {
        proof {
            use_type_invariant(&self);
        }
        let function = self.function;
        match (self.stage, event) {
            (Stage::StoringRecord { body: Some(bytes) }, HostEvent::Stored { offset }) => {
                Step::Next {
                    exchange: Exchange { function, stage: Stage::StoringBody { record: offset } },
                    action: HostAction::Store { bytes },
                }
            },
            (Stage::StoringRecord { body: None }, HostEvent::Stored { offset }) => Step::Next {
                exchange: Exchange { function, stage: Stage::Calling },
                action: HostAction::Call { function, first: offset, second: 0 },
            },
            (Stage::StoringBody { record }, HostEvent::Stored { offset }) => Step::Next {
                exchange: Exchange { function, stage: Stage::Calling },
                action: HostAction::Call { function, first: record, second: offset },
            },
            (Stage::StoringRecord { .. }, HostEvent::StoreFailed) => Step::Done {
                result: Err(ExchangeError::StoreFailed),
            },
            (Stage::StoringBody { .. }, HostEvent::StoreFailed) => Step::Done {
                result: Err(ExchangeError::StoreFailed),
            },
            (Stage::Calling, HostEvent::Returned { value }) => {
                if !function.gives_block() {
                    Step::Done { result: Ok(Outcome::Code { value }) }
                } else {
                    match Handle::new(value) {
                        None => Step::Done { result: Err(ExchangeError::Rejected) },
                        Some(handle) => Step::Next {
                            exchange: Exchange { function, stage: Stage::Measuring { handle } },
                            action: HostAction::Length { offset: handle.offset() },
                        },
                    }
                }
            },
            (Stage::Measuring { handle }, HostEvent::Length { length }) => {
                let block = handle.with_length(length);
                Step::Next {
                    exchange: Exchange { function, stage: Stage::Loading { handle: block } },
                    action: HostAction::Load { handle: block },
                }
            },
            (Stage::Loading { handle }, HostEvent::Loaded { bytes }) => {
                if bytes.len() as u64 == handle.length {
                    Step::Done { result: Ok(Outcome::Block { bytes }) }
                } else {
                    Step::Done { result: Err(ExchangeError::LengthMismatch) }
                }
            },
            _ => Step::Done { result: Err(ExchangeError::UnexpectedEvent) },
        }
    }
}

} // verus!
