//! The events of a trace.
use crate::args::{ArgValsView, RRFuncArgVals};
use crate::error::{Error, ErrorView, ReplayError};
use crate::text::{arg_vals, byte_list, decimal, push_arg_vals, push_byte_list, push_decimal};
use vstd::prelude::*;

verus! {

/// The checksum of a module's code.
#[derive(Clone, Copy, Debug)]
pub struct WasmChecksum(pub [u8; 32]);

/// A module instance of a store.
#[derive(Clone, Copy, Debug, PartialEq, Eq, Structural)]
pub struct InstanceId(pub u32);

/// A module instance, as a trace names it.
#[derive(Clone, Copy, Debug, PartialEq, Eq, Structural)]
pub struct RRModuleInstanceId(pub u32);

/// A function of a module.
#[derive(Clone, Copy, Debug, PartialEq, Eq, Structural)]
pub struct FuncIndex(pub u32);

impl InstanceId {
    /// The name that a trace uses for this instance.
    pub fn to_trace_id(self) -> (id: RRModuleInstanceId)
        ensures
            id.0 == self.0,
    {
        RRModuleInstanceId(self.0)
    }
}

/// A module was instantiated.
#[derive(Clone, Copy, Debug)]
pub struct InstantiationEvent {
    pub module: WasmChecksum,
    pub instance: RRModuleInstanceId,
}

/// The host called a WebAssembly function.
#[derive(Debug)]
pub struct WasmFuncEntryEvent {
    pub instance: RRModuleInstanceId,
    pub func_index: FuncIndex,
    pub args: RRFuncArgVals,
}

/// WebAssembly called a host function.
#[derive(Debug)]
pub struct HostFuncEntryEvent {
    pub args: RRFuncArgVals,
}

/// A host function returned to WebAssembly.
#[derive(Debug)]
pub struct HostFuncReturnEvent {
    pub args: RRFuncArgVals,
}

/// The results of a call, or the message of the error that it ended in.
#[derive(Debug)]
pub struct ResultEvent(pub Result<RRFuncArgVals, String>);

/// A WebAssembly function returned to the host.
#[derive(Debug)]
pub struct WasmFuncReturnEvent(pub ResultEvent);

/// One event of a trace.
#[derive(Debug)]
pub enum RREvent {
    CoreWasmInstantiation(InstantiationEvent),
    CoreWasmFuncEntry(WasmFuncEntryEvent),
    HostFuncEntry(HostFuncEntryEvent),
    HostFuncReturn(HostFuncReturnEvent),
    WasmFuncReturn(WasmFuncReturnEvent),
}

/// The mathematical form of an [`RREvent`].
#[verifier::ext_equal]
pub enum EventView {
    CoreWasmInstantiation { module: Seq<u8>, instance: RRModuleInstanceId },
    CoreWasmFuncEntry { instance: RRModuleInstanceId, func_index: FuncIndex, args: ArgValsView },
    HostFuncEntry { args: ArgValsView },
    HostFuncReturn { args: ArgValsView },
    WasmFuncReturn { ret: Result<ArgValsView, Seq<char>> },
}

impl View for ResultEvent {
    type V = Result<ArgValsView, Seq<char>>;

    open spec fn view(&self) -> Result<ArgValsView, Seq<char>> {
        match self.0 {
            Ok(vals) => Ok(vals@),
            Err(message) => Err(message@),
        }
    }
}

impl View for InstantiationEvent {
    type V = EventView;

    open spec fn view(&self) -> EventView {
        EventView::CoreWasmInstantiation { module: self.module.0@, instance: self.instance }
    }
}

impl View for WasmFuncEntryEvent {
    type V = EventView;

    open spec fn view(&self) -> EventView {
        EventView::CoreWasmFuncEntry {
            instance: self.instance,
            func_index: self.func_index,
            args: self.args@,
        }
    }
}

impl View for RREvent {
    type V = EventView;

    open spec fn view(&self) -> EventView {
        match *self {
            RREvent::CoreWasmInstantiation(event) => event@,
            RREvent::CoreWasmFuncEntry(event) => event@,
            RREvent::HostFuncEntry(event) => EventView::HostFuncEntry { args: event.args@ },
            RREvent::HostFuncReturn(event) => EventView::HostFuncReturn { args: event.args@ },
            RREvent::WasmFuncReturn(event) => EventView::WasmFuncReturn { ret: event.0@ },
        }
    }
}

impl EventView {
    /// The values that a replay reads from the event can be read.  Events that
    /// only serve validation are compared as they are.
    pub open spec fn well_formed(self) -> bool {
        match self {
            EventView::CoreWasmFuncEntry { args, .. } => args.well_formed(),
            EventView::HostFuncReturn { args } => args.well_formed(),
            _ => true,
        }
    }

    /// Both are events of one kind.
    pub open spec fn same_kind(self, other: EventView) -> bool {
        match self {
            EventView::CoreWasmInstantiation { .. } => other is CoreWasmInstantiation,
            EventView::CoreWasmFuncEntry { .. } => other is CoreWasmFuncEntry,
            EventView::HostFuncEntry { .. } => other is HostFuncEntry,
            EventView::HostFuncReturn { .. } => other is HostFuncReturn,
            EventView::WasmFuncReturn { .. } => other is WasmFuncReturn,
        }
    }

    /// The name of the type that carries the event.
    pub open spec fn type_text(self) -> Seq<char> {
        match self {
            EventView::CoreWasmInstantiation { .. } => "InstantiationEvent"@,
            EventView::CoreWasmFuncEntry { .. } => "WasmFuncEntryEvent"@,
            EventView::HostFuncEntry { .. } => "HostFuncEntryEvent"@,
            EventView::HostFuncReturn { .. } => "HostFuncReturnEvent"@,
            EventView::WasmFuncReturn { .. } => "WasmFuncReturnEvent"@,
        }
    }

    /// The text of the event itself.
    pub open spec fn text(self) -> Seq<char> {
        self.type_text() + match self {
            EventView::CoreWasmInstantiation { module, instance } => " { module: WasmChecksum("@
                + byte_list(module) + "), instance: RRModuleInstanceId("@ + decimal(
                instance.0 as nat,
            ) + ") }"@,
            EventView::CoreWasmFuncEntry { instance, func_index, args } =>
                " { instance: RRModuleInstanceId("@ + decimal(instance.0 as nat)
                + "), func_index: FuncIndex("@ + decimal(func_index.0 as nat) + "), args: "@
                + arg_vals(args) + " }"@,
            EventView::HostFuncEntry { args } => " { args: "@ + arg_vals(args) + " }"@,
            EventView::HostFuncReturn { args } => " { args: "@ + arg_vals(args) + " }"@,
            EventView::WasmFuncReturn { ret } => match ret {
                Ok(vals) => "(ResultEvent(Ok("@ + arg_vals(vals) + ")))"@,
                Err(message) => "(ResultEvent(Err("@ + message + ")))"@,
            },
        }
    }

    /// The name of the event's kind.
    pub open spec fn kind_text(self) -> Seq<char> {
        match self {
            EventView::CoreWasmInstantiation { .. } => "CoreWasmInstantiation"@,
            EventView::CoreWasmFuncEntry { .. } => "CoreWasmFuncEntry"@,
            EventView::HostFuncEntry { .. } => "HostFuncEntry"@,
            EventView::HostFuncReturn { .. } => "HostFuncReturn"@,
            EventView::WasmFuncReturn { .. } => "WasmFuncReturn"@,
        }
    }

    /// The text of the event, inside the name of its kind.
    ///
    /// In the return of a call that failed, the message stands as it is: it is
    /// neither quoted nor escaped.
    pub open spec fn debug_text(self) -> Seq<char> {
        self.kind_text() + "("@ + self.text() + ")"@
    }
}

/// How a call that ended in `result` is kept in a trace.
pub open spec fn return_of(result: Result<ArgValsView, ErrorView>) -> Result<ArgValsView, Seq<char>> {
    match result {
        Ok(vals) => Ok(vals),
        Err(error) => Err(error.text()),
    }
}

/// A call's result, in mathematical form.
pub open spec fn result_view(result: Result<RRFuncArgVals, Error>) -> Result<ArgValsView, ErrorView> {
    match result {
        Ok(vals) => Ok(vals@),
        Err(error) => Err(error@),
    }
}

impl ResultEvent {
    /// Keeps the values of a call, or the message of its error.
    pub fn from_anyhow_result(result: &Result<RRFuncArgVals, Error>) -> (event: Self)
        ensures
            event@ == return_of(result_view(*result)),
    {
        match result {
            Ok(vals) => ResultEvent(Ok(vals.clone())),
            Err(error) => ResultEvent(Err(error.to_text())),
        }
    }

    /// Whether both keep the same values, or the same message.
    pub fn equals(&self, other: &Self) -> (equal: bool)
        ensures
            equal == (self@ == other@),
    {
        match (&self.0, &other.0) {
            (Ok(a), Ok(b)) => a.equals(b),
            (Err(a), Err(b)) => *a == *b,
            _ => false,
        }
    }
}

impl WasmChecksum {
    pub fn equals(&self, other: &Self) -> (equal: bool)
        ensures
            equal == (self.0@ == other.0@),
    {
        let mut i: usize = 0;
        while i < 32
            invariant
                i <= 32,
                forall|k: int| 0 <= k < i ==> self.0@[k] == other.0@[k],
            decreases 32 - i,
        {
            if self.0[i] != other.0[i] {
                return false;
            }
            i = i + 1;
        }
        assert(self.0@ =~= other.0@);
        true
    }
}

impl InstantiationEvent {
    /// Holds the event of a trace against what a replay did.
    pub fn validate(&self, expect: &InstantiationEvent) -> (result: Result<(), ReplayError>)
        ensures
            result == if self@ == expect@ {
                Ok::<(), ReplayError>(())
            } else {
                Err(ReplayError::FailedValidation)
            },
    {
        let module = self.module.equals(&expect.module);
        if module && self.instance == expect.instance {
            Ok(())
        } else {
            Err(ReplayError::FailedValidation)
        }
    }
}

impl HostFuncEntryEvent {
    /// Holds the event of a trace against what a replay did.
    pub fn validate(&self, expect: &HostFuncEntryEvent) -> (result: Result<(), ReplayError>)
        ensures
            result == if self.args@ == expect.args@ {
                Ok::<(), ReplayError>(())
            } else {
                Err(ReplayError::FailedValidation)
            },
    {
        if self.args.equals(&expect.args) {
            Ok(())
        } else {
            Err(ReplayError::FailedValidation)
        }
    }
}

impl WasmFuncReturnEvent {
    /// Holds the event of a trace against how a replayed call ended.
    pub fn validate(&self, expect: &Result<RRFuncArgVals, Error>) -> (result: Result<
        (),
        ReplayError,
    >)
        ensures
            result == if self.0@ == return_of(result_view(*expect)) {
                Ok::<(), ReplayError>(())
            } else {
                Err(ReplayError::FailedValidation)
            },
    {
        let expected = ResultEvent::from_anyhow_result(expect);
        if self.0.equals(&expected) {
            Ok(())
        } else {
            Err(ReplayError::FailedValidation)
        }
    }
}

impl TryFrom<RREvent> for HostFuncEntryEvent {
    type Error = ReplayError;

    fn try_from(event: RREvent) -> (result: Result<Self, ReplayError>) {
        match event {
            RREvent::HostFuncEntry(event) => Ok(event),
            _ => Err(ReplayError::IncorrectEventVariant),
        }
    }
}

impl vstd::std_specs::convert::TryFromSpecImpl<RREvent> for HostFuncEntryEvent {
    open spec fn obeys_try_from_spec() -> bool {
        true
    }

    open spec fn try_from_spec(event: RREvent) -> Result<Self, ReplayError> {
        match event {
            RREvent::HostFuncEntry(event) => Ok(event),
            _ => Err(ReplayError::IncorrectEventVariant),
        }
    }
}

impl TryFrom<RREvent> for HostFuncReturnEvent {
    type Error = ReplayError;

    fn try_from(event: RREvent) -> (result: Result<Self, ReplayError>) {
        match event {
            RREvent::HostFuncReturn(event) => Ok(event),
            _ => Err(ReplayError::IncorrectEventVariant),
        }
    }
}

impl vstd::std_specs::convert::TryFromSpecImpl<RREvent> for HostFuncReturnEvent {
    open spec fn obeys_try_from_spec() -> bool {
        true
    }

    open spec fn try_from_spec(event: RREvent) -> Result<Self, ReplayError> {
        match event {
            RREvent::HostFuncReturn(event) => Ok(event),
            _ => Err(ReplayError::IncorrectEventVariant),
        }
    }
}

impl TryFrom<RREvent> for WasmFuncReturnEvent {
    type Error = ReplayError;

    fn try_from(event: RREvent) -> (result: Result<Self, ReplayError>) {
        match event {
            RREvent::WasmFuncReturn(event) => Ok(event),
            _ => Err(ReplayError::IncorrectEventVariant),
        }
    }
}

impl vstd::std_specs::convert::TryFromSpecImpl<RREvent> for WasmFuncReturnEvent {
    open spec fn obeys_try_from_spec() -> bool {
        true
    }

    open spec fn try_from_spec(event: RREvent) -> Result<Self, ReplayError> {
        match event {
            RREvent::WasmFuncReturn(event) => Ok(event),
            _ => Err(ReplayError::IncorrectEventVariant),
        }
    }
}

impl RREvent {
    fn push_text(&self, out: &mut String)
        ensures
            final(out)@ == old(out)@ + self@.text(),
    {
        match self {
            RREvent::CoreWasmInstantiation(event) => {
                out.append("InstantiationEvent");
                out.append(" { module: WasmChecksum(");
                push_byte_list(out, event.module.0.as_slice());
                out.append("), instance: RRModuleInstanceId(");
                push_decimal(out, event.instance.0 as u64);
                out.append(") }");
            },
            RREvent::CoreWasmFuncEntry(event) => {
                out.append("WasmFuncEntryEvent");
                out.append(" { instance: RRModuleInstanceId(");
                push_decimal(out, event.instance.0 as u64);
                out.append("), func_index: FuncIndex(");
                push_decimal(out, event.func_index.0 as u64);
                out.append("), args: ");
                push_arg_vals(out, &event.args);
                out.append(" }");
            },
            RREvent::HostFuncEntry(event) => {
                out.append("HostFuncEntryEvent");
                out.append(" { args: ");
                push_arg_vals(out, &event.args);
                out.append(" }");
            },
            RREvent::HostFuncReturn(event) => {
                out.append("HostFuncReturnEvent");
                out.append(" { args: ");
                push_arg_vals(out, &event.args);
                out.append(" }");
            },
            RREvent::WasmFuncReturn(event) => match &event.0.0 {
                Ok(vals) => {
                    out.append("WasmFuncReturnEvent");
                    out.append("(ResultEvent(Ok(");
                    push_arg_vals(out, vals);
                    out.append(")))");
                },
                Err(message) => {
                    out.append("WasmFuncReturnEvent");
                    out.append("(ResultEvent(Err(");
                    out.append(message.as_str());
                    out.append(")))");
                },
            },
        }
        assert(out@ =~= old(out)@ + self@.text());
    }

    /// Appends the text of the event, inside the name of its kind.
    pub fn push_debug_text(&self, out: &mut String)
        ensures
            final(out)@ == old(out)@ + self@.debug_text(),
    {
        match self {
            RREvent::CoreWasmInstantiation(_) => out.append("CoreWasmInstantiation"),
            RREvent::CoreWasmFuncEntry(_) => out.append("CoreWasmFuncEntry"),
            RREvent::HostFuncEntry(_) => out.append("HostFuncEntry"),
            RREvent::HostFuncReturn(_) => out.append("HostFuncReturn"),
            RREvent::WasmFuncReturn(_) => out.append("WasmFuncReturn"),
        }
        out.append("(");
        self.push_text(out);
        out.append(")");
        assert(out@ =~= old(out)@ + self@.debug_text());
    }

    /// The text of the event itself.
    pub fn to_text(&self) -> (text: String)
        ensures
            text@ == self@.text(),
    {
        let mut out = String::new();
        self.push_text(&mut out);
        assert(out@ =~= self@.text());
        out
    }

    /// Whether the values that a replay reads from the event can be read.
    pub fn is_well_formed(&self) -> (ok: bool)
        ensures
            ok == self@.well_formed(),
    {
        match self {
            RREvent::CoreWasmFuncEntry(event) => event.args.is_well_formed(),
            RREvent::HostFuncReturn(event) => event.args.is_well_formed(),
            _ => true,
        }
    }
}

impl Clone for RREvent {
    fn clone(&self) -> (copy: Self)
        ensures
            copy@ == self@,
    {
        match self {
            RREvent::CoreWasmInstantiation(event) => RREvent::CoreWasmInstantiation(*event),
            RREvent::CoreWasmFuncEntry(event) => RREvent::CoreWasmFuncEntry(
                WasmFuncEntryEvent {
                    instance: event.instance,
                    func_index: event.func_index,
                    args: event.args.clone(),
                },
            ),
            RREvent::HostFuncEntry(event) => RREvent::HostFuncEntry(
                HostFuncEntryEvent { args: event.args.clone() },
            ),
            RREvent::HostFuncReturn(event) => RREvent::HostFuncReturn(
                HostFuncReturnEvent { args: event.args.clone() },
            ),
            RREvent::WasmFuncReturn(event) => RREvent::WasmFuncReturn(
                WasmFuncReturnEvent(
                    match &event.0.0 {
                        Ok(vals) => ResultEvent(Ok(vals.clone())),
                        Err(message) => ResultEvent(Err(message.clone())),
                    },
                ),
            ),
        }
    }
}

} // verus!
