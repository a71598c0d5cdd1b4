//! The recording or replaying state of a store.
use crate::args::RRFuncArgVals;
use crate::error::{outcome, EntityIndex, Error, ErrorView, ReplayError};
use crate::events::{
    result_view, return_of, EventView, FuncIndex, HostFuncEntryEvent, InstantiationEvent, RREvent,
    RRModuleInstanceId, WasmFuncReturnEvent,
};
use crate::values::{FuncType, FuncTypeView};
use std::collections::{HashMap, VecDeque};
use vstd::prelude::*;

verus! {

broadcast use vstd::std_specs::hash::group_hash_axioms;

/// Which way a store that takes part in record and replay goes.
#[derive(Clone, Copy, Debug, PartialEq, Eq, Structural)]
pub enum ActiveBoundaryMode {
    Recording,
    Replaying,
}

/// What a recording holds.
#[derive(Clone, Copy, Debug, PartialEq, Eq, Structural)]
pub struct RecordSettings {
    /// Whether the trace also holds the events that a replay does not need, but
    /// against which it can be checked.
    pub add_validation: bool,
}

/// A finished recording.
#[derive(Debug)]
pub struct Trace {
    pub settings: RecordSettings,
    pub events: Vec<RREvent>,
}

impl Trace {
    /// Whether the values that a replay of the trace reads can be read.
    pub fn is_well_formed(&self) -> (ok: bool)
        ensures
            ok == forall|i: int|
                0 <= i < self.events@.len() ==> (#[trigger] self.events@[i])@.well_formed(),
    {
        let mut i: usize = 0;
        while i < self.events.len()
            invariant
                i <= self.events@.len(),
                forall|k: int| 0 <= k < i ==> (#[trigger] self.events@[k])@.well_formed(),
            decreases self.events@.len() - i,
        {
            if !self.events[i].is_well_formed() {
                return false;
            }
            i = i + 1;
        }
        true
    }
}

/// A module instance that a replay can call into.
#[derive(Debug)]
pub struct Instance {
    /// The signatures of the functions, by index.
    pub funcs: Vec<FuncType>,
}

impl View for Instance {
    type V = Seq<FuncTypeView>;

    open spec fn view(&self) -> Seq<FuncTypeView> {
        self.funcs@.map_values(|func: FuncType| func@)
    }
}

/// The events in mathematical form.
pub open spec fn event_views(events: Seq<RREvent>) -> Seq<EventView> {
    events.map_values(|event: RREvent| event@)
}

#[verifier::ext_equal]
pub struct RecordView {
    pub add_validation: bool,
    /// Why the writer behind the recording has failed, if it has.
    pub failure: Option<Seq<char>>,
    pub events: Seq<EventView>,
}

#[verifier::ext_equal]
pub struct ReplayView {
    /// Whether the trace was recorded with events to validate against.
    pub add_validation: bool,
    /// The events that are still to be replayed.
    pub remaining: Seq<EventView>,
    /// The functions of each module instance.
    pub instances: Map<u32, Seq<FuncTypeView>>,
    /// The instantiation that is being replayed.
    pub current_instantiation: Option<EventView>,
}

/// The mathematical form of a store's recording or replaying state.
#[verifier::ext_equal]
pub enum StateView {
    Disabled,
    Recording(RecordView),
    Replaying(ReplayView),
}

impl StateView {
    pub open spec fn mode(self) -> Option<ActiveBoundaryMode> {
        match self {
            StateView::Disabled => None,
            StateView::Recording(_) => Some(ActiveBoundaryMode::Recording),
            StateView::Replaying(_) => Some(ActiveBoundaryMode::Replaying),
        }
    }

    /// Whether events that only serve validation are recorded or replayed.
    pub open spec fn adds_validation(self) -> bool {
        match self {
            StateView::Disabled => false,
            StateView::Recording(rec) => rec.add_validation,
            StateView::Replaying(rep) => rep.add_validation,
        }
    }

    /// The values that the rest of the replay reads can be read.
    pub open spec fn well_formed(self) -> bool {
        self matches StateView::Replaying(rep) ==> forall|i: int|
            0 <= i < rep.remaining.len() ==> (#[trigger] rep.remaining[i]).well_formed()
    }

    /// `later` can come of this state by recording and replaying further: what
    /// was recorded stays, and what was replayed does not come back.
    pub open spec fn leads_to(self, later: StateView) -> bool {
        match (self, later) {
            (StateView::Disabled, StateView::Disabled) => true,
            (StateView::Recording(a), StateView::Recording(b)) => {
                &&& b.add_validation == a.add_validation
                &&& a.events.is_prefix_of(b.events)
                &&& a.failure is Some ==> b.events == a.events && b.failure is Some
            },
            (StateView::Replaying(a), StateView::Replaying(b)) => {
                &&& b.add_validation == a.add_validation
                &&& b.remaining.is_suffix_of(a.remaining)
            },
            _ => false,
        }
    }

    /// The state with `event` recorded, where it records and its writer works.
    pub open spec fn recorded(self, event: EventView) -> (StateView, Result<(), ErrorView>) {
        match self {
            StateView::Recording(rec) => match rec.failure {
                Some(reason) => (self, Err(ErrorView::RecordFailed(reason))),
                None => (
                    StateView::Recording(RecordView { events: rec.events.push(event), ..rec }),
                    Ok(()),
                ),
            },
            _ => (self, Ok(())),
        }
    }

    /// The state with `event` recorded, where it records events to validate
    /// against.
    pub open spec fn recorded_validation(self, event: EventView) -> (
        StateView,
        Result<(), ErrorView>,
    ) {
        if self.adds_validation() {
            self.recorded(event)
        } else {
            (self, Ok(()))
        }
    }

    /// The next event of the trace, and the state without it.
    pub open spec fn next(self) -> (StateView, Result<EventView, ReplayError>) {
        match self {
            StateView::Replaying(rep) => if rep.remaining.len() == 0 {
                (self, Err(ReplayError::EmptyBuffer))
            } else {
                (
                    StateView::Replaying(
                        ReplayView { remaining: rep.remaining.drop_first(), ..rep },
                    ),
                    Ok(rep.remaining[0]),
                )
            },
            _ => (self, Err(ReplayError::EmptyBuffer)),
        }
    }

    /// The next event of the trace held against `expect`, where the state
    /// replays a trace with events to validate against.
    pub open spec fn validated(self, expect: EventView) -> (StateView, Result<(), ErrorView>) {
        if self is Replaying && self.adds_validation() {
            match self.next().1 {
                Err(e) => (self.next().0, Err(ErrorView::Replay(e))),
                Ok(event) => (
                    self.next().0,
                    if !event.same_kind(expect) {
                        Err(ErrorView::Replay(ReplayError::IncorrectEventVariant))
                    } else if event != expect {
                        Err(ErrorView::Replay(ReplayError::FailedValidation))
                    } else {
                        Ok(())
                    },
                ),
            }
        } else {
            (self, Ok(()))
        }
    }

    /// The function that a trace names, among the instances of a replay.
    pub open spec fn func(self, instance: RRModuleInstanceId, index: FuncIndex) -> Result<
        FuncTypeView,
        ReplayError,
    > {
        match self {
            StateView::Replaying(rep) => if !rep.instances.contains_key(instance.0) {
                Err(ReplayError::MissingModuleInstance(instance))
            } else if index.0 >= rep.instances[instance.0].len() {
                Err(ReplayError::InvalidCoreFuncIndex(EntityIndex::Function(index)))
            } else {
                Ok(rep.instances[instance.0][index.0 as int])
            },
            _ => Err(ReplayError::MissingModuleInstance(instance)),
        }
    }

    /// The state with the instantiation that is being replayed taken from it.
    pub open spec fn instantiation_taken(self) -> StateView {
        match self {
            StateView::Replaying(rep) => StateView::Replaying(
                ReplayView { current_instantiation: None, ..rep },
            ),
            _ => self,
        }
    }
}

/// A state leads to itself.
pub proof fn lemma_leads_to_reflexive(state: StateView)
    ensures
        state.leads_to(state),
{
    match state {
        StateView::Recording(rec) => {
            assert(rec.events =~= rec.events.subrange(0, rec.events.len() as int));
        },
        StateView::Replaying(rep) => {
            assert(rep.remaining =~= rep.remaining.subrange(0, rep.remaining.len() as int));
        },
        _ => {},
    }
}

/// One state leads to another also by way of a third.
pub proof fn lemma_leads_to_transitive(a: StateView, b: StateView, c: StateView)
    requires
        a.leads_to(b),
        b.leads_to(c),
    ensures
        a.leads_to(c),
{
    match (a, b, c) {
        (StateView::Recording(a), StateView::Recording(b), StateView::Recording(c)) => {
            assert(a.events =~= c.events.subrange(0, a.events.len() as int)) by {
                assert forall|i: int| 0 <= i < a.events.len() implies a.events[i]
                    == c.events[i] by {
                    assert(a.events[i] == b.events.subrange(0, a.events.len() as int)[i]);
                    assert(b.events[i] == c.events.subrange(0, b.events.len() as int)[i]);
                }
            }
        },
        (StateView::Replaying(a), StateView::Replaying(b), StateView::Replaying(c)) => {
            let from = a.remaining.len() - c.remaining.len();
            assert(c.remaining =~= a.remaining.subrange(from, a.remaining.len() as int)) by {
                assert forall|i: int| 0 <= i < c.remaining.len() implies c.remaining[i]
                    == a.remaining[from + i] by {
                    let skip = b.remaining.len() - c.remaining.len();
                    assert(c.remaining[i] == b.remaining.subrange(
                        skip,
                        b.remaining.len() as int,
                    )[i]);
                    assert(b.remaining[skip + i] == a.remaining.subrange(
                        a.remaining.len() - b.remaining.len(),
                        a.remaining.len() as int,
                    )[skip + i]);
                }
            }
        },
        _ => {},
    }
}

/// What can be read of a trace can still be read further on.
pub proof fn lemma_leads_to_well_formed(a: StateView, b: StateView)
    requires
        a.leads_to(b),
        a.well_formed(),
    ensures
        b.well_formed(),
{
    if let (StateView::Replaying(a), StateView::Replaying(b)) = (a, b) {
        assert forall|i: int| 0 <= i < b.remaining.len() implies (
        #[trigger] b.remaining[i]).well_formed() by {
            let skip = a.remaining.len() - b.remaining.len();
            assert(b.remaining[i] == a.remaining.subrange(skip, a.remaining.len() as int)[i]);
            assert(a.remaining[skip + i].well_formed());
        }
    }
}

/// Taking the next event of a trace leads on.
pub proof fn lemma_next_leads_on(state: StateView)
    ensures
        state.leads_to(state.next().0),
{
    lemma_leads_to_reflexive(state);
    if let StateView::Replaying(rep) = state {
        if rep.remaining.len() > 0 {
            assert(rep.remaining.drop_first() =~= rep.remaining.subrange(
                1,
                rep.remaining.len() as int,
            ));
        }
    }
}

/// The events that a store has recorded.
struct RecordBuffer {
    settings: RecordSettings,
    failure: Option<String>,
    events: Vec<RREvent>,
}

/// What a store still has to replay, and what it replays on.
struct ReplayBuffer {
    trace_settings: RecordSettings,
    events: VecDeque<RREvent>,
    instances: HashMap<u32, Instance>,
    current_instantiation: Option<InstantiationEvent>,
}

enum RRState {
    Disabled,
    Recording(RecordBuffer),
    Replaying(ReplayBuffer),
}

/// The part of a store that does not depend on the host's data.
pub struct StoreOpaque {
    state: RRState,
}

/// A store with the host's data.
pub struct Store<T> {
    pub opaque: StoreOpaque,
    pub data: T,
}

impl RecordBuffer {
    spec fn view(self) -> RecordView {
        RecordView {
            add_validation: self.settings.add_validation,
            failure: match self.failure {
                Some(reason) => Some(reason@),
                None => None,
            },
            events: event_views(self.events@),
        }
    }
}

impl ReplayBuffer {
    spec fn view(self) -> ReplayView {
        ReplayView {
            add_validation: self.trace_settings.add_validation,
            remaining: event_views(self.events@),
            instances: self.instances@.map_values(|instance: Instance| instance@),
            current_instantiation: match self.current_instantiation {
                Some(event) => Some(event@),
                None => None,
            },
        }
    }

    fn next_event(&mut self) -> (result: Result<RREvent, ReplayError>)
        ensures
            match result {
                Ok(event) => Ok::<EventView, ReplayError>(event@),
                Err(e) => Err(e),
            } == StateView::Replaying(old(self).view()).next().1,
            StateView::Replaying(final(self).view()) == StateView::Replaying(
                old(self).view(),
            ).next().0,
    {
        match self.events.pop_front() {
            Some(event) => {
                assert(event_views(self.events@) =~= event_views(old(self).events@).drop_first());
                Ok(event)
            },
            None => {
                assert(event_views(self.events@) =~= event_views(old(self).events@));
                Err(ReplayError::EmptyBuffer)
            },
        }
    }
}

impl View for StoreOpaque {
    type V = StateView;

    closed spec fn view(&self) -> StateView {
        match self.state {
            RRState::Disabled => StateView::Disabled,
            RRState::Recording(rec) => StateView::Recording(rec.view()),
            RRState::Replaying(rep) => StateView::Replaying(rep.view()),
        }
    }
}

impl StoreOpaque {
    /// A store that neither records nor replays.
    pub fn new() -> (store: Self)
        ensures
            store@ == StateView::Disabled,
    {
        StoreOpaque { state: RRState::Disabled }
    }

    /// A store that starts a recording.
    pub fn record(settings: RecordSettings) -> (store: Self)
        ensures
            store@ == StateView::Recording(
                RecordView {
                    add_validation: settings.add_validation,
                    failure: None,
                    events: Seq::empty(),
                },
            ),
    {
        let rec = RecordBuffer { settings, failure: None, events: Vec::new() };
        assert(event_views(rec.events@) =~= Seq::empty());
        StoreOpaque { state: RRState::Recording(rec) }
    }

    /// A store that starts to replay a trace.
    pub fn replay(trace: Trace) -> (store: Self)
        ensures
            store@ == StateView::Replaying(
                ReplayView {
                    add_validation: trace.settings.add_validation,
                    remaining: event_views(trace.events@),
                    instances: Map::empty(),
                    current_instantiation: None,
                },
            ),
    {
        let ghost all = trace.events@;
        let trace_settings = trace.settings;
        let mut events = trace.events;
        let mut queue: VecDeque<RREvent> = VecDeque::new();
        while events.len() > 0
            invariant
                events@ + queue@ == all,
            decreases events@.len(),
        {
            let ghost before = events@;
            let ghost queued = queue@;
            match events.pop() {
                Some(event) => {
                    queue.push_front(event);
                    assert(events@ + queue@ =~= before + queued);
                },
                None => {},
            }
        }
        assert(queue@ =~= all);
        let rep = ReplayBuffer {
            trace_settings,
            events: queue,
            instances: HashMap::new(),
            current_instantiation: None,
        };
        assert(rep.view().instances =~= Map::empty());
        StoreOpaque { state: RRState::Replaying(rep) }
    }

    /// Which way the store goes, if it takes part in record and replay.
    pub fn active_boundary_mode(&self) -> (mode: Option<ActiveBoundaryMode>)
        ensures
            mode == self@.mode(),
    {
        match &self.state {
            RRState::Disabled => None,
            RRState::Recording(_) => Some(ActiveBoundaryMode::Recording),
            RRState::Replaying(_) => Some(ActiveBoundaryMode::Replaying),
        }
    }

    /// Whether the store replays a trace.
    pub fn replay_enabled(&self) -> (enabled: bool)
        ensures
            enabled == (self@ is Replaying),
    {
        match &self.state {
            RRState::Replaying(_) => true,
            _ => false,
        }
    }

    /// Whether events that only serve validation are recorded or replayed.
    pub fn adds_validation(&self) -> (adds: bool)
        ensures
            adds == self@.adds_validation(),
    {
        match &self.state {
            RRState::Disabled => false,
            RRState::Recording(rec) => rec.settings.add_validation,
            RRState::Replaying(rep) => rep.trace_settings.add_validation,
        }
    }

    /// Records an event, if the store records.
    pub fn record_event(&mut self, event: RREvent) -> (result: Result<(), Error>)
        ensures
            (final(self)@, outcome(result)) == old(self)@.recorded(event@),
    {
        match &mut self.state {
            RRState::Recording(rec) => match &rec.failure {
                Some(reason) => Err(Error::RecordFailed(reason.clone())),
                None => {
                    let ghost before = rec.events@;
                    rec.events.push(event);
                    assert(event_views(rec.events@) =~= event_views(before).push(event@));
                    Ok(())
                },
            },
            _ => Ok(()),
        }
    }

    /// Records an event, if the store records events to validate against.
    pub fn record_event_validation(&mut self, event: RREvent) -> (result: Result<(), Error>)
        ensures
            (final(self)@, outcome(result)) == old(self)@.recorded_validation(event@),
    {
        if self.adds_validation() {
            self.record_event(event)
        } else {
            Ok(())
        }
    }

    /// Takes the next event from the trace that is being replayed.
    pub fn next_event(&mut self) -> (result: Result<RREvent, ReplayError>)
        requires
            old(self)@ is Replaying,
        ensures
            match result {
                Ok(event) => Ok::<EventView, ReplayError>(event@),
                Err(e) => Err(e),
            } == old(self)@.next().1,
            final(self)@ == old(self)@.next().0,
    {
        match &mut self.state {
            RRState::Replaying(rep) => rep.next_event(),
            _ => Err(ReplayError::EmptyBuffer),
        }
    }

    /// Holds the next event of the trace against a call of a host function, if
    /// the store replays a trace with events to validate against.
    pub fn next_host_func_entry_validation(&mut self, expect: HostFuncEntryEvent) -> (result:
        Result<(), Error>)
        ensures
            (final(self)@, outcome(result)) == old(self)@.validated(
                EventView::HostFuncEntry { args: expect.args@ },
            ),
    {
        if !self.replay_enabled() || !self.adds_validation() {
            return Ok(());
        }
        let event = match self.next_event() {
            Ok(event) => event,
            Err(e) => return Err(Error::Replay(e)),
        };
        let event = match HostFuncEntryEvent::try_from(event) {
            Ok(event) => event,
            Err(e) => return Err(Error::Replay(e)),
        };
        match event.validate(&expect) {
            Ok(()) => Ok(()),
            Err(e) => Err(Error::Replay(e)),
        }
    }

    /// Holds the next event of the trace against how a call of a WebAssembly
    /// function ended, if the store replays a trace with events to validate
    /// against.
    pub fn next_wasm_func_return_validation(
        &mut self,
        expect: &Result<RRFuncArgVals, Error>,
    ) -> (result: Result<(), Error>)
        ensures
            (final(self)@, outcome(result)) == old(self)@.validated(
                EventView::WasmFuncReturn { ret: return_of(result_view(*expect)) },
            ),
    {
        if !self.replay_enabled() || !self.adds_validation() {
            return Ok(());
        }
        let event = match self.next_event() {
            Ok(event) => event,
            Err(e) => return Err(Error::Replay(e)),
        };
        let event = match WasmFuncReturnEvent::try_from(event) {
            Ok(event) => event,
            Err(e) => return Err(Error::Replay(e)),
        };
        match event.validate(expect) {
            Ok(()) => Ok(()),
            Err(e) => Err(Error::Replay(e)),
        }
    }

    /// Looks up the function that a trace names.
    pub fn module_func(&self, instance: RRModuleInstanceId, index: FuncIndex) -> (result: Result<
        &FuncType,
        ReplayError,
    >)
        requires
            self@ is Replaying,
        ensures
            match result {
                Ok(func) => Ok::<FuncTypeView, ReplayError>(func@),
                Err(e) => Err(e),
            } == self@.func(instance, index),
    {
        match &self.state {
            RRState::Replaying(rep) => match rep.instances.get(&instance.0) {
                Some(found) => if (index.0 as usize) < found.funcs.len() {
                    Ok(&found.funcs[index.0 as usize])
                } else {
                    Err(ReplayError::InvalidCoreFuncIndex(EntityIndex::Function(index)))
                },
                None => Err(ReplayError::MissingModuleInstance(instance)),
            },
            _ => Err(ReplayError::MissingModuleInstance(instance)),
        }
    }

    /// Makes a module instance known to a replay.
    pub fn add_module_instance(&mut self, id: RRModuleInstanceId, instance: Instance)
        requires
            old(self)@ is Replaying,
        ensures
            final(self)@ == StateView::Replaying(
                ReplayView {
                    instances: old(self)@->Replaying_0.instances.insert(id.0, instance@),
                    ..old(self)@->Replaying_0
                },
            ),
    {
        match &mut self.state {
            RRState::Replaying(rep) => {
                let ghost before = rep.view().instances;
                rep.instances.insert(id.0, instance);
                assert(rep.view().instances =~= before.insert(id.0, instance@));
            },
            _ => {},
        }
    }

    /// Tells a replay which instantiation comes next.
    pub fn set_current_module_instantiation(&mut self, event: InstantiationEvent)
        requires
            old(self)@ is Replaying,
        ensures
            final(self)@ == StateView::Replaying(
                ReplayView {
                    current_instantiation: Some(event@),
                    ..old(self)@->Replaying_0
                },
            ),
    {
        match &mut self.state {
            RRState::Replaying(rep) => {
                rep.current_instantiation = Some(event);
            },
            _ => {},
        }
    }

    /// Whether a replay was told which instantiation comes next.
    pub fn has_current_module_instantiation(&self) -> (told: bool)
        ensures
            told == (self@ matches StateView::Replaying(rep) && rep.current_instantiation is Some),
    {
        match &self.state {
            RRState::Replaying(rep) => rep.current_instantiation.is_some(),
            _ => false,
        }
    }

    /// Takes the instantiation that a replay was told of.
    pub fn take_current_module_instantiation(&mut self) -> (event: Option<InstantiationEvent>)
        ensures
            match event {
                Some(event) => Some(event@),
                None => None,
            } == match old(self)@ {
                StateView::Replaying(rep) => rep.current_instantiation,
                _ => None,
            },
            final(self)@ == old(self)@.instantiation_taken(),
    {
        match &mut self.state {
            RRState::Replaying(rep) => rep.current_instantiation.take(),
            _ => None,
        }
    }

    /// Notes that the writer behind a recording has failed: nothing more is
    /// recorded.
    pub fn fail_recording(&mut self, reason: String)
        requires
            old(self)@ is Recording,
        ensures
            final(self)@ == StateView::Recording(
                RecordView { failure: Some(reason@), ..old(self)@->Recording_0 },
            ),
    {
        match &mut self.state {
            RRState::Recording(rec) => {
                rec.failure = Some(reason);
            },
            _ => {},
        }
    }

    /// Ends a recording.
    pub fn into_trace(self) -> (trace: Option<Trace>)
        ensures
            match self@ {
                StateView::Recording(rec) => {
                    &&& trace matches Some(trace)
                    &&& trace.settings.add_validation == rec.add_validation
                    &&& event_views(trace.events@) == rec.events
                },
                _ => trace is None,
            },
    {
        match self.state {
            RRState::Recording(rec) => Some(Trace { settings: rec.settings, events: rec.events }),
            _ => None,
        }
    }
}

} // verus!
