//! The hooks at the boundary between core WebAssembly and its host.
use crate::args::{
    flattened, lemma_readable_prefix, min_len, overwritten, slots_fit, ArgValsView, RRFuncArgVals,
};
use crate::error::{outcome, Error, ErrorView, ReplayError};
use crate::events::{
    EventView, FuncIndex, HostFuncEntryEvent, HostFuncReturnEvent, InstanceId, InstantiationEvent,
    RREvent, RRModuleInstanceId, ResultEvent, WasmChecksum, WasmFuncEntryEvent,
    WasmFuncReturnEvent,
};
use crate::module::{Module, RRConfig};
use crate::store::{
    lemma_leads_to_reflexive, lemma_leads_to_transitive, lemma_leads_to_well_formed,
    lemma_next_leads_on, ActiveBoundaryMode, StateView, Store, StoreOpaque,
};
use crate::values::{
    byte_sizes, collect_byte_sizes, zero_padded, FlatBytes, FuncType, FuncTypeView, Val, ValRaw,
    ValType,
};
use vstd::prelude::*;
use vstd::std_specs::iter::IteratorSpec;

verus! {

/// What the call of a host function with the given arguments does to a store.
pub open spec fn host_entry(state: StateView, args: ArgValsView) -> (
    StateView,
    Result<(), ErrorView>,
) {
    match state {
        StateView::Disabled => (state, Ok(())),
        StateView::Recording(_) => state.recorded_validation(EventView::HostFuncEntry { args }),
        StateView::Replaying(_) => state.validated(EventView::HostFuncEntry { args }),
    }
}

/// What the return of a host function with the given results does to a store
/// that may be recording.
pub open spec fn host_return(state: StateView, results: ArgValsView) -> (
    StateView,
    Result<(), ErrorView>,
) {
    state.recorded(EventView::HostFuncReturn { args: results })
}

/// Store-local boundary protocol for transitions between core WebAssembly and
/// the host.
#[derive(Clone, Copy, Debug, PartialEq, Eq, Structural)]
pub(crate) struct CoreHostBoundaryProtocol {
    pub(crate) mode: ActiveBoundaryMode,
}

impl CoreHostBoundaryProtocol {
    pub(crate) fn maybe_for_store(store: &StoreOpaque) -> (protocol: Option<Self>)
        ensures
            match protocol {
                Some(protocol) => Some(protocol.mode),
                None => None,
            } == store@.mode(),
    {
        match store.active_boundary_mode() {
            Some(mode) => Some(CoreHostBoundaryProtocol { mode }),
            None => None,
        }
    }

    pub(crate) fn on_host_entry<T, I>(self, args: &[T], flat: I, store: &mut StoreOpaque) -> (result: Result<
        (),
        Error,
    >) where T: FlatBytes, I: Iterator<Item = u8>
        requires
            old(store)@.mode() == Some(self.mode),
            old(store)@.adds_validation() ==> flat.obeys_prophetic_iter_laws() && slots_fit(
                flat.remaining(),
                args@.len() as int,
            ),
        ensures
            (final(store)@, outcome(result)) == host_entry(
                old(store)@,
                flattened(args@, flat.remaining()),
            ),
    {
        match self.mode {
            ActiveBoundaryMode::Recording => Self::record_host_entry(args, flat, store),
            ActiveBoundaryMode::Replaying => Self::replay_host_entry(args, flat, store),
        }
    }

    pub(crate) fn on_host_return_record<T, I>(self, args: &[T], flat: I, store: &mut StoreOpaque) -> (result:
        Result<(), Error>) where T: FlatBytes, I: Iterator<Item = u8>
        requires
            old(store)@.mode() == Some(self.mode),
            old(store)@ is Recording ==> flat.obeys_prophetic_iter_laws() && slots_fit(
                flat.remaining(),
                args@.len() as int,
            ),
        ensures
            (final(store)@, outcome(result)) == host_return(
                old(store)@,
                flattened(args@, flat.remaining()),
            ),
    {
        if self.mode == ActiveBoundaryMode::Recording {
            return Self::record_host_return(args, flat, store);
        }
        Ok(())
    }

    pub(crate) fn on_host_return_replay_substitute<T, U, F>(
        self,
        args: &mut [T],
        caller: &mut Caller<'_, U, F>,
    ) -> (result: Result<(), Error>) where
        T: FlatBytes,
        F: Fn(&mut Store<U>, WasmCall) -> Result<(), Error>,

        requires
            old(caller).store.opaque@.mode() == Some(self.mode),
            old(caller).store.opaque@.well_formed(),
            old(caller).store.opaque@ is Replaying ==> forall|s: &mut Store<U>, call: WasmCall|
                (*s).opaque@.well_formed() && callable((*s).opaque@, call) ==> #[trigger] call_requires(
                    old(caller).call_wasm,
                    (s, call),
                ),
            old(caller).store.opaque@ is Replaying ==> forall|
                s: &mut Store<U>,
                call: WasmCall,
                r: Result<(), Error>,
            |
                (*s).opaque@.well_formed() && callable((*s).opaque@, call) && #[trigger] call_ensures(
                    old(caller).call_wasm,
                    (s, call),
                    r,
                ) ==> (*s).opaque@.leads_to((*final(s)).opaque@),
        ensures
            old(caller).store.opaque@ is Replaying ==> exists|run: Seq<Reentry<U>>| {
                &&& #[trigger] chained(*old(caller).store, run)
                &&& forall|i: int|
                    0 <= i < run.len() ==> exists|
                        s: &mut Store<U>,
                        call: WasmCall,
                        r: Result<(), Error>,
                    | {
                        &&& *s == (#[trigger] run[i]).before
                        &&& *final(s) == run[i].after
                        &&& call == run[i].call
                        &&& r == run[i].result
                        &&& #[trigger] call_ensures(old(caller).call_wasm, (s, call), r)
                    }
                &&& if run.len() > 0 && run.last().result is Err {
                    &&& result == run.last().result
                    &&& *final(caller).store == run.last().after
                    &&& final(args)@ == old(args)@
                } else {
                    replay_ends(
                        reached(*old(caller).store, run),
                        old(args)@,
                        *final(caller).store,
                        final(args)@,
                        result,
                    )
                }
            },
            !(old(caller).store.opaque@ is Replaying) ==> {
                &&& result is Ok
                &&& *final(caller).store == *old(caller).store
                &&& final(args)@ == old(args)@
            },
            old(caller).store.opaque@.leads_to(final(caller).store.opaque@),
            old(caller).store.opaque@ is Replaying && result is Ok ==> consumed_host_return(
                old(caller).store.opaque@,
                final(caller).store.opaque@,
            ),
            final(caller).call_wasm == old(caller).call_wasm,
            *final(final(caller).store) == *final(old(caller).store),
    {
        match self.mode {
            ActiveBoundaryMode::Replaying => Self::substitute_replay_host_return(args, caller),
            ActiveBoundaryMode::Recording => {
                proof {
                    lemma_leads_to_reflexive(caller.store.opaque@);
                }
                Ok(())
            },
        }
    }

    pub(crate) fn record_host_entry<T, I>(args: &[T], flat: I, store: &mut StoreOpaque) -> (result: Result<
        (),
        Error,
    >) where T: FlatBytes, I: Iterator<Item = u8>
        requires
            old(store)@.adds_validation() ==> flat.obeys_prophetic_iter_laws() && slots_fit(
                flat.remaining(),
                args@.len() as int,
            ),
        ensures
            (final(store)@, outcome(result)) == old(store)@.recorded_validation(
                EventView::HostFuncEntry { args: flattened(args@, flat.remaining()) },
            ),
    {
        if !store.adds_validation() {
            return Ok(());
        }
        let args = RRFuncArgVals::from_flat_iter(args, flat);
        store.record_event_validation(RREvent::HostFuncEntry(HostFuncEntryEvent { args }))
    }

    pub(crate) fn replay_host_entry<T, I>(args: &[T], flat: I, store: &mut StoreOpaque) -> (result: Result<
        (),
        Error,
    >) where T: FlatBytes, I: Iterator<Item = u8>
        requires
            old(store)@.adds_validation() ==> flat.obeys_prophetic_iter_laws() && slots_fit(
                flat.remaining(),
                args@.len() as int,
            ),
        ensures
            (final(store)@, outcome(result)) == old(store)@.validated(
                EventView::HostFuncEntry { args: flattened(args@, flat.remaining()) },
            ),
    {
        if !store.adds_validation() {
            return Ok(());
        }
        let args = RRFuncArgVals::from_flat_iter(args, flat);
        store.next_host_func_entry_validation(HostFuncEntryEvent { args })
    }

    pub(crate) fn record_host_return<T, I>(args: &[T], flat: I, store: &mut StoreOpaque) -> (result: Result<
        (),
        Error,
    >) where T: FlatBytes, I: Iterator<Item = u8>
        requires
            flat.obeys_prophetic_iter_laws(),
            slots_fit(flat.remaining(), args@.len() as int),
        ensures
            (final(store)@, outcome(result)) == old(store)@.recorded(
                EventView::HostFuncReturn { args: flattened(args@, flat.remaining()) },
            ),
    {
        let args = RRFuncArgVals::from_flat_iter(args, flat);
        store.record_event(RREvent::HostFuncReturn(HostFuncReturnEvent { args }))
    }

    pub(crate) fn substitute_replay_host_return<T, U, F>(
        args: &mut [T],
        caller: &mut Caller<'_, U, F>,
    ) -> (result: Result<(), Error>) where
        T: FlatBytes,
        F: Fn(&mut Store<U>, WasmCall) -> Result<(), Error>,

        requires
            old(caller).store.opaque@ is Replaying,
            old(caller).store.opaque@.well_formed(),
            forall|s: &mut Store<U>, call: WasmCall|
                (*s).opaque@.well_formed() && callable((*s).opaque@, call) ==> #[trigger] call_requires(
                    old(caller).call_wasm,
                    (s, call),
                ),
            forall|s: &mut Store<U>, call: WasmCall, r: Result<(), Error>|
                (*s).opaque@.well_formed() && callable((*s).opaque@, call) && #[trigger] call_ensures(
                    old(caller).call_wasm,
                    (s, call),
                    r,
                ) ==> (*s).opaque@.leads_to((*final(s)).opaque@),
        ensures
            exists|run: Seq<Reentry<U>>| {
                &&& #[trigger] chained(*old(caller).store, run)
                &&& forall|i: int|
                    0 <= i < run.len() ==> exists|
                        s: &mut Store<U>,
                        call: WasmCall,
                        r: Result<(), Error>,
                    | {
                        &&& *s == (#[trigger] run[i]).before
                        &&& *final(s) == run[i].after
                        &&& call == run[i].call
                        &&& r == run[i].result
                        &&& #[trigger] call_ensures(old(caller).call_wasm, (s, call), r)
                    }
                &&& if run.len() > 0 && run.last().result is Err {
                    &&& result == run.last().result
                    &&& *final(caller).store == run.last().after
                    &&& final(args)@ == old(args)@
                } else {
                    replay_ends(
                        reached(*old(caller).store, run),
                        old(args)@,
                        *final(caller).store,
                        final(args)@,
                        result,
                    )
                }
            },
            old(caller).store.opaque@.leads_to(final(caller).store.opaque@),
            old(caller).store.opaque@ is Replaying && result is Ok ==> consumed_host_return(
                old(caller).store.opaque@,
                final(caller).store.opaque@,
            ),
            final(caller).call_wasm == old(caller).call_wasm,
            *final(final(caller).store) == *final(old(caller).store),
    {
        let ghost start = *caller.store;
        let ghost mut run: Seq<Reentry<U>> = Seq::empty();
        proof {
            lemma_leads_to_reflexive(start.opaque@);
        }
        loop
            invariant
                forall|s: &mut Store<U>, call: WasmCall|
                    (*s).opaque@.well_formed() && callable((*s).opaque@, call) ==> #[trigger] call_requires(
                        old(caller).call_wasm,
                        (s, call),
                    ),
                forall|s: &mut Store<U>, call: WasmCall, r: Result<(), Error>|
                    (*s).opaque@.well_formed() && callable((*s).opaque@, call) && #[trigger] call_ensures(
                        old(caller).call_wasm,
                        (s, call),
                        r,
                    ) ==> (*s).opaque@.leads_to((*final(s)).opaque@),
                start == *old(caller).store,
                start.opaque@ is Replaying,
                start.opaque@.well_formed(),
                start.opaque@.leads_to(caller.store.opaque@),
                caller.call_wasm == old(caller).call_wasm,
                *final(caller.store) == *final(old(caller).store),
                args@ == old(args)@,
                chained(start, run),
                run.len() > 0 ==> run.last().result is Ok,
                *caller.store == reached(start, run),
                forall|i: int|
                    0 <= i < run.len() ==> exists|
                        s: &mut Store<U>,
                        call: WasmCall,
                        r: Result<(), Error>,
                    | {
                        &&& *s == (#[trigger] run[i]).before
                        &&& *final(s) == run[i].after
                        &&& call == run[i].call
                        &&& r == run[i].result
                        &&& #[trigger] call_ensures(old(caller).call_wasm, (s, call), r)
                    },
            decreases caller.store.opaque@->Replaying_0.remaining.len(),
        {
            let ghost at = *caller.store;
            proof {
                lemma_leads_to_well_formed(start.opaque@, at.opaque@);
                lemma_next_leads_on(at.opaque@);
                lemma_leads_to_transitive(start.opaque@, at.opaque@, at.opaque@.next().0);
            }
            let event = match caller.store.opaque.next_event() {
                Ok(event) => event,
                Err(e) => return Err(Error::Replay(e)),
            };
            match event {
                RREvent::HostFuncReturn(event) => {
                    proof {
                        lemma_readable_prefix(
                            event.args@,
                            min_len(args@.len(), event.args@.sizes.len()) as int,
                        );
                        lemma_consumed_host_return(start.opaque@, at.opaque@);
                    }
                    event.args.into_raw_slice(args);
                    return Ok(());
                },
                RREvent::CoreWasmFuncEntry(event) => {
                    let ghost before = *caller.store;
                    let ghost traced = event;
                    let (result, Ghost(call)) = Self::replay_reentrant_wasm_call(event, caller);
                    proof {
                        if call_refused(
                            before.opaque@,
                            traced.instance,
                            traced.func_index,
                            traced.args@,
                        ) is None {
                            let next = Reentry { before, call, after: *caller.store, result };
                            let earlier = run;
                            lemma_chained_push(start, run, next);
                            lemma_leads_to_transitive(
                                start.opaque@,
                                before.opaque@,
                                next.after.opaque@,
                            );
                            run = run.push(next);
                            assert forall|i: int| 0 <= i < run.len() implies exists|
                                s: &mut Store<U>,
                                call: WasmCall,
                                r: Result<(), Error>,
                            | {
                                &&& *s == (#[trigger] run[i]).before
                                &&& *final(s) == run[i].after
                                &&& call == run[i].call
                                &&& r == run[i].result
                                &&& #[trigger] call_ensures(old(caller).call_wasm, (s, call), r)
                            } by {
                                if i < earlier.len() {
                                    assert(run[i] == earlier[i]);
                                }
                            }
                        }
                    }
                    if let Err(e) = result {
                        return Err(e);
                    }
                },
                other => {
                    return Err(Error::UnexpectedEvent(other));
                },
            }
        }
    }

    /// Makes the call that stands in a trace, and says in ghost code which call
    /// was made.
    pub(crate) fn replay_reentrant_wasm_call<U, F>(
        event: WasmFuncEntryEvent,
        caller: &mut Caller<'_, U, F>,
    ) -> (made: (Result<(), Error>, Ghost<WasmCall>)) where
        F: Fn(&mut Store<U>, WasmCall) -> Result<(), Error>,

        requires
            old(caller).store.opaque@ is Replaying,
            old(caller).store.opaque@.well_formed(),
            event.args@.well_formed(),
            forall|s: &mut Store<U>, call: WasmCall|
                *s == *old(caller).store && (*s).opaque@.well_formed() && callable((*s).opaque@, call)
                    ==> #[trigger] call_requires(old(caller).call_wasm, (s, call)),
        ensures
            match call_refused(
                old(caller).store.opaque@,
                event.instance,
                event.func_index,
                event.args@,
            ) {
                Some(error) => {
                    &&& outcome(made.0) == Err::<(), ErrorView>(error)
                    &&& *final(caller).store == *old(caller).store
                },
                None => exists|s: &mut Store<U>, call: WasmCall, r: Result<(), Error>| {
                    &&& *s == *old(caller).store
                    &&& *final(s) == *final(caller).store
                    &&& call == made.1@
                    &&& r == made.0
                    &&& is_traced_call(
                        old(caller).store.opaque@,
                        event.instance,
                        event.func_index,
                        event.args@,
                        made.1@,
                    )
                    &&& #[trigger] call_ensures(old(caller).call_wasm, (s, call), r)
                },
            },
            final(caller).call_wasm == old(caller).call_wasm,
            *final(final(caller).store) == *final(old(caller).store),
    {
        proof {
            if let Ok(ty) = caller.store.opaque@.func(event.instance, event.func_index) {
                lemma_readable_prefix(
                    event.args@,
                    min_len(ty.params.len(), event.args@.sizes.len()) as int,
                );
            }
        }
        let call = match prepare_call(&event, &caller.store.opaque) {
            Ok(call) => call,
            Err(e) => return (Err(e), Ghost(arbitrary())),
        };
        let ghost made = call;
        let result = (caller.call_wasm)(&mut *caller.store, call);
        (result, Ghost(made))
    }
}

/// Record hook for the call of a host function.
///
/// `flat` gives how many bytes of each argument are significant.
pub fn record_validate_host_func_entry<T, I>(args: &[T], flat: I, store: &mut StoreOpaque) -> (result:
    Result<(), Error>) where T: FlatBytes, I: Iterator<Item = u8>
    requires
        old(store)@.adds_validation() ==> flat.obeys_prophetic_iter_laws() && slots_fit(
            flat.remaining(),
            args@.len() as int,
        ),
    ensures
        (final(store)@, outcome(result)) == host_entry(
            old(store)@,
            flattened(args@, flat.remaining()),
        ),
{
    if let Some(protocol) = CoreHostBoundaryProtocol::maybe_for_store(store) {
        return protocol.on_host_entry(args, flat, store);
    }
    Ok(())
}

/// Record hook for the return of a host function.
pub fn record_host_func_return<T, I>(args: &[T], flat: I, store: &mut StoreOpaque) -> (result:
    Result<(), Error>) where T: FlatBytes, I: Iterator<Item = u8>
    requires
        old(store)@ is Recording ==> flat.obeys_prophetic_iter_laws() && slots_fit(
            flat.remaining(),
            args@.len() as int,
        ),
    ensures
        (final(store)@, outcome(result)) == host_return(
            old(store)@,
            flattened(args@, flat.remaining()),
        ),
{
    if let Some(protocol) = CoreHostBoundaryProtocol::maybe_for_store(store) {
        return protocol.on_host_return_record(args, flat, store);
    }
    Ok(())
}

/// Replay hook for the call of a host function.
pub fn replay_validate_host_func_entry<T, I>(args: &[T], flat: I, store: &mut StoreOpaque) -> (result:
    Result<(), Error>) where T: FlatBytes, I: Iterator<Item = u8>
    requires
        old(store)@.adds_validation() ==> flat.obeys_prophetic_iter_laws() && slots_fit(
            flat.remaining(),
            args@.len() as int,
        ),
    ensures
        (final(store)@, outcome(result)) == host_entry(
            old(store)@,
            flattened(args@, flat.remaining()),
        ),
{
    if let Some(protocol) = CoreHostBoundaryProtocol::maybe_for_store(store) {
        return protocol.on_host_entry(args, flat, store);
    }
    Ok(())
}

/// Replay hook for the return of a host function: puts the results that the
/// trace holds in the place of `args`, and makes on the way the calls that the
/// host function made.
///
/// While it replays, `call_wasm` must take every call that names a function of
/// the store's instances, and may only lead the store on.
pub fn replay_host_func_return<T, U, F>(args: &mut [T], caller: &mut Caller<'_, U, F>) -> (result:
    Result<(), Error>) where
    T: FlatBytes,
    F: Fn(&mut Store<U>, WasmCall) -> Result<(), Error>,

    requires
        old(caller).store.opaque@.well_formed(),
        old(caller).store.opaque@ is Replaying ==> forall|s: &mut Store<U>, call: WasmCall|
            (*s).opaque@.well_formed() && callable((*s).opaque@, call) ==> #[trigger] call_requires(
                old(caller).call_wasm,
                (s, call),
            ),
        old(caller).store.opaque@ is Replaying ==> forall|
            s: &mut Store<U>,
            call: WasmCall,
            r: Result<(), Error>,
        |
            (*s).opaque@.well_formed() && callable((*s).opaque@, call) && #[trigger] call_ensures(
                old(caller).call_wasm,
                (s, call),
                r,
            ) ==> (*s).opaque@.leads_to((*final(s)).opaque@),
    ensures
        old(caller).store.opaque@ is Replaying ==> exists|run: Seq<Reentry<U>>| {
            &&& #[trigger] chained(*old(caller).store, run)
            &&& forall|i: int|
                0 <= i < run.len() ==> exists|
                    s: &mut Store<U>,
                    call: WasmCall,
                    r: Result<(), Error>,
                | {
                    &&& *s == (#[trigger] run[i]).before
                    &&& *final(s) == run[i].after
                    &&& call == run[i].call
                    &&& r == run[i].result
                    &&& #[trigger] call_ensures(old(caller).call_wasm, (s, call), r)
                }
            &&& if run.len() > 0 && run.last().result is Err {
                &&& result == run.last().result
                &&& *final(caller).store == run.last().after
                &&& final(args)@ == old(args)@
            } else {
                replay_ends(
                    reached(*old(caller).store, run),
                    old(args)@,
                    *final(caller).store,
                    final(args)@,
                    result,
                )
            }
        },
        !(old(caller).store.opaque@ is Replaying) ==> {
            &&& result is Ok
            &&& *final(caller).store == *old(caller).store
            &&& final(args)@ == old(args)@
        },
        old(caller).store.opaque@.leads_to(final(caller).store.opaque@),
        old(caller).store.opaque@ is Replaying && result is Ok ==> consumed_host_return(
            old(caller).store.opaque@,
            final(caller).store.opaque@,
        ),
        final(caller).call_wasm == old(caller).call_wasm,
        *final(final(caller).store) == *final(old(caller).store),
{
    if let Some(protocol) = CoreHostBoundaryProtocol::maybe_for_store(&caller.store.opaque) {
        return protocol.on_host_return_replay_substitute(args, caller);
    }
    proof {
        lemma_leads_to_reflexive(caller.store.opaque@);
    }
    Ok(())
}

/// The function of a module instance that a call goes to.
#[derive(Clone, Copy, Debug, PartialEq, Eq, Structural)]
pub struct WasmFuncOrigin {
    pub instance: InstanceId,
    pub index: FuncIndex,
}

/// What the call of a WebAssembly function does to a store before the call.
pub open spec fn wasm_entry(
    state: StateView,
    origin: Option<WasmFuncOrigin>,
    args: Seq<ValRaw>,
    ty: FuncTypeView,
) -> (StateView, Result<(), ErrorView>) {
    match origin {
        Some(origin) => state.recorded(
            EventView::CoreWasmFuncEntry {
                instance: RRModuleInstanceId(origin.instance.0),
                func_index: origin.index,
                args: flattened(args, byte_sizes(ty.params)),
            },
        ),
        None => (state, Ok(())),
    }
}

/// The event for a call that ended in `called` and left `results` behind.
pub open spec fn wasm_return_event(
    called: Result<(), ErrorView>,
    results: Seq<ValRaw>,
    ty: FuncTypeView,
) -> EventView {
    EventView::WasmFuncReturn {
        ret: match called {
            Ok(_) => Ok(flattened(results, byte_sizes(ty.results))),
            Err(error) => Err(error.text()),
        },
    }
}

/// What the call of a WebAssembly function that ended in `called` does to a
/// store after the call, and what the caller is told.
pub open spec fn wasm_return(
    state: StateView,
    origin: Option<WasmFuncOrigin>,
    called: Result<(), ErrorView>,
    results: Seq<ValRaw>,
    ty: FuncTypeView,
) -> (StateView, Result<(), ErrorView>) {
    if origin is None {
        (state, called)
    } else {
        let event = wasm_return_event(called, results, ty);
        let (recorded, first) = state.recorded_validation(event);
        let (validated, second) = recorded.validated(event);
        if first is Err {
            (recorded, first)
        } else if second is Err {
            (validated, second)
        } else {
            (validated, called)
        }
    }
}

/// Records the call of a WebAssembly function that is about to be made.
pub fn record_wasm_func_entry(
    args: &[ValRaw],
    ty: &FuncType,
    origin: Option<WasmFuncOrigin>,
    store: &mut StoreOpaque,
) -> (result: Result<(), Error>)
    ensures
        (final(store)@, outcome(result)) == wasm_entry(old(store)@, origin, args@, ty@),
{
    if store.active_boundary_mode() != Some(ActiveBoundaryMode::Recording) {
        return Ok(());
    }
    match origin {
        Some(origin) => {
            let flat = collect_byte_sizes(&ty.params);
            let event = WasmFuncEntryEvent {
                instance: origin.instance.to_trace_id(),
                func_index: origin.index,
                args: RRFuncArgVals::from_flat_iter(args, flat.into_iter()),
            };
            store.record_event(RREvent::CoreWasmFuncEntry(event))
        },
        None => Ok(()),
    }
}

/// Records how the call of a WebAssembly function ended, or holds it against
/// the trace, and tells the caller.
pub fn record_and_replay_validate_wasm_return(
    called: Result<(), Error>,
    args: &[ValRaw],
    ty: &FuncType,
    origin: Option<WasmFuncOrigin>,
    store: &mut StoreOpaque,
) -> (result: Result<(), Error>)
    ensures
        (final(store)@, outcome(result)) == wasm_return(
            old(store)@,
            origin,
            outcome(called),
            args@,
            ty@,
        ),
{
    if origin.is_none() || !store.adds_validation() {
        return called;
    }
    let flat = collect_byte_sizes(&ty.results);
    let result = match called {
        Ok(()) => Ok(RRFuncArgVals::from_flat_iter(args, flat.into_iter())),
        Err(e) => Err(e),
    };
    let event = WasmFuncReturnEvent(ResultEvent::from_anyhow_result(&result));
    if let Err(e) = store.record_event_validation(RREvent::WasmFuncReturn(event)) {
        return Err(e);
    }
    if let Err(e) = store.next_wasm_func_return_validation(&result) {
        return Err(e);
    }
    match result {
        Ok(_) => Ok(()),
        Err(e) => Err(e),
    }
}

/// Record and replay hook around the call of a WebAssembly function.
///
/// `wasm_call` finds its arguments in `args`, and leaves its results there.
/// Nothing is recorded or validated if `origin` is `None`.
pub fn record_and_replay_validate_wasm_func<F, T>(
    wasm_call: F,
    args: &mut [ValRaw],
    ty: &FuncType,
    origin: Option<WasmFuncOrigin>,
    store: &mut Store<T>,
) -> (result: Result<(), Error>) where
    F: FnOnce(&mut Store<T>, &mut [ValRaw]) -> Result<(), Error>,

    requires
        wasm_entry(old(store).opaque@, origin, old(args)@, ty@).1 is Ok ==> forall|
            s: &mut Store<T>,
            a: &mut [ValRaw],
        |
            (*s).opaque@ == wasm_entry(old(store).opaque@, origin, old(args)@, ty@).0 && (*s).data
                == old(store).data && (*a)@ == old(args)@ ==> #[trigger] call_requires(
                wasm_call,
                (s, a),
            ),
    ensures
        match wasm_entry(old(store).opaque@, origin, old(args)@, ty@) {
            (state, Err(error)) => {
                &&& outcome(result) == Err::<(), ErrorView>(error)
                &&& final(store).opaque@ == state
                &&& final(store).data == old(store).data
                &&& final(args)@ == old(args)@
            },
            (state, Ok(_)) => exists|s: &mut Store<T>, a: &mut [ValRaw], called: Result<(), Error>|
                {
                    &&& (*s).opaque@ == state
                    &&& (*s).data == old(store).data
                    &&& (*a)@ == old(args)@
                    &&& #[trigger] call_ensures(wasm_call, (s, a), called)
                    &&& (final(store).opaque@, outcome(result)) == wasm_return(
                        (*final(s)).opaque@,
                        origin,
                        outcome(called),
                        (*final(a))@,
                        ty@,
                    )
                    &&& final(store).data == (*final(s)).data
                    &&& final(args)@ == (*final(a))@
                },
        },
{
    if let Err(e) = record_wasm_func_entry(args, ty, origin, &mut store.opaque) {
        return Err(e);
    }
    let called = wasm_call(store, args);
    record_and_replay_validate_wasm_return(called, args, ty, origin, &mut store.opaque)
}

/// A call of a WebAssembly function that a replay asks for.
#[derive(Debug)]
pub struct WasmCall {
    pub instance: RRModuleInstanceId,
    pub func_index: FuncIndex,
    pub params: Vec<Val>,
    /// Room for the results.
    pub results: Vec<Val>,
}

/// A host function's handle on the store that it was called from.
pub struct Caller<'a, U, F> {
    pub store: &'a mut Store<U>,
    /// Runs a WebAssembly function of one of the store's instances.
    pub call_wasm: F,
}

/// The value zero of type `I64`.
pub open spec fn is_i64_zero(val: Val) -> bool {
    val.ty == ValType::I64 && val.raw.flat() == zero_padded(Seq::empty())
}

/// `call` names a function of the instances of a store that replays a trace, and
/// has as many arguments of the right types as the function takes, and room for
/// its results.
pub open spec fn callable(state: StateView, call: WasmCall) -> bool {
    &&& state is Replaying
    &&& state.func(call.instance, call.func_index) matches Ok(ty)
    &&& call.params@.map_values(|val: Val| val.ty) == ty.params
    &&& call.results@.len() == ty.results.len()
    &&& forall|i: int| 0 <= i < call.results@.len() ==> is_i64_zero(#[trigger] call.results@[i])
}

/// Why a trace's call of a WebAssembly function cannot be made, if it cannot.
pub open spec fn call_refused(
    state: StateView,
    instance: RRModuleInstanceId,
    func_index: FuncIndex,
    args: ArgValsView,
) -> Option<ErrorView> {
    match state.func(instance, func_index) {
        Err(e) => Some(ErrorView::Replay(e)),
        Ok(ty) => if args.sizes.len() < ty.params.len() {
            Some(
                ErrorView::ArgumentCount { expected: ty.params.len(), given: args.sizes.len() },
            )
        } else {
            None
        },
    }
}

/// `call` is the call of a WebAssembly function that stands in a trace.
pub open spec fn is_traced_call(
    state: StateView,
    instance: RRModuleInstanceId,
    func_index: FuncIndex,
    args: ArgValsView,
    call: WasmCall,
) -> bool {
    &&& call_refused(state, instance, func_index, args) is None
    &&& call.instance == instance
    &&& call.func_index == func_index
    &&& callable(state, call)
    &&& forall|i: int|
        0 <= i < call.params@.len() ==> (#[trigger] call.params@[i]).raw.flat() == zero_padded(
            args.chunk(i),
        )
}

/// Makes the call that stands in a trace ready, or says why it cannot be made.
pub fn prepare_call(event: &WasmFuncEntryEvent, store: &StoreOpaque) -> (result: Result<
    WasmCall,
    Error,
>)
    requires
        store@ is Replaying,
        store@.func(event.instance, event.func_index) matches Ok(ty) ==> event.args@.readable(
            min_len(ty.params.len(), event.args@.sizes.len()) as int,
        ),
    ensures
        match call_refused(store@, event.instance, event.func_index, event.args@) {
            Some(error) => result matches Err(e) && e@ == error,
            None => result matches Ok(call) && is_traced_call(
                store@,
                event.instance,
                event.func_index,
                event.args@,
                call,
            ),
        },
{
    let ty = match store.module_func(event.instance, event.func_index) {
        Ok(ty) => ty,
        Err(e) => return Err(Error::Replay(e)),
    };
    let zero = Val { ty: ValType::I64, raw: ValRaw::from_bytes(&[]) };
    assert(zero.raw.flat() =~= zero_padded(Seq::empty()));
    let mut results: Vec<Val> = Vec::new();
    while results.len() < ty.results.len()
        invariant
            is_i64_zero(zero),
            results@.len() <= ty.results@.len(),
            forall|i: int| 0 <= i < results@.len() ==> is_i64_zero(#[trigger] results@[i]),
        decreases ty.results@.len() - results@.len(),
    {
        results.push(zero);
    }
    let params = event.args.to_val_vec(&ty.params);
    if params.len() != ty.params.len() {
        return Err(Error::ArgumentCount { expected: ty.params.len(), given: params.len() });
    }
    let call = WasmCall {
        instance: event.instance,
        func_index: event.func_index,
        params,
        results,
    };
    assert(call.params@.map_values(|val: Val| val.ty) =~= ty.params@);
    Ok(call)
}

/// A call of a WebAssembly function that a host function made before it
/// returned, and that its replay makes again.
pub struct Reentry<U> {
    pub before: Store<U>,
    pub call: WasmCall,
    pub after: Store<U>,
    pub result: Result<(), Error>,
}

/// The next event in the trace of store `at` asks for the call of `reentry`.
pub open spec fn reenters<U>(at: Store<U>, reentry: Reentry<U>) -> bool {
    &&& reentry.before.opaque@ == at.opaque@.next().0
    &&& reentry.before.data == at.data
    &&& at.opaque@.next().1 matches Ok(EventView::CoreWasmFuncEntry { instance, func_index, args })
    &&& is_traced_call(reentry.before.opaque@, instance, func_index, args, reentry.call)
}

/// From store `start` on, the trace asks for the calls of `run` one after the
/// other, and all but the last of them succeed.
pub open spec fn chained<U>(start: Store<U>, run: Seq<Reentry<U>>) -> bool
    decreases run.len(),
{
    run.len() == 0 || {
        &&& reenters(start, run[0])
        &&& run.len() > 1 ==> run[0].result is Ok
        &&& chained(run[0].after, run.drop_first())
    }
}

/// The store that the calls of `run` lead to.
pub open spec fn reached<U>(start: Store<U>, run: Seq<Reentry<U>>) -> Store<U> {
    if run.len() == 0 {
        start
    } else {
        run.last().after
    }
}

/// With the next event in the trace of store `at`, and no further call, the
/// replay of a host function's return comes to an end.
pub open spec fn replay_ends<U, T: FlatBytes>(
    at: Store<U>,
    args: Seq<T>,
    later: Store<U>,
    results: Seq<T>,
    result: Result<(), Error>,
) -> bool {
    &&& later.opaque@ == at.opaque@.next().0
    &&& later.data == at.data
    &&& match at.opaque@.next().1 {
        Ok(EventView::HostFuncReturn { args: vals }) => {
            &&& result is Ok
            &&& overwritten(vals, args, results)
        },
        Ok(EventView::CoreWasmFuncEntry { instance, func_index, args: vals }) => {
            &&& call_refused(later.opaque@, instance, func_index, vals) matches Some(error)
            &&& outcome(result) == Err::<(), ErrorView>(error)
            &&& results == args
        },
        Ok(event) => {
            &&& outcome(result) == Err::<(), ErrorView>(ErrorView::UnexpectedEvent(event))
            &&& results == args
        },
        Err(e) => {
            &&& outcome(result) == Err::<(), ErrorView>(ErrorView::Replay(e))
            &&& results == args
        },
    }
}

/// Between the two states the replay went on, and the last event that it took
/// from the trace is the return of a host function.
pub open spec fn consumed_host_return(before: StateView, after: StateView) -> bool {
    &&& before matches StateView::Replaying(a)
    &&& after matches StateView::Replaying(b)
    &&& b.remaining.len() < a.remaining.len()
    &&& b.remaining.is_suffix_of(a.remaining)
    &&& a.remaining[a.remaining.len() - b.remaining.len() - 1] is HostFuncReturn
}

proof fn lemma_consumed_host_return(start: StateView, at: StateView)
    requires
        start.leads_to(at),
        at.next().1 matches Ok(event) && event is HostFuncReturn,
    ensures
        consumed_host_return(start, at.next().0),
{
    lemma_next_leads_on(at);
    lemma_leads_to_transitive(start, at, at.next().0);
    let a = start->Replaying_0.remaining;
    let b = at->Replaying_0.remaining;
    assert(b[0] == a.subrange(a.len() - b.len(), a.len() as int)[0]);
}

proof fn lemma_chained_push<U>(start: Store<U>, run: Seq<Reentry<U>>, next: Reentry<U>)
    requires
        chained(start, run),
        run.len() > 0 ==> run.last().result is Ok,
        reenters(reached(start, run), next),
    ensures
        chained(start, run.push(next)),
        reached(start, run.push(next)) == next.after,
    decreases run.len(),
{
    if run.len() == 0 {
        assert(chained(next.after, run.push(next).drop_first()));
    } else {
        let rest = run.drop_first();
        assert(reached(run[0].after, rest) == reached(start, run));
        lemma_chained_push(run[0].after, rest, next);
        assert(run.push(next).drop_first() =~= rest.push(next));
    }
}

/// What the instantiation of a module does to a store.
pub open spec fn instantiation(state: StateView, module: Seq<u8>, instance: u32) -> (
    StateView,
    Result<(), ErrorView>,
) {
    let event = EventView::CoreWasmInstantiation { module, instance: RRModuleInstanceId(instance) };
    match state {
        StateView::Replaying(rep) => (
            state.instantiation_taken(),
            if rep.current_instantiation == Some(event) {
                Ok(())
            } else {
                Err(ErrorView::Replay(ReplayError::FailedValidation))
            },
        ),
        _ => state.recorded(event),
    }
}

/// Records the instantiation of a module, or holds it against the one that the
/// replay was told of.
pub fn record_and_replay_validate_instantiation<T>(
    store: &mut Store<T>,
    module: WasmChecksum,
    instance: InstanceId,
) -> (result: Result<(), Error>)
    requires
        old(store).opaque@ matches StateView::Replaying(rep) ==> rep.current_instantiation is Some,
    ensures
        (final(store).opaque@, outcome(result)) == instantiation(
            old(store).opaque@,
            module.0@,
            instance.0,
        ),
        final(store).data == old(store).data,
{
    let event = InstantiationEvent { module, instance: instance.to_trace_id() };
    if let Err(e) = store.opaque.record_event(RREvent::CoreWasmInstantiation(event)) {
        return Err(e);
    }
    if store.opaque.replay_enabled() {
        if let Some(current) = store.opaque.take_current_module_instantiation() {
            if let Err(e) = current.validate(&event) {
                return Err(Error::Replay(e));
            }
        }
    }
    Ok(())
}

/// Ensures that a module that is to be recorded exports no memory.
pub fn rr_validate_module_unexported_memory(module: &Module) -> (result: Result<(), Error>)
    ensures
        outcome(result) == if module.engine.rr == RRConfig::Recording
            && module.spec_exports_memory() {
            Err::<(), ErrorView>(ErrorView::ExportedMemory)
        } else {
            Ok(())
        },
        module.engine.rr == RRConfig::Recording ==> forall|i: int|
            0 <= i < module.exports@.len() && (#[trigger] module.exports@[i]).ty is Memory
                ==> result == Err::<(), Error>(Error::ExportedMemory),
        (forall|i: int|
            0 <= i < module.exports@.len() ==> !((#[trigger] module.exports@[i]).ty is Memory))
            ==> result is Ok,
        module.engine.rr != RRConfig::Recording ==> result is Ok,
{
    if module.engine.is_recording() && module.exports_memory() {
        return Err(Error::ExportedMemory);
    }
    Ok(())
}

} // verus!
