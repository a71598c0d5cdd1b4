//! What holds of the hooks taken together.
use crate::args::{flat_bytes, flattened, min_len, offset, slots_fit, ArgValsView};
use crate::core_hooks::{
    call_refused, chained, host_entry, host_return, instantiation, is_traced_call, reached,
    replay_ends, wasm_entry, wasm_return, wasm_return_event, Reentry, WasmCall, WasmFuncOrigin,
};
use crate::error::{outcome, Error, ErrorView, ReplayError};
use crate::events::{EventView, FuncIndex, RRModuleInstanceId};
use crate::store::{
    lemma_leads_to_reflexive, lemma_leads_to_transitive, lemma_next_leads_on, RecordView,
    ReplayView, StateView, Store,
};
use crate::values::{byte_sizes, zero_padded, FlatBytes, FuncTypeView, Val, ValRaw, SLOT_WIDTH};
use vstd::prelude::*;

verus! {

/// A store that neither records nor replays is left alone by every hook, and a
/// call's outcome is passed on as it is.
pub proof fn law_disabled_is_inert(
    vals: ArgValsView,
    origin: Option<WasmFuncOrigin>,
    args: Seq<ValRaw>,
    ty: FuncTypeView,
    called: Result<(), ErrorView>,
    module: Seq<u8>,
    instance: u32,
)
    ensures
        host_entry(StateView::Disabled, vals) == (StateView::Disabled, Ok::<(), ErrorView>(())),
        host_return(StateView::Disabled, vals) == (StateView::Disabled, Ok::<(), ErrorView>(())),
        wasm_entry(StateView::Disabled, origin, args, ty) == (
            StateView::Disabled,
            Ok::<(), ErrorView>(()),
        ),
        wasm_return(StateView::Disabled, origin, called, args, ty) == (StateView::Disabled, called),
        instantiation(StateView::Disabled, module, instance) == (
            StateView::Disabled,
            Ok::<(), ErrorView>(()),
        ),
{
}

/// A call without an origin is neither recorded nor validated.
pub proof fn law_no_origin_is_inert(
    state: StateView,
    args: Seq<ValRaw>,
    ty: FuncTypeView,
    called: Result<(), ErrorView>,
)
    ensures
        wasm_entry(state, None, args, ty) == (state, Ok::<(), ErrorView>(())),
        wasm_return(state, None, called, args, ty) == (state, called),
{
}

/// Without validation, calls of host functions and returns of WebAssembly
/// functions leave no mark, and are not held against anything.
pub proof fn law_without_validation(
    state: StateView,
    vals: ArgValsView,
    origin: Option<WasmFuncOrigin>,
    args: Seq<ValRaw>,
    ty: FuncTypeView,
    called: Result<(), ErrorView>,
)
    requires
        !state.adds_validation(),
    ensures
        host_entry(state, vals) == (state, Ok::<(), ErrorView>(())),
        wasm_return(state, origin, called, args, ty) == (state, called),
{
}

/// A store that replays records nothing: the hooks that only record leave it
/// alone.
pub proof fn law_replay_records_nothing(
    rep: ReplayView,
    vals: ArgValsView,
    origin: Option<WasmFuncOrigin>,
    args: Seq<ValRaw>,
    ty: FuncTypeView,
)
    ensures
        host_return(StateView::Replaying(rep), vals) == (
            StateView::Replaying(rep),
            Ok::<(), ErrorView>(()),
        ),
        wasm_entry(StateView::Replaying(rep), origin, args, ty) == (
            StateView::Replaying(rep),
            Ok::<(), ErrorView>(()),
        ),
{
}

/// Whether every event of a recording can be read by a replay.
pub open spec fn readable_recording(state: StateView) -> bool {
    state matches StateView::Recording(rec) && forall|i: int|
        0 <= i < rec.events.len() ==> (#[trigger] rec.events[i]).well_formed()
}

proof fn lemma_recorded_stays_readable(state: StateView, event: EventView)
    requires
        readable_recording(state),
        event.well_formed(),
    ensures
        readable_recording(state.recorded(event).0),
        readable_recording(state.recorded_validation(event).0),
{
}

/// A recording of which every event can be read stays so with every hook, as
/// long as the sizes that a host function's results are recorded with fit a
/// slot.
pub proof fn law_recording_stays_readable<T: FlatBytes>(
    state: StateView,
    vals: ArgValsView,
    results: Seq<T>,
    sizes: Seq<u8>,
    origin: Option<WasmFuncOrigin>,
    args: Seq<ValRaw>,
    ty: FuncTypeView,
    called: Result<(), ErrorView>,
    module: Seq<u8>,
    instance: u32,
)
    requires
        readable_recording(state),
        slots_fit(sizes, results.len() as int),
    ensures
        readable_recording(host_entry(state, vals).0),
        readable_recording(host_return(state, flattened(results, sizes)).0),
        readable_recording(wasm_entry(state, origin, args, ty).0),
        readable_recording(wasm_return(state, origin, called, args, ty).0),
        readable_recording(instantiation(state, module, instance).0),
{
    lemma_recorded_stays_readable(state, EventView::HostFuncEntry { args: vals });
    law_flattened_can_be_read(results, sizes);
    lemma_recorded_stays_readable(
        state,
        EventView::HostFuncReturn { args: flattened(results, sizes) },
    );
    if let Some(origin) = origin {
        let params = flattened(args, byte_sizes(ty.params));
        law_flattened_can_be_read(args, byte_sizes(ty.params));
        lemma_recorded_stays_readable(
            state,
            EventView::CoreWasmFuncEntry {
                instance: RRModuleInstanceId(origin.instance.0),
                func_index: origin.index,
                args: params,
            },
        );
    }
    lemma_recorded_stays_readable(state, wasm_return_event(called, args, ty));
    lemma_recorded_stays_readable(
        state,
        EventView::CoreWasmInstantiation { module, instance: RRModuleInstanceId(instance) },
    );
}

/// A recording starts out readable, and the replay of a readable recording can
/// read all that it has to.
pub proof fn law_readable_recording_can_be_replayed(rec: RecordView, rep: ReplayView)
    requires
        rep.remaining == rec.events,
    ensures
        rec.events.len() == 0 ==> readable_recording(StateView::Recording(rec)),
        readable_recording(StateView::Recording(rec)) ==> StateView::Replaying(rep).well_formed(),
{
}

/// Once the writer behind a recording has failed, every hook that has something
/// to record reports the failure, and nothing is recorded.
pub proof fn law_failed_writer_is_reported(
    rec: RecordView,
    reason: Seq<char>,
    vals: ArgValsView,
    origin: WasmFuncOrigin,
    args: Seq<ValRaw>,
    ty: FuncTypeView,
    called: Result<(), ErrorView>,
    module: Seq<u8>,
    instance: u32,
)
    requires
        rec.failure == Some(reason),
    ensures
        ({
            let state = StateView::Recording(rec);
            let failed = (state, Err::<(), ErrorView>(ErrorView::RecordFailed(reason)));
            &&& host_return(state, vals) == failed
            &&& wasm_entry(state, Some(origin), args, ty) == failed
            &&& instantiation(state, module, instance) == failed
            &&& rec.add_validation ==> host_entry(state, vals) == failed
            &&& rec.add_validation ==> wasm_return(state, Some(origin), called, args, ty) == failed
        }),
{
}

/// Recording or validating an event leads a store on.
pub proof fn law_events_lead_on(state: StateView, event: EventView)
    ensures
        state.leads_to(state.recorded(event).0),
        state.leads_to(state.recorded_validation(event).0),
        state.leads_to(state.validated(event).0),
{
    lemma_leads_to_reflexive(state);
    lemma_next_leads_on(state);
    if let StateView::Recording(rec) = state {
        let events = rec.events.push(event);
        assert(rec.events =~= events.subrange(0, rec.events.len() as int));
    }
}

/// Every hook leads a store on: what was recorded stays, and what was replayed
/// does not come back.
pub proof fn law_hooks_lead_on(
    state: StateView,
    vals: ArgValsView,
    origin: Option<WasmFuncOrigin>,
    args: Seq<ValRaw>,
    ty: FuncTypeView,
    called: Result<(), ErrorView>,
    module: Seq<u8>,
    instance: u32,
)
    ensures
        state.leads_to(host_entry(state, vals).0),
        state.leads_to(host_return(state, vals).0),
        state.leads_to(wasm_entry(state, origin, args, ty).0),
        state.leads_to(wasm_return(state, origin, called, args, ty).0),
        state.leads_to(instantiation(state, module, instance).0),
{
    lemma_leads_to_reflexive(state);
    law_events_lead_on(state, EventView::HostFuncEntry { args: vals });
    law_events_lead_on(state, EventView::HostFuncReturn { args: vals });
    if let Some(origin) = origin {
        law_events_lead_on(
            state,
            EventView::CoreWasmFuncEntry {
                instance: RRModuleInstanceId(origin.instance.0),
                func_index: origin.index,
                args: flattened(args, byte_sizes(ty.params)),
            },
        );
    }
    let event = wasm_return_event(called, args, ty);
    let recorded = state.recorded_validation(event).0;
    law_events_lead_on(state, event);
    law_events_lead_on(recorded, event);
    lemma_leads_to_transitive(state, recorded, recorded.validated(event).0);
    law_events_lead_on(
        state,
        EventView::CoreWasmInstantiation { module, instance: RRModuleInstanceId(instance) },
    );
}

proof fn lemma_offset_prefix(sizes: Seq<u8>, n: int, i: int)
    requires
        0 <= i <= n <= sizes.len(),
    ensures
        offset(sizes.take(n), i) == offset(sizes, i),
    decreases i,
{
    if i > 0 {
        lemma_offset_prefix(sizes, n, i - 1);
    }
}

spec fn stands_in_place<T: FlatBytes>(args: Seq<T>, sizes: Seq<u8>, i: int) -> bool {
    let bytes = flat_bytes(args, sizes);
    let from = offset(sizes, i);
    &&& 0 <= from
    &&& from + sizes[i] <= bytes.len()
    &&& bytes.subrange(from, from + sizes[i]) == args[i].flat().take(sizes[i] as int)
}

proof fn lemma_flat_bytes<T: FlatBytes>(args: Seq<T>, sizes: Seq<u8>)
    requires
        sizes.len() <= args.len(),
        slots_fit(sizes, sizes.len() as int),
    ensures
        flat_bytes(args, sizes).len() == offset(sizes, sizes.len() as int),
        forall|i: int|
            0 <= i < sizes.len() ==> #[trigger] stands_in_place(args, sizes, i),
    decreases sizes.len(),
{
    if sizes.len() > 0 {
        let last = sizes.len() - 1;
        let front = sizes.drop_last();
        assert(front =~= sizes.take(last));
        assert(slots_fit(front, front.len() as int)) by {
            assert forall|i: int| 0 <= i < front.len() implies #[trigger] front[i]
                <= SLOT_WIDTH by {
                assert(sizes[i] <= SLOT_WIDTH);
            }
        }
        lemma_flat_bytes(args, front);
        lemma_offset_prefix(sizes, last, last);
        args[last].flat_width();
        assert(sizes[last] <= SLOT_WIDTH);
        assert forall|i: int| 0 <= i < sizes.len() implies #[trigger] stands_in_place(
            args,
            sizes,
            i,
        ) by {
            let all = flat_bytes(args, sizes);
            if i < last {
                lemma_offset_prefix(sizes, last, i);
                let from = offset(sizes, i);
                assert(front[i] == sizes[i]);
                assert(stands_in_place(args, front, i));
                assert(all.subrange(from, from + sizes[i]) =~= flat_bytes(args, front).subrange(
                    from,
                    from + sizes[i],
                ));
            } else {
                let from = offset(sizes, last);
                assert(all.subrange(from, from + sizes[last]) =~= args[last].flat().take(
                    sizes[last] as int,
                ));
            }
        }
    }
}

/// The trace form is as long as the sizes of its values add up to.
pub proof fn law_flattened_length<T: FlatBytes>(args: Seq<T>, sizes: Seq<u8>)
    requires
        slots_fit(sizes, args.len() as int),
    ensures
        flattened(args, sizes).bytes.len() == offset(
            flattened(args, sizes).sizes,
            flattened(args, sizes).sizes.len() as int,
        ),
{
    let n = min_len(args.len(), sizes.len()) as int;
    let taken = sizes.take(n);
    assert forall|i: int| 0 <= i < taken.len() implies #[trigger] taken[i] <= SLOT_WIDTH by {
        assert(sizes[i] <= SLOT_WIDTH);
    }
    lemma_flat_bytes(args, taken);
}

/// Values can be read back from their trace form: value number `i` comes with
/// as many of its lowest bytes as were asked for.
pub proof fn law_flattened_can_be_read<T: FlatBytes>(args: Seq<T>, sizes: Seq<u8>)
    requires
        slots_fit(sizes, args.len() as int),
    ensures
        flattened(args, sizes).well_formed(),
        flattened(args, sizes).sizes.len() == min_len(args.len(), sizes.len()),
        forall|i: int|
            0 <= i < min_len(args.len(), sizes.len()) ==> #[trigger] flattened(args, sizes).chunk(i)
                == args[i].flat().take(sizes[i] as int),
{
    let n = min_len(args.len(), sizes.len()) as int;
    let taken = sizes.take(n);
    assert forall|i: int| 0 <= i < taken.len() implies #[trigger] taken[i] <= SLOT_WIDTH by {
        assert(sizes[i] <= SLOT_WIDTH);
    }
    lemma_flat_bytes(args, taken);
    assert forall|i: int| 0 <= i < n implies #[trigger] flattened(args, sizes).chunk(i)
        == args[i].flat().take(sizes[i] as int) by {
        assert(stands_in_place(args, taken, i));
    }
}

/// Only the lowest `size` bytes of the value are not zero.
pub open spec fn fits_size<T: FlatBytes>(value: T, size: u8) -> bool {
    forall|k: int| size <= k < SLOT_WIDTH ==> #[trigger] value.flat()[k] == 0
}

proof fn lemma_low_bytes_are_all<T: FlatBytes>(value: T, size: u8)
    requires
        size <= SLOT_WIDTH,
        fits_size(value, size),
    ensures
        zero_padded(value.flat().take(size as int)) == value.flat(),
{
    value.flat_width();
    assert(zero_padded(value.flat().take(size as int)) =~= value.flat());
}

/// A replay gives back what was recorded: where the trace goes on with the
/// return that a host function's results were recorded as, the replay ends
/// there with success, every result that was recorded is in its place (exactly
/// so if it fits its size, and with zeros above its size otherwise), and the
/// other values are left alone.
pub proof fn law_replay_returns_what_was_recorded<U, T: FlatBytes>(
    results: Seq<T>,
    sizes: Seq<u8>,
    rec: RecordView,
    at: Store<U>,
    args: Seq<T>,
    later: Store<U>,
    replayed: Seq<T>,
    result: Result<(), Error>,
)
    requires
        slots_fit(sizes, results.len() as int),
        rec.failure is None,
        at.opaque@ matches StateView::Replaying(rep) && rep.remaining.len() > 0
            && host_return(StateView::Recording(rec), flattened(results, sizes)).0
            == StateView::Recording(
            RecordView { events: rec.events.push(rep.remaining[0]), ..rec },
        ),
        replay_ends(at, args, later, replayed, result),
    ensures
        result is Ok,
        replayed.len() == args.len(),
        forall|i: int|
            0 <= i < args.len() ==> if i < min_len(results.len(), sizes.len()) {
                &&& (#[trigger] replayed[i]).flat() == zero_padded(
                    results[i].flat().take(sizes[i] as int),
                )
                &&& fits_size(results[i], sizes[i]) ==> replayed[i].flat() == results[i].flat()
            } else {
                replayed[i] == args[i]
            },
        later.opaque@ == at.opaque@.next().0,
{
    let vals = flattened(results, sizes);
    let rep = at.opaque@->Replaying_0;
    let event = EventView::HostFuncReturn { args: vals };
    assert(rec.events.push(event).last() == rec.events.push(rep.remaining[0]).last());
    law_flattened_can_be_read(results, sizes);
    assert forall|i: int| 0 <= i < args.len() implies if i < min_len(results.len(), sizes.len()) {
        &&& (#[trigger] replayed[i]).flat() == zero_padded(results[i].flat().take(sizes[i] as int))
        &&& fits_size(results[i], sizes[i]) ==> replayed[i].flat() == results[i].flat()
    } else {
        replayed[i] == args[i]
    } by {
        if i < min_len(results.len(), sizes.len()) {
            assert(vals.chunk(i) == results[i].flat().take(sizes[i] as int));
            assert(sizes[i] <= SLOT_WIDTH);
            if fits_size(results[i], sizes[i]) {
                lemma_low_bytes_are_all(results[i], sizes[i]);
            }
        }
    }
}

/// A replayed call of a host function passes exactly if the trace holds a call
/// with the same arguments.
pub proof fn law_replay_accepts_what_was_recorded(rep: ReplayView, vals: ArgValsView)
    requires
        rep.add_validation,
        rep.remaining.len() > 0,
    ensures
        host_entry(StateView::Replaying(rep), vals).1 is Ok <==> rep.remaining[0]
            == (EventView::HostFuncEntry { args: vals }),
        !(rep.remaining[0] is HostFuncEntry) ==> host_entry(StateView::Replaying(rep), vals).1
            == Err::<(), ErrorView>(ErrorView::Replay(ReplayError::IncorrectEventVariant)),
        rep.remaining[0] matches EventView::HostFuncEntry { args } && args != vals ==> host_entry(
            StateView::Replaying(rep),
            vals,
        ).1 == Err::<(), ErrorView>(ErrorView::Replay(ReplayError::FailedValidation)),
        host_entry(StateView::Replaying(rep), vals).0 == StateView::Replaying(rep).next().0,
{
}

/// A replayed call that ends as the recorded one did passes, and its outcome is
/// passed on; one that ends otherwise fails.
pub proof fn law_replay_accepts_recorded_return(
    rep: ReplayView,
    origin: WasmFuncOrigin,
    called: Result<(), ErrorView>,
    results: Seq<ValRaw>,
    ty: FuncTypeView,
)
    requires
        rep.add_validation,
        rep.remaining.len() > 0,
    ensures
        rep.remaining[0] == wasm_return_event(called, results, ty) ==> wasm_return(
            StateView::Replaying(rep),
            Some(origin),
            called,
            results,
            ty,
        ) == (StateView::Replaying(rep).next().0, called),
        rep.remaining[0] != wasm_return_event(called, results, ty) ==> {
            let outcome = wasm_return(
                StateView::Replaying(rep),
                Some(origin),
                called,
                results,
                ty,
            );
            &&& outcome.0 == StateView::Replaying(rep).next().0
            &&& outcome.1 == Err::<(), ErrorView>(
                ErrorView::Replay(
                    if rep.remaining[0] is WasmFuncReturn {
                        ReplayError::FailedValidation
                    } else {
                        ReplayError::IncorrectEventVariant
                    },
                ),
            )
        },
{
}

/// A recorded call of a WebAssembly function can be replayed on an instance
/// that has a function of the same type in the same place, with the same
/// arguments.
pub proof fn law_recorded_call_can_be_replayed(
    origin: WasmFuncOrigin,
    args: Seq<ValRaw>,
    ty: FuncTypeView,
    rep: ReplayView,
    call: WasmCall,
)
    requires
        args.len() >= ty.params.len(),
        rep.instances.contains_key(origin.instance.0),
        origin.index.0 < rep.instances[origin.instance.0].len(),
        rep.instances[origin.instance.0][origin.index.0 as int] == ty,
    ensures
        ({
            let vals = flattened(args, byte_sizes(ty.params));
            let instance = RRModuleInstanceId(origin.instance.0);
            let state = StateView::Replaying(rep);
            &&& vals.well_formed()
            &&& call_refused(state, instance, origin.index, vals) is None
            &&& is_traced_call(state, instance, origin.index, vals, call) ==> {
                &&& call.params@.len() == ty.params.len()
                &&& forall|i: int|
                    0 <= i < ty.params.len() ==> {
                        &&& (#[trigger] call.params@[i]).ty == ty.params[i]
                        &&& call.params@[i].raw.flat() == zero_padded(
                            args[i].flat().take(ty.params[i].spec_byte_size() as int),
                        )
                        &&& fits_size(args[i], ty.params[i].spec_byte_size())
                            ==> call.params@[i].raw.flat() == args[i].flat()
                    }
            }
        }),
{
    let sizes = byte_sizes(ty.params);
    let vals = flattened(args, sizes);
    let instance = RRModuleInstanceId(origin.instance.0);
    let state = StateView::Replaying(rep);
    law_flattened_can_be_read(args, sizes);
    if is_traced_call(state, instance, origin.index, vals, call) {
        let types = call.params@.map_values(|val: Val| val.ty);
        assert(types.len() == ty.params.len());
        assert forall|i: int| 0 <= i < ty.params.len() implies {
            &&& (#[trigger] call.params@[i]).ty == ty.params[i]
            &&& call.params@[i].raw.flat() == zero_padded(
                args[i].flat().take(ty.params[i].spec_byte_size() as int),
            )
            &&& fits_size(args[i], ty.params[i].spec_byte_size()) ==> call.params@[i].raw.flat()
                == args[i].flat()
        } by {
            assert(types[i] == ty.params[i]);
            assert(vals.chunk(i) == args[i].flat().take(sizes[i] as int));
            if fits_size(args[i], sizes[i]) {
                lemma_low_bytes_are_all(args[i], sizes[i]);
            }
        }
    }
}

/// The call of a WebAssembly function in a trace: its first event, and the
/// events from there to its end.
pub struct TracedCall {
    pub instance: RRModuleInstanceId,
    pub func_index: FuncIndex,
    pub args: ArgValsView,
    pub tail: Seq<EventView>,
}

/// The events of the calls, one after the other.
pub open spec fn calls_trace(calls: Seq<TracedCall>) -> Seq<EventView>
    decreases calls.len(),
{
    if calls.len() == 0 {
        Seq::empty()
    } else {
        let first = calls[0];
        seq![
            EventView::CoreWasmFuncEntry {
                instance: first.instance,
                func_index: first.func_index,
                args: first.args,
            },
        ] + first.tail + calls_trace(calls.drop_first())
    }
}

/// The call succeeds, and goes through the events that follow its first one.
pub open spec fn replays_call<U>(reentry: Reentry<U>, call: TracedCall) -> bool {
    &&& reentry.result is Ok
    &&& reentry.before.opaque@ matches StateView::Replaying(before)
    &&& reentry.after.opaque@ matches StateView::Replaying(after)
    &&& after.remaining == before.remaining.skip(call.tail.len() as int)
}

proof fn lemma_calls_are_made<U>(
    start: Store<U>,
    run: Seq<Reentry<U>>,
    calls: Seq<TracedCall>,
    rest: Seq<EventView>,
)
    requires
        start.opaque@ matches StateView::Replaying(rep) && rep.remaining == calls_trace(calls)
            + rest,
        rest.len() > 0,
        !(rest[0] is CoreWasmFuncEntry),
        chained(start, run),
        forall|i: int|
            0 <= i < run.len() && i < calls.len() ==> replays_call(#[trigger] run[i], calls[i]),
    ensures
        run.len() <= calls.len(),
        forall|i: int|
            0 <= i < run.len() ==> is_traced_call(
                (#[trigger] run[i]).before.opaque@,
                calls[i].instance,
                calls[i].func_index,
                calls[i].args,
                run[i].call,
            ),
        reached(start, run).opaque@ matches StateView::Replaying(end) && end.remaining
            == calls_trace(calls.skip(run.len() as int)) + rest,
    decreases run.len(),
{
    let rep = start.opaque@->Replaying_0;
    if run.len() == 0 {
        assert(calls.skip(0) =~= calls);
    } else if calls.len() == 0 {
        assert(rep.remaining =~= rest);
        assert(false);
    } else {
        let first = run[0];
        let later_run = run.drop_first();
        let later_calls = calls.drop_first();
        let before = first.before.opaque@->Replaying_0;
        let after = first.after.opaque@->Replaying_0;
        assert(replays_call(run[0], calls[0]));
        assert(before.remaining =~= calls[0].tail + calls_trace(later_calls) + rest);
        assert(after.remaining =~= calls_trace(later_calls) + rest);
        assert forall|i: int| 0 <= i < later_run.len() && i < later_calls.len() implies replays_call(
            #[trigger] later_run[i],
            later_calls[i],
        ) by {
            assert(replays_call(run[i + 1], calls[i + 1]));
        }
        lemma_calls_are_made(first.after, later_run, later_calls, rest);
        assert(later_calls.skip(later_run.len() as int) =~= calls.skip(run.len() as int));
        assert(reached(first.after, later_run) == reached(start, run));
        assert forall|i: int| 0 <= i < run.len() implies is_traced_call(
            (#[trigger] run[i]).before.opaque@,
            calls[i].instance,
            calls[i].func_index,
            calls[i].args,
            run[i].call,
        ) by {
            if i > 0 {
                assert(run[i] == later_run[i - 1]);
                assert(calls[i] == later_calls[i - 1]);
            }
        }
    }
}

/// The replay of a host function's return makes exactly the calls of
/// WebAssembly functions that the trace holds up to the return, in order and
/// with the recorded arguments, gives back the recorded results, and goes
/// exactly as far in the trace; or else it stops with an error before a call
/// that cannot be made.
pub proof fn law_reentrant_replay_follows_the_trace<U, T: FlatBytes>(
    calls: Seq<TracedCall>,
    recorded: Seq<T>,
    sizes: Seq<u8>,
    rest: Seq<EventView>,
    entered: Store<U>,
    run: Seq<Reentry<U>>,
    args: Seq<T>,
    later: Store<U>,
    replayed: Seq<T>,
    result: Result<(), Error>,
)
    requires
        slots_fit(sizes, recorded.len() as int),
        entered.opaque@ matches StateView::Replaying(rep) && rep.remaining == calls_trace(calls) + (
        seq![EventView::HostFuncReturn { args: flattened(recorded, sizes) }] + rest),
        chained(entered, run),
        forall|i: int|
            0 <= i < run.len() && i < calls.len() ==> replays_call(#[trigger] run[i], calls[i]),
        replay_ends(reached(entered, run), args, later, replayed, result),
    ensures
        run.len() <= calls.len(),
        forall|i: int|
            0 <= i < run.len() ==> is_traced_call(
                (#[trigger] run[i]).before.opaque@,
                calls[i].instance,
                calls[i].func_index,
                calls[i].args,
                run[i].call,
            ),
        run.len() == calls.len() ==> {
            &&& result is Ok
            &&& replayed.len() == args.len()
            &&& forall|i: int|
                0 <= i < args.len() ==> if i < min_len(recorded.len(), sizes.len()) {
                    &&& (#[trigger] replayed[i]).flat() == zero_padded(
                        recorded[i].flat().take(sizes[i] as int),
                    )
                    &&& fits_size(recorded[i], sizes[i]) ==> replayed[i].flat()
                        == recorded[i].flat()
                } else {
                    replayed[i] == args[i]
                }
            &&& later.opaque@ matches StateView::Replaying(end)
            &&& end.remaining == rest
        },
        run.len() < calls.len() ==> {
            let next = calls[run.len() as int];
            &&& call_refused(
                later.opaque@,
                next.instance,
                next.func_index,
                next.args,
            ) matches Some(error)
            &&& outcome(result) == Err::<(), ErrorView>(error)
            &&& replayed == args
        },
{
    let exit = EventView::HostFuncReturn { args: flattened(recorded, sizes) };
    lemma_calls_are_made(entered, run, calls, seq![exit] + rest);
    let at = reached(entered, run);
    let end = at.opaque@->Replaying_0;
    if run.len() == calls.len() {
        assert(calls.skip(run.len() as int) =~= Seq::empty());
        assert(end.remaining =~= seq![exit] + rest);
        assert(end.remaining.drop_first() =~= rest);
        let rec = RecordView { add_validation: true, failure: None, events: Seq::empty() };
        law_replay_returns_what_was_recorded(
            recorded,
            sizes,
            rec,
            at,
            args,
            later,
            replayed,
            result,
        );
    } else {
        assert(calls.skip(run.len() as int)[0] == calls[run.len() as int]);
    }
}

/// The call of a host function that is replayed from its own recording passes,
/// makes again the calls of WebAssembly functions that were recorded during it,
/// in order and with the recorded arguments, gives back the recorded results,
/// and goes exactly as far in the trace as the recording did; or else it stops
/// with an error before a call that cannot be made.
pub proof fn law_host_call_round_trip<U, T: FlatBytes>(
    before: RecordView,
    vals: ArgValsView,
    calls: Seq<TracedCall>,
    inside: RecordView,
    recorded: Seq<T>,
    sizes: Seq<u8>,
    rest: Seq<EventView>,
    rep: ReplayView,
    entered: Store<U>,
    run: Seq<Reentry<U>>,
    args: Seq<T>,
    later: Store<U>,
    replayed: Seq<T>,
    result: Result<(), Error>,
)
    requires
        before.failure is None,
        inside.failure is None,
        slots_fit(sizes, recorded.len() as int),
        rep.add_validation == before.add_validation,
        host_entry(StateView::Recording(before), vals).0 matches StateView::Recording(during)
            && inside.events == during.events + calls_trace(calls),
        host_return(
            StateView::Recording(inside),
            flattened(recorded, sizes),
        ).0 matches StateView::Recording(after) && rep.remaining == after.events.skip(
            before.events.len() as int,
        ) + rest,
        entered.opaque@ == host_entry(StateView::Replaying(rep), vals).0,
        chained(entered, run),
        forall|i: int|
            0 <= i < run.len() && i < calls.len() ==> replays_call(#[trigger] run[i], calls[i]),
        replay_ends(reached(entered, run), args, later, replayed, result),
    ensures
        host_entry(StateView::Replaying(rep), vals).1 is Ok,
        run.len() <= calls.len(),
        forall|i: int|
            0 <= i < run.len() ==> is_traced_call(
                (#[trigger] run[i]).before.opaque@,
                calls[i].instance,
                calls[i].func_index,
                calls[i].args,
                run[i].call,
            ),
        run.len() == calls.len() ==> {
            &&& result is Ok
            &&& replayed.len() == args.len()
            &&& forall|i: int|
                0 <= i < args.len() ==> if i < min_len(recorded.len(), sizes.len()) {
                    &&& (#[trigger] replayed[i]).flat() == zero_padded(
                        recorded[i].flat().take(sizes[i] as int),
                    )
                    &&& fits_size(recorded[i], sizes[i]) ==> replayed[i].flat()
                        == recorded[i].flat()
                } else {
                    replayed[i] == args[i]
                }
            &&& later.opaque@ matches StateView::Replaying(end)
            &&& end.remaining == rest
        },
        run.len() < calls.len() ==> {
            let next = calls[run.len() as int];
            &&& call_refused(
                later.opaque@,
                next.instance,
                next.func_index,
                next.args,
            ) matches Some(error)
            &&& outcome(result) == Err::<(), ErrorView>(error)
            &&& replayed == args
        },
{
    let entry = EventView::HostFuncEntry { args: vals };
    let exit = EventView::HostFuncReturn { args: flattened(recorded, sizes) };
    let n = before.events.len() as int;
    let tail = calls_trace(calls) + (seq![exit] + rest);
    if before.add_validation {
        assert(inside.events.push(exit).skip(n) =~= seq![entry] + calls_trace(calls) + seq![exit]);
        assert(rep.remaining =~= seq![entry] + tail);
        assert(rep.remaining.drop_first() =~= tail);
    } else {
        assert(inside.events.push(exit).skip(n) =~= calls_trace(calls) + seq![exit]);
        assert(rep.remaining =~= tail);
    }
    law_reentrant_replay_follows_the_trace(
        calls,
        recorded,
        sizes,
        rest,
        entered,
        run,
        args,
        later,
        replayed,
        result,
    );
}

/// An instantiation that is replayed from its own recording passes; any other
/// fails.
pub proof fn law_instantiation_round_trip(
    before: RecordView,
    module: Seq<u8>,
    instance: u32,
    rep: ReplayView,
    replayed_module: Seq<u8>,
    replayed_instance: u32,
)
    requires
        before.failure is None,
        instantiation(StateView::Recording(before), module, instance).0 matches StateView::Recording(
            after,
        ) && rep.current_instantiation == Some(after.events.last()),
    ensures
        instantiation(StateView::Replaying(rep), replayed_module, replayed_instance).1 is Ok
            <==> replayed_module == module && replayed_instance == instance,
        instantiation(StateView::Replaying(rep), replayed_module, replayed_instance).0
            == StateView::Replaying(ReplayView { current_instantiation: None, ..rep }),
{
}

/// The text of an event begins with the name of its type, and what an error
/// says of it also gives its kind.
pub proof fn law_text_names_the_event(event: EventView)
    ensures
        event.type_text().is_prefix_of(event.text()),
        event.kind_text().is_prefix_of(event.debug_text()),
        event.debug_text().is_suffix_of(ErrorView::UnexpectedEvent(event).text()),
{
    let text = event.text();
    assert(event.type_text() =~= text.subrange(0, event.type_text().len() as int));
    let debug = event.debug_text();
    assert(event.kind_text() =~= debug.subrange(0, event.kind_text().len() as int));
    let error = ErrorView::UnexpectedEvent(event).text();
    assert(debug =~= error.subrange(error.len() - debug.len(), error.len() as int));
}

} // verus!
