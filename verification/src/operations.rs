//! How the results of several calls relate to one another.
use crate::args::{lemma_readable_prefix, offset, slots_fit, RRFuncArgVals};
use crate::core_hooks::{
    prepare_call, record_and_replay_validate_instantiation,
    record_and_replay_validate_wasm_return, record_validate_host_func_entry,
    record_wasm_func_entry, replay_validate_host_func_entry, rr_validate_module_unexported_memory, WasmCall, WasmFuncOrigin,
};
use crate::effects::{
    law_host_calls_agree, law_recorded_call_is_made_again, law_replayed_instantiation, law_wasm_returns_agree,
};
use crate::error::{outcome, EntityIndex, Error, ReplayError};
use crate::events::{
    FuncIndex, InstanceId, InstantiationEvent, RREvent, RRModuleInstanceId, WasmChecksum,
    WasmFuncEntryEvent,
};
use crate::forms::{law_chunk, law_exported_memory_in_any_order, law_overwritten};
use crate::laws::law_flattened_can_be_read;
use crate::module::{Module, RRConfig};
use crate::store::{
    event_views, Instance, RecordSettings, RecordView, StateView, Store, StoreOpaque, Trace,
};
use crate::values::{FlatBytes, FuncType, ValRaw, ValType};
use vstd::prelude::*;
use vstd::std_specs::iter::IteratorSpec;

verus! {

/// The replay of a finished recording starts with exactly what was recorded, in
/// the same order and under the same setting, and knows no instances yet.
pub proof fn law_recording_becomes_replay(
    settings: RecordSettings,
    started: StoreOpaque,
    recording: StoreOpaque,
    rec: RecordView,
    trace: Option<Trace>,
    replay: StoreOpaque,
)
    requires
        call_ensures(StoreOpaque::record, (settings,), started),
        started@.leads_to(recording@),
        recording@ == StateView::Recording(rec),
        call_ensures(StoreOpaque::into_trace, (recording,), trace),
        trace matches Some(trace) ==> call_ensures(StoreOpaque::replay, (trace,), replay),
    ensures
        trace is Some,
        rec.add_validation == settings.add_validation,
        replay@ matches StateView::Replaying(rep) && {
            &&& rep.add_validation == settings.add_validation
            &&& rep.remaining == rec.events
            &&& rep.instances.dom() == Set::<u32>::empty()
            &&& rep.current_instantiation is None
        },
{
}

/// The check of a module looks at every export, wherever it stands, and only
/// where the module is to be recorded; in another order the exports get the same
/// answer.
pub proof fn law_memory_check(
    a: Module,
    a_result: Result<(), Error>,
    b: Module,
    b_result: Result<(), Error>,
)
    requires
        call_ensures(rr_validate_module_unexported_memory, (&a,), a_result),
        call_ensures(rr_validate_module_unexported_memory, (&b,), b_result),
    ensures
        a_result is Err <==> a.engine.rr == RRConfig::Recording && exists|i: int|
            0 <= i < a.exports@.len() && (#[trigger] a.exports@[i]).ty is Memory,
        a_result matches Err(error) ==> error == Error::ExportedMemory,
        a.engine.rr == b.engine.rr && a.exports@.to_multiset() == b.exports@.to_multiset()
            ==> a_result is Ok == b_result is Ok,
{
    if a.exports@.to_multiset() == b.exports@.to_multiset() {
        a.exports@.to_multiset_ensures();
        b.exports@.to_multiset_ensures();
        assert forall|i: int| 0 <= i < a.exports@.len() implies b.exports@.contains(
            #[trigger] a.exports@[i],
        ) by {
            assert(a.exports@.contains(a.exports@[i]));
            assert(b.exports@.to_multiset().count(a.exports@[i]) > 0);
        }
        assert forall|i: int| 0 <= i < b.exports@.len() implies a.exports@.contains(
            #[trigger] b.exports@[i],
        ) by {
            assert(b.exports@.contains(b.exports@[i]));
            assert(a.exports@.to_multiset().count(b.exports@[i]) > 0);
        }
        law_exported_memory_in_any_order(a, b);
    }
}

/// The call of a WebAssembly function that was recorded last can be made ready on
/// a store whose instance has a function of the same type in the same place: with
/// the arguments that were recorded, cut to the width of their types, and with
/// room for all of the results.
pub proof fn law_recorded_call_can_be_prepared(
    args: &[ValRaw],
    ty: &FuncType,
    origin: WasmFuncOrigin,
    store: &mut StoreOpaque,
    recorded: Result<(), Error>,
    event: WasmFuncEntryEvent,
    replay: &StoreOpaque,
    prepared: Result<WasmCall, Error>,
)
    requires
        old(store)@ matches StateView::Recording(rec) && rec.failure is None,
        ty.params@.len() <= args@.len(),
        call_ensures(record_wasm_func_entry, (args, ty, Some(origin), store), recorded),
        final(store)@ matches StateView::Recording(rec) && rec.events.last()
            == RREvent::CoreWasmFuncEntry(event)@,
        replay@ matches StateView::Replaying(rep) && rep.instances.dom().contains(origin.instance.0)
            && origin.index.0 < rep.instances[origin.instance.0].len()
            && rep.instances[origin.instance.0][origin.index.0 as int] == ty@,
        call_ensures(prepare_call, (&event, replay), prepared),
    ensures
        recorded is Ok,
        prepared matches Ok(call) && {
            &&& call.instance.0 == origin.instance.0
            &&& call.func_index == origin.index
            &&& call.params@.len() == ty.params@.len()
            &&& forall|i: int|
                0 <= i < ty.params@.len() ==> (#[trigger] call.params@[i]).ty == ty.params@[i]
            &&& forall|i: int, k: int|
                0 <= i < ty.params@.len() && 0 <= k < 16
                    ==> #[trigger] call.params@[i].raw.bytes@[k] == if k
                    < ty.params@[i].spec_byte_size() {
                    args@[i].bytes@[k]
                } else {
                    0
                }
            &&& call.results@.len() == ty.results@.len()
            &&& forall|i: int|
                0 <= i < ty.results@.len() ==> (#[trigger] call.results@[i]).ty == ValType::I64
            &&& forall|i: int, k: int|
                0 <= i < ty.results@.len() && 0 <= k < 16
                    ==> #[trigger] call.results@[i].raw.bytes@[k] == 0
        },
{
    let rec = old(store)@->Recording_0;
    let rep = replay@->Replaying_0;
    law_recorded_call_is_made_again(rec, origin, args@, ty@, rep, prepared->Ok_0);
}

/// A call of a WebAssembly function that is held against the recording of
/// another passes exactly if both succeeded with as many results, which agree on
/// every byte that counts, or both failed with the same message.
pub proof fn law_validated_returns_agree(
    called: Result<(), Error>,
    args: &[ValRaw],
    ty: &FuncType,
    origin: WasmFuncOrigin,
    store: &mut StoreOpaque,
    recorded: Result<(), Error>,
    again: Result<(), Error>,
    again_args: &[ValRaw],
    again_origin: WasmFuncOrigin,
    replay: &mut StoreOpaque,
    validated: Result<(), Error>,
)
    requires
        old(store)@ matches StateView::Recording(rec) && rec.failure is None && rec.add_validation,
        call_ensures(
            record_and_replay_validate_wasm_return,
            (called, args, ty, Some(origin), store),
            recorded,
        ),
        old(replay)@ matches StateView::Replaying(rep) && rep.add_validation && rep.remaining.len()
            > 0 && rep.remaining[0] == (final(store)@->Recording_0).events.last(),
        call_ensures(
            record_and_replay_validate_wasm_return,
            (again, again_args, ty, Some(again_origin), replay),
            validated,
        ),
        ty.results@.len() <= args@.len(),
        ty.results@.len() <= again_args@.len(),
    ensures
        outcome(recorded) == outcome(called),
        ({
            let agree = match (called, again) {
                (Ok(_), Ok(_)) => forall|i: int, k: int|
                    0 <= i < ty.results@.len() && 0 <= k < ty.results@[i].spec_byte_size()
                        ==> #[trigger] args@[i].bytes@[k] == again_args@[i].bytes@[k],
                (Err(a), Err(b)) => a@.text() == b@.text(),
                _ => false,
            };
            &&& agree ==> outcome(validated) == outcome(again)
            &&& !agree ==> validated == Err::<(), Error>(
                Error::Replay(ReplayError::FailedValidation),
            )
        }),
{
    let rec = old(store)@->Recording_0;
    let rep = old(replay)@->Replaying_0;
    law_wasm_returns_agree(
        rec,
        origin,
        outcome(called),
        args@,
        rep,
        again_origin,
        outcome(again),
        again_args@,
        ty@,
    );
}

/// An instantiation that is held against one that was recorded passes exactly if
/// both are of the same instance and their checksums agree in every byte.
pub proof fn law_instantiations_agree<T, U>(
    store: &mut Store<T>,
    module: WasmChecksum,
    instance: InstanceId,
    recorded: Result<(), Error>,
    event: InstantiationEvent,
    replay: &mut Store<U>,
    again: WasmChecksum,
    again_instance: InstanceId,
    validated: Result<(), Error>,
)
    requires
        old(store).opaque@ matches StateView::Recording(rec) && rec.failure is None,
        call_ensures(
            record_and_replay_validate_instantiation::<T>,
            (store, module, instance),
            recorded,
        ),
        final(store).opaque@ matches StateView::Recording(rec) && rec.events.last()
            == RREvent::CoreWasmInstantiation(event)@,
        old(replay).opaque@ matches StateView::Replaying(rep) && rep.current_instantiation == Some(
            event@,
        ),
        call_ensures(
            record_and_replay_validate_instantiation::<U>,
            (replay, again, again_instance),
            validated,
        ),
    ensures
        recorded is Ok,
        event.instance.0 == instance.0,
        event.module.0@ == module.0@,
        ({
            let agree = instance.0 == again_instance.0 && forall|k: int|
                0 <= k < 32 ==> #[trigger] module.0@[k] == again.0@[k];
            &&& agree ==> validated is Ok
            &&& !agree ==> validated == Err::<(), Error>(
                Error::Replay(ReplayError::FailedValidation),
            )
        }),
        final(store).data == old(store).data,
        final(replay).data == old(replay).data,
{
    law_replayed_instantiation(
        old(replay).opaque@->Replaying_0,
        module.0@,
        instance.0,
        again.0@,
        again_instance.0,
    );
}

/// Values that are put into their trace form and then into the slots of others
/// come out as they were, cut to the sizes that were asked for and with zeros
/// above; slots beyond them keep what they held.
pub proof fn law_values_round_trip<T: FlatBytes, I: Iterator<Item = u8>>(
    args: &[T],
    flat: I,
    vals: RRFuncArgVals,
    slots: &mut [T],
    i: int,
)
    requires
        flat.obeys_prophetic_iter_laws(),
        slots_fit(flat.remaining(), args@.len() as int),
        call_ensures(RRFuncArgVals::from_flat_iter::<T, I>, (args, flat), vals),
        call_ensures(RRFuncArgVals::into_raw_slice::<T>, (vals, slots), ()),
        0 <= i < old(slots)@.len(),
    ensures
        final(slots)@.len() == old(slots)@.len(),
        i < args@.len() && i < flat.remaining().len() ==> forall|k: int|
            0 <= k < 16 ==> #[trigger] final(slots)@[i].flat()[k] == if k < flat.remaining()[i] {
                args@[i].flat()[k]
            } else {
                0
            },
        args@.len() <= i || flat.remaining().len() <= i ==> final(slots)@[i] == old(slots)@[i],
{
    let sizes = flat.remaining();
    law_flattened_can_be_read(args@, sizes);
    if i < vals@.sizes.len() {
        lemma_readable_prefix(vals@, i + 1);
        law_chunk(vals@, i);
        args@[i].flat_width();
        assert(vals@.chunk(i) == args@[i].flat().take(sizes[i] as int));
    }
    law_overwritten(vals@, old(slots)@, final(slots)@, i);
    if i < vals@.sizes.len() {
        assert forall|k: int| 0 <= k < 16 implies #[trigger] final(slots)@[i].flat()[k] == if k
            < sizes[i] {
            args@[i].flat()[k]
        } else {
            0
        } by {
            if k < sizes[i] {
                assert(vals@.chunk(i)[k] == vals@.bytes[offset(vals@.sizes, i) + k]);
            }
        }
    }
}

/// A call of a host function that is held against the recording of another one
/// passes exactly if both have the same number of values of the same sizes, and
/// agree on every byte that counts.
pub proof fn law_validated_host_calls_agree<
    T: FlatBytes,
    I: Iterator<Item = u8>,
    J: Iterator<Item = u8>,
>(
    args: &[T],
    flat: I,
    store: &mut StoreOpaque,
    recorded: Result<(), Error>,
    again: &[T],
    again_flat: J,
    replay: &mut StoreOpaque,
    validated: Result<(), Error>,
)
    requires
        flat.obeys_prophetic_iter_laws(),
        again_flat.obeys_prophetic_iter_laws(),
        slots_fit(flat.remaining(), args@.len() as int),
        slots_fit(again_flat.remaining(), again@.len() as int),
        flat.remaining().len() == args@.len(),
        again_flat.remaining().len() == again@.len(),
        old(store)@ matches StateView::Recording(rec) && rec.failure is None && rec.add_validation,
        call_ensures(record_validate_host_func_entry::<T, I>, (args, flat, store), recorded),
        old(replay)@ matches StateView::Replaying(rep) && rep.add_validation && rep.remaining.len()
            > 0 && rep.remaining[0] == (final(store)@->Recording_0).events.last(),
        call_ensures(
            replay_validate_host_func_entry::<T, J>,
            (again, again_flat, replay),
            validated,
        ),
    ensures
        recorded is Ok,
        ({
            let sizes = flat.remaining();
            let agree = sizes == again_flat.remaining() && forall|i: int|
                0 <= i < sizes.len() ==> (#[trigger] args@[i]).flat().take(sizes[i] as int)
                    == again@[i].flat().take(sizes[i] as int);
            &&& agree ==> validated is Ok
            &&& !agree ==> validated == Err::<(), Error>(
                Error::Replay(ReplayError::FailedValidation),
            )
        }),
{
    law_host_calls_agree(
        old(store)@->Recording_0,
        args@,
        flat.remaining(),
        old(replay)@->Replaying_0,
        again@,
        again_flat.remaining(),
    );
}

/// A function is found under the instance that was made known with it, by its
/// place there; what else was known of other instances stays.
pub proof fn law_added_instance_is_found(
    store: &mut StoreOpaque,
    id: RRModuleInstanceId,
    instance: Instance,
    replay: &StoreOpaque,
    index: FuncIndex,
    found: Result<&FuncType, ReplayError>,
    other: RRModuleInstanceId,
)
    requires
        old(store)@ is Replaying,
        call_ensures(StoreOpaque::add_module_instance, (store, id, instance), ()),
        replay@ == final(store)@,
        call_ensures(StoreOpaque::module_func, (replay, id, index), found),
    ensures
        match found {
            Ok(func) => {
                &&& index.0 < instance.funcs@.len()
                &&& func.params@ == instance.funcs@[index.0 as int].params@
                &&& func.results@ == instance.funcs@[index.0 as int].results@
            },
            Err(error) => {
                &&& instance.funcs@.len() <= index.0
                &&& error == ReplayError::InvalidCoreFuncIndex(EntityIndex::Function(index))
            },
        },
        other != id ==> final(store)@.func(other, index) == old(store)@.func(other, index),
{
}

/// What a store records last stands last in its trace, behind all that it
/// recorded before.
pub proof fn law_recorded_event_is_last(
    store: &mut StoreOpaque,
    event: RREvent,
    recorded: Result<(), Error>,
    before: Trace,
    ended: StoreOpaque,
    trace: Option<Trace>,
)
    requires
        old(store)@ matches StateView::Recording(rec) && rec.failure is None && rec.events
            == event_views(before.events@),
        call_ensures(StoreOpaque::record_event, (store, event), recorded),
        ended@ == final(store)@,
        call_ensures(StoreOpaque::into_trace, (ended,), trace),
    ensures
        recorded is Ok,
        trace matches Some(trace) && {
            &&& trace.events@.len() == before.events@.len() + 1
            &&& trace.events@.last()@ == event@
            &&& forall|i: int|
                0 <= i < before.events@.len() ==> (#[trigger] trace.events@[i])@
                    == before.events@[i]@
        },
{
    let after = event_views(trace->Some_0.events@);
    let rec = old(store)@->Recording_0;
    assert(after == rec.events.push(event@));
    assert forall|i: int| 0 <= i < before.events@.len() implies (
    #[trigger] trace->Some_0.events@[i])@ == before.events@[i]@ by {
        assert(after[i] == rec.events[i]);
    }
    assert(after.last() == event@);
}

/// A replay takes the events of a trace in the order in which they stand there,
/// and then says that it is at the end.
pub proof fn law_first_event_is_next(
    trace: Trace,
    replay: StoreOpaque,
    store: &mut StoreOpaque,
    taken: Result<RREvent, ReplayError>,
)
    requires
        call_ensures(StoreOpaque::replay, (trace,), replay),
        old(store)@ == replay@,
        call_ensures(StoreOpaque::next_event, (store,), taken),
    ensures
        match taken {
            Ok(event) => {
                &&& trace.events@.len() > 0
                &&& event@ == trace.events@[0]@
                &&& final(store)@ matches StateView::Replaying(rep)
                &&& rep.remaining == event_views(trace.events@.skip(1))
            },
            Err(error) => trace.events@.len() == 0 && error == ReplayError::EmptyBuffer,
        },
{
    if trace.events@.len() > 0 {
        assert(event_views(trace.events@).drop_first() =~= event_views(trace.events@.skip(1)));
    }
}

} // verus!
