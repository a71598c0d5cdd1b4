//! What each hook does to a store, event by event and field by field.
use crate::args::{flattened, lemma_readable_prefix, offset, slots_fit, ArgValsView};
use crate::core_hooks::{
    call_refused, callable, chained, consumed_host_return, host_entry, host_return, instantiation,
    is_i64_zero, is_traced_call, reached, replay_ends, wasm_entry, wasm_return, wasm_return_event,
    Reentry, WasmCall, WasmFuncOrigin,
};
use crate::error::{outcome, EntityIndex, Error, ErrorView, ReplayError};
use crate::events::{EventView, FuncIndex, RRModuleInstanceId};
use crate::forms::{
    law_chunk, law_flattened_ignores_the_rest, law_flattened_tells_values_apart, law_overwritten,
    law_readable_prefix,
};
use crate::laws::{law_flattened_can_be_read, law_flattened_length};
use crate::store::{ActiveBoundaryMode, RecordView, ReplayView, StateView, Store};
use crate::values::{byte_sizes, zero_padded, FlatBytes, FuncTypeView, Val, ValRaw, ValType};
use vstd::prelude::*;

verus! {

/// What a store does follows from whether it records, replays or does neither,
/// and from the setting that it was given.
pub proof fn law_modes(rec: RecordView, rep: ReplayView)
    ensures
        StateView::Disabled.mode() is None,
        StateView::Recording(rec).mode() == Some(ActiveBoundaryMode::Recording),
        StateView::Replaying(rep).mode() == Some(ActiveBoundaryMode::Replaying),
        !StateView::Disabled.adds_validation(),
        StateView::Recording(rec).adds_validation() == rec.add_validation,
        StateView::Replaying(rep).adds_validation() == rep.add_validation,
{
}

/// A recording keeps every event that it had and adds the new one at the end,
/// as long as its writer works; an event that only serves validation is added
/// exactly if the recording asks for such events.
pub proof fn law_recording_grows_at_the_end(rec: RecordView, event: EventView)
    requires
        rec.failure is None,
    ensures
        ({
            let (state, result) = StateView::Recording(rec).recorded(event);
            &&& result is Ok
            &&& state matches StateView::Recording(after)
            &&& after.add_validation == rec.add_validation
            &&& after.failure is None
            &&& after.events.len() == rec.events.len() + 1
            &&& rec.events.is_prefix_of(after.events)
            &&& after.events.last() == event
        }),
        rec.add_validation ==> StateView::Recording(rec).recorded_validation(event)
            == StateView::Recording(rec).recorded(event),
        !rec.add_validation ==> StateView::Recording(rec).recorded_validation(event) == (
            StateView::Recording(rec),
            Ok::<(), ErrorView>(()),
        ),
{
    assert(rec.events =~= rec.events.push(event).subrange(0, rec.events.len() as int));
}

/// Nothing is recorded but by a recording whose writer works.
pub proof fn law_nothing_else_records(state: StateView, event: EventView)
    requires
        state matches StateView::Recording(rec) ==> rec.failure is Some,
    ensures
        state.recorded(event).0 == state,
        state.recorded_validation(event).0 == state,
        state.recorded(event).1 is Err <==> state is Recording,
        state.recorded_validation(event).1 is Err <==> state is Recording
            && state.adds_validation(),
        state matches StateView::Recording(rec) ==> state.recorded(event).1 == Err::<(), ErrorView>(
            ErrorView::RecordFailed(rec.failure->Some_0),
        ) && (rec.add_validation ==> state.recorded_validation(event).1 == Err::<(), ErrorView>(
            ErrorView::RecordFailed(rec.failure->Some_0),
        )),
{
}

/// A replay takes the events of its trace from the front, one at a time, and
/// nothing but the trace changes; at the end of the trace it says so.
pub proof fn law_replay_takes_from_the_front(rep: ReplayView)
    ensures
        ({
            let (state, taken) = StateView::Replaying(rep).next();
            &&& state matches StateView::Replaying(after)
            &&& after.add_validation == rep.add_validation
            &&& after.instances == rep.instances
            &&& after.current_instantiation == rep.current_instantiation
            &&& match taken {
                Ok(event) => rep.remaining == seq![event] + after.remaining,
                Err(e) => {
                    &&& e == ReplayError::EmptyBuffer
                    &&& rep.remaining.len() == 0
                    &&& after.remaining.len() == 0
                },
            }
        }),
{
    if rep.remaining.len() > 0 {
        assert(rep.remaining =~= seq![rep.remaining[0]] + rep.remaining.drop_first());
    }
}

/// Only a replay of a trace with events to validate against holds anything
/// against its trace.
pub proof fn law_nothing_else_validates(state: StateView, expect: EventView)
    requires
        state matches StateView::Replaying(rep) ==> !rep.add_validation,
    ensures
        state.validated(expect).0 == state,
        state.validated(expect).1 is Ok,
{
}

/// Validation takes one event from the trace, passes exactly if that event is
/// the expected one, and tells an event of another kind from one with other
/// data.
pub proof fn law_validation(rep: ReplayView, expect: EventView)
    requires
        rep.add_validation,
    ensures
        rep.remaining.len() == 0 ==> StateView::Replaying(rep).validated(expect) == (
            StateView::Replaying(rep),
            Err::<(), ErrorView>(ErrorView::Replay(ReplayError::EmptyBuffer)),
        ),
        rep.remaining.len() > 0 ==> {
            let event = rep.remaining[0];
            let (after, result) = StateView::Replaying(rep).validated(expect);
            &&& after == StateView::Replaying(
                ReplayView { remaining: rep.remaining.skip(1), ..rep },
            )
            &&& result is Ok <==> event == expect
            &&& event != expect ==> result == Err::<(), ErrorView>(
                ErrorView::Replay(
                    if (event is CoreWasmInstantiation && expect is CoreWasmInstantiation) || (
                    event is CoreWasmFuncEntry && expect is CoreWasmFuncEntry) || (
                    event is HostFuncEntry && expect is HostFuncEntry) || (event is HostFuncReturn
                        && expect is HostFuncReturn) || (event is WasmFuncReturn
                        && expect is WasmFuncReturn) {
                        ReplayError::FailedValidation
                    } else {
                        ReplayError::IncorrectEventVariant
                    },
                ),
            )
        },
{
    if rep.remaining.len() > 0 {
        assert(rep.remaining.skip(1) =~= rep.remaining.drop_first());
    }
}

/// A replay finds a function exactly where its instances have one, and otherwise
/// says whether the instance or the function is missing.
pub proof fn law_function_lookup(rep: ReplayView, instance: RRModuleInstanceId, index: FuncIndex)
    ensures
        ({
            let found = StateView::Replaying(rep).func(instance, index);
            let known = rep.instances.dom().contains(instance.0);
            let n = rep.instances[instance.0].len();
            &&& found is Ok <==> known && index.0 < n
            &&& found matches Ok(ty) ==> rep.instances[instance.0][index.0 as int] == ty
            &&& !known ==> found == Err::<FuncTypeView, ReplayError>(
                ReplayError::MissingModuleInstance(instance),
            )
            &&& known && n <= index.0 ==> found == Err::<FuncTypeView, ReplayError>(
                ReplayError::InvalidCoreFuncIndex(EntityIndex::Function(index)),
            )
        }),
{
}

/// One state leads to another exactly if both go the same way under the same
/// setting and the later one has only events added at the end of its recording,
/// none if the writer had failed, or only events taken from the front of its
/// trace.
pub proof fn law_leads_to(a: StateView, b: StateView)
    ensures
        a is Disabled ==> (a.leads_to(b) <==> b is Disabled),
        a matches StateView::Recording(x) ==> (a.leads_to(b) <==> {
            &&& b matches StateView::Recording(y)
            &&& x.add_validation == y.add_validation
            &&& x.events.len() <= y.events.len()
            &&& forall|i: int|
                0 <= i < x.events.len() ==> #[trigger] y.events[i] == x.events[i]
            &&& x.failure is Some ==> y.failure is Some && y.events.len() == x.events.len()
        }),
        a matches StateView::Replaying(x) ==> (a.leads_to(b) <==> {
            &&& b matches StateView::Replaying(y)
            &&& x.add_validation == y.add_validation
            &&& y.remaining.len() <= x.remaining.len()
            &&& x.remaining == x.remaining.take(x.remaining.len() - y.remaining.len())
                + y.remaining
        }),
{
    match (a, b) {
        (StateView::Recording(x), StateView::Recording(y)) => {
            if x.events.is_prefix_of(y.events) {
                assert forall|i: int| 0 <= i < x.events.len() implies #[trigger] y.events[i]
                    == x.events[i] by {
                    assert(x.events[i] == y.events.subrange(0, x.events.len() as int)[i]);
                }
            }
            if x.events.len() <= y.events.len() && forall|i: int|
                0 <= i < x.events.len() ==> #[trigger] y.events[i] == x.events[i] {
                assert(x.events =~= y.events.subrange(0, x.events.len() as int));
                if x.events.len() == y.events.len() {
                    assert(x.events =~= y.events);
                }
            }
        },
        (StateView::Replaying(x), StateView::Replaying(y)) => {
            let n = x.remaining.len() - y.remaining.len();
            if n >= 0 {
                let front = x.remaining.take(n);
                let back = x.remaining.subrange(n, x.remaining.len() as int);
                assert(x.remaining =~= front + back);
                if x.remaining == front + y.remaining {
                    assert(back =~= y.remaining) by {
                        assert forall|i: int| 0 <= i < back.len() implies back[i]
                            == y.remaining[i] by {
                            assert((front + y.remaining)[n + i] == y.remaining[i]);
                        }
                    }
                }
            }
        },
        _ => {},
    }
}

/// Under validation, the call of a host function adds exactly one event to a
/// recording, with the arguments as they were given; its return adds exactly one
/// event with or without validation.
pub proof fn law_recorded_host_events(rec: RecordView, vals: ArgValsView)
    requires
        rec.failure is None,
    ensures
        rec.add_validation ==> host_entry(StateView::Recording(rec), vals) == (
            StateView::Recording(
                RecordView {
                    events: rec.events + seq![EventView::HostFuncEntry { args: vals }],
                    ..rec
                },
            ),
            Ok::<(), ErrorView>(()),
        ),
        host_return(StateView::Recording(rec), vals) == (
            StateView::Recording(
                RecordView {
                    events: rec.events + seq![EventView::HostFuncReturn { args: vals }],
                    ..rec
                },
            ),
            Ok::<(), ErrorView>(()),
        ),
{
    assert(rec.events.push(EventView::HostFuncEntry { args: vals }) =~= rec.events
        + seq![EventView::HostFuncEntry { args: vals }]);
    assert(rec.events.push(EventView::HostFuncReturn { args: vals }) =~= rec.events
        + seq![EventView::HostFuncReturn { args: vals }]);
}

/// A call of a host function that is held against the recording of another one
/// passes exactly if both have the same number of values of the same sizes, and
/// agree on every byte that counts.
pub proof fn law_host_calls_agree<T: FlatBytes>(
    rec: RecordView,
    args: Seq<T>,
    sizes: Seq<u8>,
    rep: ReplayView,
    again: Seq<T>,
    again_sizes: Seq<u8>,
)
    requires
        rec.failure is None,
        rec.add_validation,
        rep.add_validation,
        rep.remaining.len() > 0,
        args.len() == sizes.len(),
        again.len() == again_sizes.len(),
        slots_fit(sizes, args.len() as int),
        slots_fit(again_sizes, again.len() as int),
        host_entry(
            StateView::Recording(rec),
            flattened(args, sizes),
        ).0 matches StateView::Recording(after) && rep.remaining[0] == after.events.last(),
    ensures
        ({
            let (state, result) = host_entry(
                StateView::Replaying(rep),
                flattened(again, again_sizes),
            );
            &&& result is Ok <==> sizes == again_sizes && forall|i: int|
                0 <= i < sizes.len() ==> (#[trigger] args[i]).flat().take(sizes[i] as int)
                    == again[i].flat().take(sizes[i] as int)
            &&& result is Err ==> result == Err::<(), ErrorView>(
                ErrorView::Replay(ReplayError::FailedValidation),
            )
            &&& state == StateView::Replaying(
                ReplayView { remaining: rep.remaining.skip(1), ..rep },
            )
        }),
{
    law_recorded_host_events(rec, flattened(args, sizes));
    law_validation(rep, EventView::HostFuncEntry { args: flattened(again, again_sizes) });
    assert(sizes.take(sizes.len() as int) =~= sizes);
    assert(again_sizes.take(again_sizes.len() as int) =~= again_sizes);
    if sizes == again_sizes {
        law_flattened_tells_values_apart(args, again, sizes);
    }
}

/// The call of a WebAssembly function adds exactly one event to a recording: it
/// names the function that is called, and holds for each parameter that has an
/// argument as many of the argument's lowest bytes as the parameter's type takes
/// up.
pub proof fn law_recorded_wasm_entry(
    rec: RecordView,
    origin: WasmFuncOrigin,
    args: Seq<ValRaw>,
    ty: FuncTypeView,
)
    requires
        rec.failure is None,
    ensures
        ({
            let (state, result) = wasm_entry(StateView::Recording(rec), Some(origin), args, ty);
            &&& result is Ok
            &&& state matches StateView::Recording(after)
            &&& after.add_validation == rec.add_validation
            &&& after.failure is None
            &&& after.events.len() == rec.events.len() + 1
            &&& rec.events.is_prefix_of(after.events)
            &&& after.events.last() matches EventView::CoreWasmFuncEntry {
                instance,
                func_index,
                args: vals,
            }
            &&& instance.0 == origin.instance.0
            &&& func_index == origin.index
            &&& vals.sizes.len() == if args.len() < ty.params.len() {
                args.len()
            } else {
                ty.params.len()
            }
            &&& forall|i: int|
                0 <= i < vals.sizes.len() ==> #[trigger] vals.sizes[i]
                    == ty.params[i].spec_byte_size()
            &&& forall|i: int|
                0 <= i < vals.sizes.len() ==> #[trigger] vals.chunk(i) == args[i].bytes@.take(
                    ty.params[i].spec_byte_size() as int,
                )
            &&& vals.bytes.len() == offset(vals.sizes, vals.sizes.len() as int)
            &&& vals.well_formed()
        }),
{
    let vals = flattened(args, byte_sizes(ty.params));
    let event = EventView::CoreWasmFuncEntry {
        instance: RRModuleInstanceId(origin.instance.0),
        func_index: origin.index,
        args: vals,
    };
    assert(rec.events =~= rec.events.push(event).subrange(0, rec.events.len() as int));
    lemma_flattened_by_types(args, ty.params);
}

proof fn lemma_flattened_by_types(args: Seq<ValRaw>, types: Seq<ValType>)
    ensures
        ({
            let vals = flattened(args, byte_sizes(types));
            &&& vals.sizes.len() == if args.len() < types.len() { args.len() } else { types.len() }
            &&& forall|i: int|
                0 <= i < vals.sizes.len() ==> #[trigger] vals.sizes[i] == types[i].spec_byte_size()
            &&& forall|i: int|
                0 <= i < vals.sizes.len() ==> #[trigger] vals.chunk(i) == args[i].bytes@.take(
                    types[i].spec_byte_size() as int,
                )
            &&& vals.bytes.len() == offset(vals.sizes, vals.sizes.len() as int)
            &&& vals.well_formed()
        }),
{
    law_flattened_can_be_read(args, byte_sizes(types));
    law_flattened_length(args, byte_sizes(types));
}

/// Under validation, the return of a WebAssembly function adds exactly one event
/// to a recording: of a call that succeeded it holds for each result type that
/// has a value as many of the value's lowest bytes as the type takes up, and of
/// one that failed the message of its error.  The outcome is passed on.
pub proof fn law_recorded_wasm_return(
    rec: RecordView,
    origin: WasmFuncOrigin,
    called: Result<(), ErrorView>,
    results: Seq<ValRaw>,
    ty: FuncTypeView,
)
    requires
        rec.failure is None,
        rec.add_validation,
    ensures
        ({
            let (state, result) = wasm_return(
                StateView::Recording(rec),
                Some(origin),
                called,
                results,
                ty,
            );
            &&& result == called
            &&& state matches StateView::Recording(after)
            &&& after.add_validation == rec.add_validation
            &&& after.failure is None
            &&& after.events.len() == rec.events.len() + 1
            &&& rec.events.is_prefix_of(after.events)
            &&& after.events.last() matches EventView::WasmFuncReturn { ret }
            &&& called matches Err(error) ==> ret == Err::<ArgValsView, Seq<char>>(error.text())
            &&& called is Ok ==> {
                &&& ret matches Ok(vals)
                &&& vals.sizes.len() == if results.len() < ty.results.len() {
                    results.len()
                } else {
                    ty.results.len()
                }
                &&& forall|i: int|
                    0 <= i < vals.sizes.len() ==> #[trigger] vals.sizes[i]
                        == ty.results[i].spec_byte_size()
                &&& forall|i: int|
                    0 <= i < vals.sizes.len() ==> #[trigger] vals.chunk(i)
                        == results[i].bytes@.take(ty.results[i].spec_byte_size() as int)
                &&& vals.bytes.len() == offset(vals.sizes, vals.sizes.len() as int)
                &&& vals.well_formed()
            }
        }),
{
    let event = wasm_return_event(called, results, ty);
    assert(rec.events =~= rec.events.push(event).subrange(0, rec.events.len() as int));
    lemma_flattened_by_types(results, ty.results);
}

proof fn lemma_same_values(a: Seq<ValRaw>, b: Seq<ValRaw>, types: Seq<ValType>)
    requires
        a.len() == b.len(),
        a.len() <= types.len(),
    ensures
        flattened(a, byte_sizes(types)) == flattened(b, byte_sizes(types)) <==> forall|
            i: int,
            k: int,
        |
            0 <= i < a.len() && 0 <= k < types[i].spec_byte_size() ==> #[trigger] a[i].bytes@[k]
                == b[i].bytes@[k],
{
    let n = a.len() as int;
    let sizes = byte_sizes(types);
    let taken = sizes.take(n);
    law_flattened_ignores_the_rest(a, Seq::empty(), taken, sizes.skip(n));
    law_flattened_ignores_the_rest(b, Seq::empty(), taken, sizes.skip(n));
    assert(a + Seq::empty() =~= a);
    assert(b + Seq::empty() =~= b);
    assert(taken + sizes.skip(n) =~= sizes);
    law_flattened_tells_values_apart(a, b, taken);
    if flattened(a, taken) == flattened(b, taken) {
        assert forall|i: int, k: int|
            0 <= i < a.len() && 0 <= k < types[i].spec_byte_size() implies #[trigger] a[i].bytes@[k]
            == b[i].bytes@[k] by {
            let size = taken[i] as int;
            assert(a[i].flat().take(size) == b[i].flat().take(size));
            assert(a[i].flat().take(size)[k] == a[i].bytes@[k]);
            assert(b[i].flat().take(size)[k] == b[i].bytes@[k]);
        }
    } else {
        let i = choose|i: int|
            0 <= i < taken.len() && (#[trigger] a[i]).flat().take(taken[i] as int)
                != b[i].flat().take(taken[i] as int);
        let size = taken[i] as int;
        if forall|k: int|
            0 <= k < types[i].spec_byte_size() ==> #[trigger] a[i].bytes@[k] == b[i].bytes@[k] {
            assert(a[i].flat().take(size) =~= b[i].flat().take(size));
        }
    }
}

/// A call of a WebAssembly function that is held against the recording of
/// another call of a function of the same type passes exactly if both succeeded
/// and agree on every byte that counts of every result, or both failed with the
/// same message.  Its own outcome is then passed on.
pub proof fn law_wasm_returns_agree(
    rec: RecordView,
    origin: WasmFuncOrigin,
    called: Result<(), ErrorView>,
    results: Seq<ValRaw>,
    rep: ReplayView,
    again_origin: WasmFuncOrigin,
    again: Result<(), ErrorView>,
    again_results: Seq<ValRaw>,
    ty: FuncTypeView,
)
    requires
        rec.failure is None,
        rec.add_validation,
        rep.add_validation,
        rep.remaining.len() > 0,
        wasm_return(
            StateView::Recording(rec),
            Some(origin),
            called,
            results,
            ty,
        ).0 matches StateView::Recording(after) && rep.remaining[0] == after.events.last(),
    ensures
        ({
            let (state, result) = wasm_return(
                StateView::Replaying(rep),
                Some(again_origin),
                again,
                again_results,
                ty,
            );
            let types = ty.results.len();
            let n = if results.len() < types { results.len() } else { types };
            let again_n = if again_results.len() < types { again_results.len() } else { types };
            let agree = match (called, again) {
                (Ok(_), Ok(_)) => n == again_n && forall|i: int, k: int|
                    0 <= i < n && 0 <= k < ty.results[i].spec_byte_size()
                        ==> #[trigger] results[i].bytes@[k] == again_results[i].bytes@[k],
                (Err(a), Err(b)) => a.text() == b.text(),
                _ => false,
            };
            &&& agree ==> result == again
            &&& !agree ==> result == Err::<(), ErrorView>(
                ErrorView::Replay(ReplayError::FailedValidation),
            )
            &&& state == StateView::Replaying(
                ReplayView { remaining: rep.remaining.skip(1), ..rep },
            )
        }),
{
    law_recorded_wasm_return(rec, origin, called, results, ty);
    law_validation(rep, wasm_return_event(again, again_results, ty));
    let sizes = byte_sizes(ty.results);
    lemma_flattened_by_types(results, ty.results);
    lemma_flattened_by_types(again_results, ty.results);
    let vals = flattened(results, sizes);
    let again_vals = flattened(again_results, sizes);
    let n = vals.sizes.len() as int;
    if n == again_vals.sizes.len() {
        let a = results.take(n);
        let b = again_results.take(n);
        let rest = sizes.skip(n);
        law_flattened_ignores_the_rest(a, results.skip(n), sizes.take(n), rest);
        law_flattened_ignores_the_rest(b, again_results.skip(n), sizes.take(n), rest);
        law_flattened_ignores_the_rest(a, Seq::empty(), sizes.take(n), rest);
        law_flattened_ignores_the_rest(b, Seq::empty(), sizes.take(n), rest);
        assert(a + results.skip(n) =~= results);
        assert(b + again_results.skip(n) =~= again_results);
        assert(a + Seq::empty() =~= a);
        assert(b + Seq::empty() =~= b);
        assert(sizes.take(n) + rest =~= sizes);
        lemma_same_values(a, b, ty.results);
        if forall|i: int, k: int|
            0 <= i < n && 0 <= k < ty.results[i].spec_byte_size() ==> #[trigger] results[i].bytes@[k]
                == again_results[i].bytes@[k] {
            assert forall|i: int, k: int|
                0 <= i < n && 0 <= k < ty.results[i].spec_byte_size() implies #[trigger] a[i].bytes@[k]
                == b[i].bytes@[k] by {
                assert(results[i].bytes@[k] == again_results[i].bytes@[k]);
            }
        }
        if vals == again_vals {
            assert forall|i: int, k: int|
                0 <= i < n && 0 <= k < ty.results[i].spec_byte_size() implies #[trigger] results[i].bytes@[k]
                == again_results[i].bytes@[k] by {
                assert(a[i].bytes@[k] == b[i].bytes@[k]);
            }
        }
    }
}

/// Where a trace is at its end, or goes on with an event of another kind, a call
/// of a host function and the return of a WebAssembly function both fail.
pub proof fn law_nothing_to_agree_with(
    rep: ReplayView,
    vals: ArgValsView,
    origin: WasmFuncOrigin,
    called: Result<(), ErrorView>,
    results: Seq<ValRaw>,
    ty: FuncTypeView,
)
    requires
        rep.add_validation,
    ensures
        rep.remaining.len() == 0 ==> {
            let ended = (
                StateView::Replaying(rep),
                Err::<(), ErrorView>(ErrorView::Replay(ReplayError::EmptyBuffer)),
            );
            &&& host_entry(StateView::Replaying(rep), vals) == ended
            &&& wasm_return(StateView::Replaying(rep), Some(origin), called, results, ty) == ended
        },
        rep.remaining.len() > 0 ==> {
            let other = (
                StateView::Replaying(ReplayView { remaining: rep.remaining.skip(1), ..rep }),
                Err::<(), ErrorView>(ErrorView::Replay(ReplayError::IncorrectEventVariant)),
            );
            &&& !(rep.remaining[0] is HostFuncEntry) ==> host_entry(
                StateView::Replaying(rep),
                vals,
            ) == other
            &&& !(rep.remaining[0] is WasmFuncReturn) ==> wasm_return(
                StateView::Replaying(rep),
                Some(origin),
                called,
                results,
                ty,
            ) == other
        },
{
    if rep.remaining.len() > 0 {
        assert(rep.remaining.skip(1) =~= rep.remaining.drop_first());
    }
}

/// A trace's call of a WebAssembly function is refused exactly if the instance
/// is missing, or has no such function, or the trace holds fewer arguments than
/// the function takes.
pub proof fn law_refused_calls(
    rep: ReplayView,
    instance: RRModuleInstanceId,
    func_index: FuncIndex,
    args: ArgValsView,
)
    ensures
        ({
            let refused = call_refused(StateView::Replaying(rep), instance, func_index, args);
            if !rep.instances.dom().contains(instance.0) {
                refused == Some(ErrorView::Replay(ReplayError::MissingModuleInstance(instance)))
            } else if rep.instances[instance.0].len() <= func_index.0 {
                refused == Some(
                    ErrorView::Replay(
                        ReplayError::InvalidCoreFuncIndex(EntityIndex::Function(func_index)),
                    ),
                )
            } else {
                let n = rep.instances[instance.0][func_index.0 as int].params.len();
                &&& refused is Some <==> args.sizes.len() < n
                &&& refused matches Some(error) ==> error == (ErrorView::ArgumentCount {
                    expected: n,
                    given: args.sizes.len(),
                })
            }
        }),
{
}

/// The calls that a replay may ask for are those of a function of its instances,
/// with as many arguments of the right types as the function takes, and as much
/// room for results as it has result types, filled with the `I64` zero.
pub proof fn law_callable(rep: ReplayView, call: WasmCall)
    ensures
        callable(StateView::Replaying(rep), call) <==> {
            let funcs = rep.instances[call.instance.0];
            let ty = funcs[call.func_index.0 as int];
            &&& rep.instances.dom().contains(call.instance.0)
            &&& call.func_index.0 < funcs.len()
            &&& call.params@.len() == ty.params.len()
            &&& forall|i: int|
                0 <= i < ty.params.len() ==> (#[trigger] call.params@[i]).ty == ty.params[i]
            &&& call.results@.len() == ty.results.len()
            &&& forall|i: int|
                0 <= i < ty.results.len() ==> (#[trigger] call.results@[i]).ty == ValType::I64
            &&& forall|i: int, k: int|
                0 <= i < ty.results.len() && 0 <= k < 16
                    ==> #[trigger] call.results@[i].raw.bytes@[k] == 0
        },
{
    let funcs = rep.instances[call.instance.0];
    let ty = funcs[call.func_index.0 as int];
    let types = call.params@.map_values(|val: Val| val.ty);
    if callable(StateView::Replaying(rep), call) {
        assert forall|i: int| 0 <= i < ty.params.len() implies (#[trigger] call.params@[i]).ty
            == ty.params[i] by {
            assert(types[i] == ty.params[i]);
        }
        assert forall|i: int, k: int|
            0 <= i < ty.results.len() && 0 <= k < 16 implies #[trigger] call.results@[i].raw.bytes@[k]
            == 0 by {
            assert(call.results@[i].raw.flat()[k] == 0);
        }
    } else {
        if call.params@.len() == ty.params.len() && forall|i: int|
            0 <= i < ty.params.len() ==> (#[trigger] call.params@[i]).ty == ty.params[i] {
            assert(types =~= ty.params);
        }
        if call.results@.len() == ty.results.len() && (forall|i: int|
            0 <= i < ty.results.len() ==> (#[trigger] call.results@[i]).ty == ValType::I64) && (
        forall|i: int, k: int|
            0 <= i < ty.results.len() && 0 <= k < 16 ==> #[trigger] call.results@[i].raw.bytes@[k]
                == 0) {
            assert forall|i: int| 0 <= i < call.results@.len() implies
                is_i64_zero(#[trigger] call.results@[i]) by {
                assert(call.results@[i].raw.flat() =~= zero_padded(Seq::empty()));
            }
        }
    }
}

/// A replay makes a trace's call of a WebAssembly function as the trace says: of
/// the function that it names, with its type, the trace's arguments with zeros
/// above their sizes, and zeros for all of its results.
pub proof fn law_traced_call(
    rep: ReplayView,
    instance: RRModuleInstanceId,
    func_index: FuncIndex,
    args: ArgValsView,
    call: WasmCall,
)
    requires
        is_traced_call(StateView::Replaying(rep), instance, func_index, args, call),
        args.readable(call.params@.len() as int),
    ensures
        call.instance == instance,
        call.func_index == func_index,
        rep.instances.dom().contains(instance.0),
        func_index.0 < rep.instances[instance.0].len(),
        ({
            let ty = rep.instances[instance.0][func_index.0 as int];
            &&& ty.params.len() <= args.sizes.len()
            &&& call.params@.len() == ty.params.len()
            &&& forall|i: int|
                0 <= i < ty.params.len() ==> (#[trigger] call.params@[i]).ty == ty.params[i]
            &&& forall|i: int, k: int|
                0 <= i < ty.params.len() && 0 <= k < 16
                    ==> #[trigger] call.params@[i].raw.bytes@[k] == if k < args.sizes[i] {
                    args.bytes[offset(args.sizes, i) + k]
                } else {
                    0
                }
            &&& call.results@.len() == ty.results.len()
            &&& forall|i: int|
                0 <= i < ty.results.len() ==> (#[trigger] call.results@[i]).ty == ValType::I64
            &&& forall|i: int, k: int|
                0 <= i < ty.results.len() && 0 <= k < 16
                    ==> #[trigger] call.results@[i].raw.bytes@[k] == 0
        }),
{
    law_callable(rep, call);
    let ty = rep.instances[instance.0][func_index.0 as int];
    assert forall|i: int, k: int|
        0 <= i < ty.params.len() && 0 <= k < 16 implies #[trigger] call.params@[i].raw.bytes@[k]
        == if k < args.sizes[i] {
        args.bytes[offset(args.sizes, i) + k]
    } else {
        0
    } by {
        law_readable_prefix(args, i + 1, call.params@.len() as int);
        law_chunk(args, i);
        assert(call.params@[i].raw.flat() == zero_padded(args.chunk(i)));
        assert(call.params@[i].raw.flat()[k] == zero_padded(args.chunk(i))[k]);
        if k < args.sizes[i] {
            assert(args.chunk(i)[k] == args.bytes[offset(args.sizes, i) + k]);
        }
    }
}

/// The call of a WebAssembly function that a recording took down is made again
/// by a replay whose instance has a function of that type in the same place: it
/// is not refused, and it has every argument that was recorded, cut to the width
/// of its type, and room for every result.
pub proof fn law_recorded_call_is_made_again(
    rec: RecordView,
    origin: WasmFuncOrigin,
    args: Seq<ValRaw>,
    ty: FuncTypeView,
    rep: ReplayView,
    call: WasmCall,
)
    requires
        rec.failure is None,
        args.len() >= ty.params.len(),
        rep.instances.dom().contains(origin.instance.0),
        origin.index.0 < rep.instances[origin.instance.0].len(),
        rep.instances[origin.instance.0][origin.index.0 as int] == ty,
    ensures
        ({
            let state = StateView::Replaying(rep);
            &&& wasm_entry(
                StateView::Recording(rec),
                Some(origin),
                args,
                ty,
            ).0 matches StateView::Recording(after)
            &&& after.events.last() matches EventView::CoreWasmFuncEntry {
                instance,
                func_index,
                args: vals,
            }
            &&& call_refused(state, instance, func_index, vals) is None
            &&& is_traced_call(state, instance, func_index, vals, call) ==> {
                &&& call.instance.0 == origin.instance.0
                &&& call.func_index == origin.index
                &&& call.params@.len() == ty.params.len()
                &&& forall|i: int|
                    0 <= i < ty.params.len() ==> (#[trigger] call.params@[i]).ty == ty.params[i]
                &&& forall|i: int, k: int|
                    0 <= i < ty.params.len() && 0 <= k < 16
                        ==> #[trigger] call.params@[i].raw.bytes@[k] == if k
                        < ty.params[i].spec_byte_size() {
                        args[i].bytes@[k]
                    } else {
                        0
                    }
                &&& call.results@.len() == ty.results.len()
                &&& forall|i: int|
                    0 <= i < ty.results.len() ==> (#[trigger] call.results@[i]).ty == ValType::I64
                &&& forall|i: int, k: int|
                    0 <= i < ty.results.len() && 0 <= k < 16
                        ==> #[trigger] call.results@[i].raw.bytes@[k] == 0
            }
        }),
{
    law_recorded_wasm_entry(rec, origin, args, ty);
    let state = StateView::Replaying(rep);
    let vals = flattened(args, byte_sizes(ty.params));
    let instance = RRModuleInstanceId(origin.instance.0);
    let after = wasm_entry(StateView::Recording(rec), Some(origin), args, ty).0->Recording_0;
    assert(after.events.last() == EventView::CoreWasmFuncEntry {
        instance,
        func_index: origin.index,
        args: vals,
    });
    if is_traced_call(state, instance, origin.index, vals, call) {
        law_callable(rep, call);
        law_traced_call(rep, instance, origin.index, vals, call);
        assert forall|i: int, k: int|
            0 <= i < ty.params.len() && 0 <= k < 16 implies #[trigger] call.params@[i].raw.bytes@[k]
            == if k < ty.params[i].spec_byte_size() {
            args[i].bytes@[k]
        } else {
            0
        } by {
            lemma_readable_prefix(vals, i + 1);
            law_chunk(vals, i);
            assert(vals.sizes[i] == ty.params[i].spec_byte_size());
            if k < vals.sizes[i] {
                assert(vals.chunk(i)[k] == vals.bytes[offset(vals.sizes, i) + k]);
                assert(vals.chunk(i)[k] == args[i].bytes@.take(vals.sizes[i] as int)[k]);
            }
        }
    }
}

/// In a run of calls that the replay of a host function's return makes, every
/// call starts from where the one before it ended, the first from the beginning,
/// with the next event of the trace, which asks for this very call; and all but
/// the last succeed.
pub proof fn law_chain<U>(start: Store<U>, run: Seq<Reentry<U>>, i: int)
    requires
        chained(start, run),
        0 <= i < run.len(),
    ensures
        ({
            let at = if i == 0 { start } else { run[i - 1].after };
            &&& at.opaque@ matches StateView::Replaying(rep)
            &&& rep.remaining.len() > 0
            &&& rep.remaining[0] matches EventView::CoreWasmFuncEntry {
                instance,
                func_index,
                args,
            }
            &&& run[i].before.opaque@ == StateView::Replaying(
                ReplayView { remaining: rep.remaining.skip(1), ..rep },
            )
            &&& run[i].before.data == at.data
            &&& is_traced_call(run[i].before.opaque@, instance, func_index, args, run[i].call)
        }),
        i < run.len() - 1 ==> run[i].result is Ok,
        reached(start, run) == run[run.len() - 1].after,
    decreases i,
{
    if i == 0 {
        let rep = start.opaque@->Replaying_0;
        assert(rep.remaining.skip(1) =~= rep.remaining.drop_first());
    } else {
        let later = run.drop_first();
        law_chain(run[0].after, later, i - 1);
        assert(later[i - 1] == run[i]);
        if i > 1 {
            assert(later[i - 2] == run[i - 1]);
        }
    }
}

/// Without any call, the replay of a host function's return is where it started.
pub proof fn law_empty_chain<U>(start: Store<U>)
    ensures
        chained(start, Seq::empty()),
        reached(start, Seq::empty()) == start,
{
}

/// The replay of a host function's return ends with the next event of the trace.
/// Only the return of a host function is success: it puts the recorded values in
/// place.  In every other case the values are left alone, and the error says what
/// stood in the way.
pub proof fn law_replay_end<U, T: FlatBytes>(
    at: Store<U>,
    rep: ReplayView,
    args: Seq<T>,
    later: Store<U>,
    results: Seq<T>,
    result: Result<(), Error>,
)
    requires
        at.opaque@ == StateView::Replaying(rep),
        replay_ends(at, args, later, results, result),
    ensures
        later.data == at.data,
        rep.remaining.len() == 0 ==> {
            &&& outcome(result) == Err::<(), ErrorView>(ErrorView::Replay(ReplayError::EmptyBuffer))
            &&& later.opaque@ == at.opaque@
            &&& results == args
        },
        rep.remaining.len() > 0 ==> {
            let event = rep.remaining[0];
            &&& later.opaque@ == StateView::Replaying(
                ReplayView { remaining: rep.remaining.skip(1), ..rep },
            )
            &&& result is Ok <==> event is HostFuncReturn
            &&& !(event is HostFuncReturn) ==> results == args
            &&& (event is CoreWasmInstantiation || event is HostFuncEntry || event is WasmFuncReturn)
                ==> outcome(result) == Err::<(), ErrorView>(ErrorView::UnexpectedEvent(event))
            &&& event matches EventView::CoreWasmFuncEntry { instance, func_index, args: vals } ==> {
                &&& call_refused(later.opaque@, instance, func_index, vals) is Some
                &&& outcome(result) == Err::<(), ErrorView>(
                    call_refused(later.opaque@, instance, func_index, vals)->Some_0,
                )
            }
        },
{
    if rep.remaining.len() > 0 {
        assert(rep.remaining.skip(1) =~= rep.remaining.drop_first());
    }
}

/// When the replay of a host function's return ends in the recorded return, slot
/// `i` holds the bytes of recorded value `i` with zeros above its size, or what it
/// held before if fewer values were recorded.
pub proof fn law_replayed_results<U, T: FlatBytes>(
    at: Store<U>,
    rep: ReplayView,
    vals: ArgValsView,
    args: Seq<T>,
    later: Store<U>,
    results: Seq<T>,
    result: Result<(), Error>,
    i: int,
)
    requires
        at.opaque@ == StateView::Replaying(rep),
        rep.remaining.len() > 0,
        rep.remaining[0] == (EventView::HostFuncReturn { args: vals }),
        vals.well_formed(),
        replay_ends(at, args, later, results, result),
        0 <= i < args.len(),
    ensures
        results.len() == args.len(),
        vals.sizes.len() <= i ==> results[i] == args[i],
        i < vals.sizes.len() ==> forall|k: int|
            0 <= k < 16 ==> #[trigger] results[i].flat()[k] == if k < vals.sizes[i] {
                vals.bytes[offset(vals.sizes, i) + k]
            } else {
                0
            },
{
    if i < vals.sizes.len() {
        lemma_readable_prefix(vals, i + 1);
    }
    law_overwritten(vals, args, results, i);
}

/// A replay has gone on to the return of a host function exactly if it took
/// events from its trace and the last that it took is such a return.
pub proof fn law_consumed_host_return(a: ReplayView, b: ReplayView)
    ensures
        consumed_host_return(StateView::Replaying(a), StateView::Replaying(b)) <==> {
            let n = a.remaining.len() - b.remaining.len();
            &&& n > 0
            &&& a.remaining == a.remaining.take(n) + b.remaining
            &&& a.remaining.take(n).last() is HostFuncReturn
        },
{
    let x = StateView::Replaying(ReplayView { add_validation: true, ..a });
    let y = StateView::Replaying(ReplayView { add_validation: true, ..b });
    law_leads_to(x, y);
}

/// The instantiation of a module adds exactly one event to a recording: the
/// module's checksum, byte for byte, and the instance.
pub proof fn law_recorded_instantiation(rec: RecordView, module: Seq<u8>, instance: u32)
    requires
        rec.failure is None,
    ensures
        ({
            let (state, result) = instantiation(StateView::Recording(rec), module, instance);
            &&& result is Ok
            &&& state matches StateView::Recording(after)
            &&& after.add_validation == rec.add_validation
            &&& after.failure is None
            &&& after.events.len() == rec.events.len() + 1
            &&& rec.events.is_prefix_of(after.events)
            &&& after.events.last() matches EventView::CoreWasmInstantiation {
                module: recorded,
                instance: id,
            }
            &&& id.0 == instance
            &&& recorded.len() == module.len()
            &&& forall|k: int| 0 <= k < module.len() ==> #[trigger] recorded[k] == module[k]
        }),
{
    let event = EventView::CoreWasmInstantiation { module, instance: RRModuleInstanceId(instance) };
    assert(rec.events =~= rec.events.push(event).subrange(0, rec.events.len() as int));
}

/// A replayed instantiation passes exactly if the checksum that the replay was
/// told of agrees with the module's in every byte, and the instances are the
/// same.  Either way the replay is done with it, and nothing else changes.
pub proof fn law_replayed_instantiation(
    rep: ReplayView,
    told_module: Seq<u8>,
    told_instance: u32,
    module: Seq<u8>,
    instance: u32,
)
    requires
        rep.current_instantiation == Some(
            EventView::CoreWasmInstantiation {
                module: told_module,
                instance: RRModuleInstanceId(told_instance),
            },
        ),
    ensures
        ({
            let (state, result) = instantiation(StateView::Replaying(rep), module, instance);
            let agree = {
                &&& told_instance == instance
                &&& told_module.len() == module.len()
                &&& forall|k: int|
                    0 <= k < module.len() ==> #[trigger] told_module[k] == module[k]
            };
            &&& agree ==> result is Ok
            &&& !agree ==> result == Err::<(), ErrorView>(
                ErrorView::Replay(ReplayError::FailedValidation),
            )
            &&& state matches StateView::Replaying(after)
            &&& after.current_instantiation is None
            &&& after.add_validation == rep.add_validation
            &&& after.remaining == rep.remaining
            &&& after.instances == rep.instances
        }),
{
    if told_module.len() == module.len() && forall|k: int|
        0 <= k < module.len() ==> #[trigger] told_module[k] == module[k] {
        assert(told_module =~= module);
    }
}

/// Taking the instantiation that a replay was told of changes nothing else, and
/// no store but one that replays.
pub proof fn law_instantiation_taken(state: StateView)
    ensures
        match (state, state.instantiation_taken()) {
            (StateView::Replaying(rep), StateView::Replaying(after)) => {
                &&& after.current_instantiation is None
                &&& after.add_validation == rep.add_validation
                &&& after.remaining == rep.remaining
                &&& after.instances == rep.instances
            },
            (StateView::Replaying(_), _) => false,
            (_, after) => after == state,
        },
{
}

} // verus!
