//! What the mathematical forms and the texts of values, types, events and errors
//! hold, in terms of the data that they stand for.
use crate::args::{
    flat_bytes, flattened, lemma_offset_monotonic, min_len, offset, overwritten, slots_fit, typed_as,
    ArgValsView, RRFuncArgVals,
};
use crate::error::{outcome, EntityIndex, Error, ErrorView, ReplayError};
use crate::events::{
    result_view, return_of, EventView, HostFuncEntryEvent, HostFuncReturnEvent, InstantiationEvent,
    RREvent, RRModuleInstanceId, ResultEvent, WasmFuncEntryEvent, WasmFuncReturnEvent,
};
use crate::laws::law_flattened_can_be_read;
use crate::module::Module;
use crate::store::{event_views, Instance, StateView};
use crate::text::{arg_vals, byte_list, decimal};
use crate::values::{byte_sizes, zero_padded, FlatBytes, FuncType, Val, ValRaw, ValType, SLOT_WIDTH};
use vstd::prelude::*;
use vstd::std_specs::convert::TryFromSpec;

verus! {

/// A value takes up the number of bytes that its type has in WebAssembly: a
/// vector is twice as wide as a long number or reference, and that twice as
/// wide as a short one.
pub proof fn law_byte_size(ty: ValType)
    ensures
        ty.spec_byte_size() <= SLOT_WIDTH,
        ty.spec_byte_size() == 4 <==> ty == ValType::I32 || ty == ValType::F32 || ty
            == ValType::Ref32,
        ty.spec_byte_size() == 8 <==> ty == ValType::I64 || ty == ValType::F64 || ty
            == ValType::Ref64,
        ty.spec_byte_size() == 16 <==> ty == ValType::V128,
{
}

/// The sizes of a list of types are the sizes of each.
pub proof fn law_byte_sizes(types: Seq<ValType>)
    ensures
        byte_sizes(types).len() == types.len(),
        forall|i: int|
            0 <= i < types.len() ==> #[trigger] byte_sizes(types)[i] == types[i].spec_byte_size(),
{
}

/// Padding keeps the bytes and adds zeros up to the width of a slot.
pub proof fn law_zero_padded(bytes: Seq<u8>)
    requires
        bytes.len() <= SLOT_WIDTH,
    ensures
        zero_padded(bytes).len() == 16,
        bytes.is_prefix_of(zero_padded(bytes)),
        forall|k: int| bytes.len() <= k < 16 ==> #[trigger] zero_padded(bytes)[k] == 0,
{
    assert(bytes =~= zero_padded(bytes).subrange(0, bytes.len() as int));
}

/// The flat form of a raw value is the bytes of its slot, lowest first.
pub proof fn law_raw_value_is_flat(value: ValRaw)
    ensures
        value.flat().len() == 16,
        forall|k: int| 0 <= k < 16 ==> #[trigger] value.flat()[k] == value.bytes@[k],
{
}

/// The smaller of two lengths is one of them, and not above the other.
pub proof fn law_min_len(a: nat, b: nat)
    ensures
        min_len(a, b) <= a,
        min_len(a, b) <= b,
        min_len(a, b) == a || min_len(a, b) == b,
{
}

/// A value begins where the sizes of those before it add up to.
pub proof fn law_offset_is_sum(sizes: Seq<u8>, i: int)
    requires
        0 <= i <= sizes.len(),
    ensures
        offset(sizes, i) == sizes.take(i).fold_left(0int, |sum: int, size: u8| sum + size),
    decreases i,
{
    if i > 0 {
        law_offset_is_sum(sizes, i - 1);
        assert(sizes.take(i).drop_last() =~= sizes.take(i - 1));
    }
}

/// A value of a list is as many of the list's bytes as its size says, from where
/// it begins.
pub proof fn law_chunk(vals: ArgValsView, i: int)
    requires
        vals.readable(i + 1),
        0 <= i < vals.sizes.len(),
    ensures
        vals.chunk(i).len() == vals.sizes[i],
        forall|k: int|
            0 <= k < vals.sizes[i] ==> #[trigger] vals.chunk(i)[k] == vals.bytes[offset(
                vals.sizes,
                i,
            ) + k],
{
    lemma_offset_monotonic(vals.sizes, i, i + 1);
}

/// The first values of a list can be read exactly if each of them fits a slot
/// and the bytes are as many as their sizes add up to, or more; and the whole
/// list can be read exactly if all of its values can.
pub proof fn law_readable_values(vals: ArgValsView, n: int)
    requires
        0 <= n <= vals.sizes.len(),
    ensures
        vals.readable(n) <==> {
            &&& forall|i: int| 0 <= i < n ==> #[trigger] vals.sizes[i] <= 16
            &&& vals.sizes.take(n).fold_left(0int, |sum: int, size: u8| sum + size)
                <= vals.bytes.len()
        },
        vals.well_formed() <==> {
            &&& forall|i: int| 0 <= i < vals.sizes.len() ==> #[trigger] vals.sizes[i] <= 16
            &&& vals.sizes.fold_left(0int, |sum: int, size: u8| sum + size) <= vals.bytes.len()
        },
{
    law_offset_is_sum(vals.sizes, n);
    law_offset_is_sum(vals.sizes, vals.sizes.len() as int);
    assert(vals.sizes.take(vals.sizes.len() as int) =~= vals.sizes);
}

/// Where the first `m` values of a list can be read, so can fewer of them.
pub proof fn law_readable_prefix(vals: ArgValsView, n: int, m: int)
    requires
        vals.readable(m),
        0 <= n <= m,
    ensures
        vals.readable(n),
{
    lemma_offset_monotonic(vals.sizes, n, m);
}

/// Sizes fit as far as they are looked at if none of these exceeds sixteen.
pub proof fn law_slots_fit(sizes: Seq<u8>, n: int)
    requires
        0 <= n,
    ensures
        slots_fit(sizes, n) <==> forall|i: int|
            0 <= i < sizes.take(if n <= sizes.len() { n } else { sizes.len() as int }).len()
                ==> #[trigger] sizes[i] <= 16,
{
}

/// One value in its trace form is its size and that many of its lowest bytes.
pub proof fn law_flattened_one<T: FlatBytes>(value: T, size: u8)
    ensures
        flattened(seq![value], seq![size]).sizes == seq![size],
        flattened(seq![value], seq![size]).bytes == value.flat().take(size as int),
{
    let sizes = seq![size];
    assert(sizes.take(1) =~= sizes);
    assert(sizes.drop_last() =~= Seq::empty());
    assert(flat_bytes(seq![value], sizes.drop_last()) =~= Seq::empty());
    assert(flattened(seq![value], sizes).bytes =~= value.flat().take(size as int));
}

proof fn lemma_flat_bytes_append<T: FlatBytes>(
    a: Seq<T>,
    a_sizes: Seq<u8>,
    b: Seq<T>,
    b_sizes: Seq<u8>,
)
    requires
        a.len() == a_sizes.len(),
        b.len() >= b_sizes.len(),
    ensures
        flat_bytes(a + b, a_sizes + b_sizes) == flat_bytes(a, a_sizes) + flat_bytes(b, b_sizes),
    decreases b_sizes.len(),
{
    if b_sizes.len() == 0 {
        assert(a_sizes + b_sizes =~= a_sizes);
        lemma_flat_bytes_prefix(a + b, a, a_sizes);
        assert(flat_bytes(a, a_sizes) + flat_bytes(b, b_sizes) =~= flat_bytes(a, a_sizes));
    } else {
        let all = a_sizes + b_sizes;
        assert(all.drop_last() =~= a_sizes + b_sizes.drop_last());
        lemma_flat_bytes_append(a, a_sizes, b, b_sizes.drop_last());
        assert((a + b)[all.len() - 1] == b[b_sizes.len() - 1]);
        assert(flat_bytes(a + b, all) =~= flat_bytes(a, a_sizes) + flat_bytes(b, b_sizes));
    }
}

proof fn lemma_flat_bytes_prefix<T: FlatBytes>(a: Seq<T>, b: Seq<T>, sizes: Seq<u8>)
    requires
        sizes.len() <= a.len(),
        sizes.len() <= b.len(),
        forall|i: int| 0 <= i < sizes.len() ==> a[i] == b[i],
    ensures
        flat_bytes(a, sizes) == flat_bytes(b, sizes),
    decreases sizes.len(),
{
    if sizes.len() > 0 {
        lemma_flat_bytes_prefix(a, b, sizes.drop_last());
    }
}

/// The trace form of two lists one after the other is that of the first,
/// followed by that of the second.
pub proof fn law_flattened_append<T: FlatBytes>(
    a: Seq<T>,
    a_sizes: Seq<u8>,
    b: Seq<T>,
    b_sizes: Seq<u8>,
)
    requires
        a.len() == a_sizes.len(),
        b.len() == b_sizes.len(),
    ensures
        flattened(a + b, a_sizes + b_sizes).sizes == flattened(a, a_sizes).sizes + flattened(
            b,
            b_sizes,
        ).sizes,
        flattened(a + b, a_sizes + b_sizes).bytes == flattened(a, a_sizes).bytes + flattened(
            b,
            b_sizes,
        ).bytes,
{
    let sizes = a_sizes + b_sizes;
    assert(sizes.take(sizes.len() as int) =~= sizes);
    assert(a_sizes.take(a_sizes.len() as int) =~= a_sizes);
    assert(b_sizes.take(b_sizes.len() as int) =~= b_sizes);
    lemma_flat_bytes_append(a, a_sizes, b, b_sizes);
}

/// Values without a size, and sizes without a value, do not bear on the trace
/// form.
pub proof fn law_flattened_ignores_the_rest<T: FlatBytes>(
    args: Seq<T>,
    more_args: Seq<T>,
    sizes: Seq<u8>,
    more_sizes: Seq<u8>,
)
    requires
        args.len() == sizes.len(),
        more_args.len() == 0 || more_sizes.len() == 0,
    ensures
        flattened(args + more_args, sizes + more_sizes) == flattened(args, sizes),
        flattened(args, sizes).sizes == sizes,
{
    let n = sizes.len() as int;
    assert((sizes + more_sizes).take(n) =~= sizes);
    assert(sizes.take(n) =~= sizes);
    lemma_flat_bytes_prefix(args + more_args, args, sizes);
    assert(min_len((args + more_args).len(), (sizes + more_sizes).len()) == n);
}

/// Two lists of values have the same trace form under the same sizes exactly if
/// they agree on every byte that the sizes say counts.
pub proof fn law_flattened_tells_values_apart<T: FlatBytes>(a: Seq<T>, b: Seq<T>, sizes: Seq<u8>)
    requires
        a.len() == sizes.len(),
        b.len() == sizes.len(),
        slots_fit(sizes, sizes.len() as int),
    ensures
        flattened(a, sizes) == flattened(b, sizes) <==> forall|i: int|
            0 <= i < sizes.len() ==> (#[trigger] a[i]).flat().take(sizes[i] as int)
                == b[i].flat().take(sizes[i] as int),
{
    law_flattened_can_be_read(a, sizes);
    law_flattened_can_be_read(b, sizes);
    if flattened(a, sizes) == flattened(b, sizes) {
        assert forall|i: int| 0 <= i < sizes.len() implies (#[trigger] a[i]).flat().take(
            sizes[i] as int,
        ) == b[i].flat().take(sizes[i] as int) by {
            assert(flattened(a, sizes).chunk(i) == flattened(b, sizes).chunk(i));
        }
    } else if forall|i: int|
        0 <= i < sizes.len() ==> (#[trigger] a[i]).flat().take(sizes[i] as int)
            == b[i].flat().take(sizes[i] as int) {
        assert(sizes.take(sizes.len() as int) =~= sizes);
        lemma_flat_bytes_agree(a, b, sizes);
    }
}

proof fn lemma_flat_bytes_agree<T: FlatBytes>(a: Seq<T>, b: Seq<T>, sizes: Seq<u8>)
    requires
        sizes.len() <= a.len(),
        sizes.len() <= b.len(),
        forall|i: int|
            0 <= i < sizes.len() ==> (#[trigger] a[i]).flat().take(sizes[i] as int)
                == b[i].flat().take(sizes[i] as int),
    ensures
        flat_bytes(a, sizes) == flat_bytes(b, sizes),
    decreases sizes.len(),
{
    if sizes.len() > 0 {
        let front = sizes.drop_last();
        assert forall|i: int| 0 <= i < front.len() implies (#[trigger] a[i]).flat().take(
            front[i] as int,
        ) == b[i].flat().take(front[i] as int) by {
            assert(front[i] == sizes[i]);
        }
        lemma_flat_bytes_agree(a, b, front);
        assert(a[sizes.len() - 1].flat().take(sizes.last() as int) == b[sizes.len()
            - 1].flat().take(sizes.last() as int));
    }
}

/// Overwriting replaces the bytes of a slot by those of its value with zeros
/// above, in as many slots as there are values, and no others.
pub proof fn law_overwritten<T: FlatBytes>(vals: ArgValsView, before: Seq<T>, after: Seq<T>, i: int)
    requires
        i < vals.sizes.len() ==> vals.readable(i + 1),
        overwritten(vals, before, after),
        0 <= i < before.len(),
    ensures
        after.len() == before.len(),
        i >= vals.sizes.len() ==> after[i] == before[i],
        i < vals.sizes.len() ==> forall|k: int|
            0 <= k < 16 ==> #[trigger] after[i].flat()[k] == if k < vals.sizes[i] {
                vals.bytes[offset(vals.sizes, i) + k]
            } else {
                0
            },
{
    if i < vals.sizes.len() {
        law_chunk(vals, i);
        assert(after[i].flat() == zero_padded(vals.chunk(i)));
        assert forall|k: int| 0 <= k < 16 implies #[trigger] after[i].flat()[k] == if k
            < vals.sizes[i] {
            vals.bytes[offset(vals.sizes, i) + k]
        } else {
            0
        } by {
            if k < vals.sizes[i] {
                assert(vals.chunk(i)[k] == vals.bytes[offset(vals.sizes, i) + k]);
            }
        }
    }
}

/// Typing a list of values gives each value that has a type this type and its
/// own bytes with zeros above.
pub proof fn law_typed_values(params: Seq<Val>, vals: ArgValsView, types: Seq<ValType>)
    requires
        vals.readable(params.len() as int),
        typed_as(params, vals, types),
    ensures
        params.len() <= types.len(),
        params.len() <= vals.sizes.len(),
        params.len() == types.len() || params.len() == vals.sizes.len(),
        forall|i: int| 0 <= i < params.len() ==> (#[trigger] params[i]).ty == types[i],
        forall|i: int, k: int|
            0 <= i < params.len() && 0 <= k < 16 ==> #[trigger] params[i].raw.bytes@[k] == if k
                < vals.sizes[i] {
                vals.bytes[offset(vals.sizes, i) + k]
            } else {
                0
            },
{
    assert forall|i: int, k: int|
        0 <= i < params.len() && 0 <= k < 16 implies #[trigger] params[i].raw.bytes@[k] == if k
        < vals.sizes[i] {
        vals.bytes[offset(vals.sizes, i) + k]
    } else {
        0
    } by {
        law_readable_prefix(vals, i + 1, params.len() as int);
        law_chunk(vals, i);
        assert(params[i].raw.flat() == zero_padded(vals.chunk(i)));
        assert(params[i].raw.flat()[k] == zero_padded(vals.chunk(i))[k]);
        if k < vals.sizes[i] {
            assert(vals.chunk(i)[k] == vals.bytes[offset(vals.sizes, i) + k]);
        }
    }
}

/// The mathematical forms of values and signatures hold what stands in the
/// fields of the same names.
pub proof fn law_forms_of_values(vals: RRFuncArgVals, ty: FuncType, instance: Instance)
    ensures
        vals@.bytes == vals.bytes@,
        vals@.sizes == vals.sizes@,
        ty@.params == ty.params@,
        ty@.results == ty.results@,
        instance@.len() == instance.funcs@.len(),
        forall|i: int|
            0 <= i < instance.funcs@.len() ==> {
                &&& (#[trigger] instance@[i]).params == instance.funcs@[i].params@
                &&& instance@[i].results == instance.funcs@[i].results@
            },
{
}

/// The mathematical form of an event is of the same kind, and holds the same
/// data.
pub proof fn law_forms_of_events(
    instantiation: InstantiationEvent,
    call: WasmFuncEntryEvent,
    host_call: HostFuncEntryEvent,
    host_return: HostFuncReturnEvent,
    results: RRFuncArgVals,
    message: String,
)
    ensures
        RREvent::CoreWasmInstantiation(instantiation)@ matches EventView::CoreWasmInstantiation {
            module,
            instance,
        } && module == instantiation.module.0@ && instance == instantiation.instance,
        RREvent::CoreWasmFuncEntry(call)@ matches EventView::CoreWasmFuncEntry {
            instance,
            func_index,
            args,
        } && instance == call.instance && func_index == call.func_index && args.bytes
            == call.args.bytes@ && args.sizes == call.args.sizes@,
        RREvent::HostFuncEntry(host_call)@ matches EventView::HostFuncEntry { args } && args.bytes
            == host_call.args.bytes@ && args.sizes == host_call.args.sizes@,
        RREvent::HostFuncReturn(host_return)@ matches EventView::HostFuncReturn { args }
            && args.bytes == host_return.args.bytes@ && args.sizes == host_return.args.sizes@,
        RREvent::WasmFuncReturn(WasmFuncReturnEvent(ResultEvent(Ok(results))))@ matches
            EventView::WasmFuncReturn { ret: Ok(vals) } && vals.bytes == results.bytes@
            && vals.sizes == results.sizes@,
        RREvent::WasmFuncReturn(WasmFuncReturnEvent(ResultEvent(Err(message))))@ matches
            EventView::WasmFuncReturn { ret: Err(text) } && text == message@,
        instantiation@ == RREvent::CoreWasmInstantiation(instantiation)@,
        call@ == RREvent::CoreWasmFuncEntry(call)@,
        ResultEvent(Ok(results))@ matches Ok(vals) && vals.bytes == results.bytes@ && vals.sizes
            == results.sizes@,
        ResultEvent(Err(message))@ matches Err(text) && text == message@,
{
}

/// A list of events in mathematical form holds each event, in the same order.
pub proof fn law_event_views(events: Seq<RREvent>)
    ensures
        event_views(events).len() == events.len(),
        forall|i: int| 0 <= i < events.len() ==> #[trigger] event_views(events)[i] == events[i]@,
{
}

/// An outcome in mathematical form succeeds exactly if the outcome does, with
/// the same value, and otherwise has the same error.
pub proof fn law_outcomes(result: Result<(), Error>, vals: Result<RRFuncArgVals, Error>)
    ensures
        outcome(result) is Ok <==> result is Ok,
        result matches Err(error) ==> outcome(result)->Err_0 == error@,
        result_view(vals) is Ok <==> vals is Ok,
        vals matches Ok(vals_ok) ==> result_view(vals)->Ok_0 == vals_ok@,
        vals matches Err(error) ==> result_view(vals)->Err_0 == error@,
{
}

/// The mathematical form of an error is of the same kind, and holds the same
/// data.
pub proof fn law_forms_of_errors(
    replay: ReplayError,
    reason: String,
    event: RREvent,
    expected: usize,
    given: usize,
)
    ensures
        Error::Replay(replay)@ matches ErrorView::Replay(e) && e == replay,
        Error::RecordFailed(reason)@ matches ErrorView::RecordFailed(text) && text == reason@,
        Error::UnexpectedEvent(event)@ matches ErrorView::UnexpectedEvent(e) && e == event@,
        Error::ExportedMemory@ is ExportedMemory,
        (Error::ArgumentCount { expected, given })@ matches ErrorView::ArgumentCount {
            expected: e,
            given: g,
        } && e == expected && g == given,
        Error::Wasm(reason)@ matches ErrorView::Wasm(text) && text == reason@,
{
}

/// A trace keeps the values of a call that succeeded as they are, and of one that
/// failed the message.
pub proof fn law_kept_return(a: Result<ArgValsView, ErrorView>)
    ensures
        return_of(a) is Ok <==> a is Ok,
        a matches Ok(vals) ==> return_of(a)->Ok_0 == vals,
        a matches Err(error) ==> return_of(a)->Err_0 == error.text(),
{
}

/// An event converts to the type of its own kind, and keeps its data; it converts
/// to no other.
pub proof fn law_conversions(event: RREvent)
    ensures
        match <HostFuncEntryEvent as TryFromSpec<RREvent>>::try_from_spec(event) {
            Ok(e) => event == RREvent::HostFuncEntry(e),
            Err(e) => !(event is HostFuncEntry) && e == ReplayError::IncorrectEventVariant,
        },
        match <HostFuncReturnEvent as TryFromSpec<RREvent>>::try_from_spec(event) {
            Ok(e) => event == RREvent::HostFuncReturn(e),
            Err(e) => !(event is HostFuncReturn) && e == ReplayError::IncorrectEventVariant,
        },
        match <WasmFuncReturnEvent as TryFromSpec<RREvent>>::try_from_spec(event) {
            Ok(e) => event == RREvent::WasmFuncReturn(e),
            Err(e) => !(event is WasmFuncReturn) && e == ReplayError::IncorrectEventVariant,
        },
{
}

/// Being of one kind is to be the same variant; the data does not matter.
pub proof fn law_same_kind(a: EventView, b: EventView)
    ensures
        a.same_kind(b) <==> {
            ||| a is CoreWasmInstantiation && b is CoreWasmInstantiation
            ||| a is CoreWasmFuncEntry && b is CoreWasmFuncEntry
            ||| a is HostFuncEntry && b is HostFuncEntry
            ||| a is HostFuncReturn && b is HostFuncReturn
            ||| a is WasmFuncReturn && b is WasmFuncReturn
        },
        a.same_kind(b) == b.same_kind(a),
        a.same_kind(a),
{
}

/// A module exports a memory if one of its exports is a memory, wherever it
/// stands, and not otherwise.
pub proof fn law_exported_memory(module: Module, i: int)
    ensures
        0 <= i < module.exports@.len() && module.exports@[i].ty is Memory
            ==> module.spec_exports_memory(),
        (forall|k: int|
            0 <= k < module.exports@.len() ==> !((#[trigger] module.exports@[k]).ty is Memory))
            ==> !module.spec_exports_memory(),
{
}

/// Whether a module exports a memory does not depend on the order of its
/// exports, on how often they occur, or on anything but the exports.
pub proof fn law_exported_memory_in_any_order(a: Module, b: Module)
    requires
        forall|i: int|
            0 <= i < a.exports@.len() ==> b.exports@.contains(#[trigger] a.exports@[i]),
        forall|i: int|
            0 <= i < b.exports@.len() ==> a.exports@.contains(#[trigger] b.exports@[i]),
    ensures
        a.spec_exports_memory() == b.spec_exports_memory(),
{
    if a.spec_exports_memory() {
        let i = choose|i: int|
            0 <= i < a.exports@.len() && (#[trigger] a.exports@[i]).ty is Memory;
        assert(b.exports@.contains(a.exports@[i]));
        law_exported_memory(b, b.exports@.index_of(a.exports@[i]));
    }
    if b.spec_exports_memory() {
        let i = choose|i: int|
            0 <= i < b.exports@.len() && (#[trigger] b.exports@[i]).ty is Memory;
        assert(a.exports@.contains(b.exports@[i]));
        law_exported_memory(a, a.exports@.index_of(b.exports@[i]));
    }
}

/// An event can be read by a replay exactly if the replay has nothing to read
/// from it or can read its values; and a store exactly if it does not replay, or
/// can read every event that is still to come.
pub proof fn law_readable_events(event: EventView, state: StateView)
    ensures
        event is CoreWasmInstantiation || event is HostFuncEntry || event is WasmFuncReturn
            ==> event.well_formed(),
        event matches EventView::CoreWasmFuncEntry { args, .. } ==> (event.well_formed()
            <==> args.well_formed()),
        event matches EventView::HostFuncReturn { args } ==> (event.well_formed()
            <==> args.well_formed()),
        state is Disabled || state is Recording ==> state.well_formed(),
        state matches StateView::Replaying(rep) ==> (state.well_formed() <==> forall|e: EventView|
            rep.remaining.contains(e) ==> #[trigger] e.well_formed()),
{
    if let StateView::Replaying(rep) = state {
        if state.well_formed() {
            assert forall|e: EventView| rep.remaining.contains(e) implies #[trigger] e.well_formed() by {
                assert(rep.remaining[rep.remaining.index_of(e)] == e);
            }
        } else {
            let i = choose|i: int|
                0 <= i < rep.remaining.len() && !(#[trigger] rep.remaining[i]).well_formed();
            assert(rep.remaining.contains(rep.remaining[i]));
        }
    }
}

/// The text of an event names its type, and gives each part of its data under
/// the part's name.
pub proof fn law_event_text(event: EventView)
    ensures
        event matches EventView::CoreWasmInstantiation { module, instance } ==> event.text()
            == "InstantiationEvent"@ + (" { module: WasmChecksum("@ + byte_list(module)
            + "), instance: RRModuleInstanceId("@ + decimal(instance.0 as nat) + ") }"@),
        event matches EventView::CoreWasmFuncEntry { instance, func_index, args } ==> event.text()
            == "WasmFuncEntryEvent"@ + (" { instance: RRModuleInstanceId("@ + decimal(
            instance.0 as nat,
        ) + "), func_index: FuncIndex("@ + decimal(func_index.0 as nat) + "), args: "@ + arg_vals(
            args,
        ) + " }"@),
        event matches EventView::HostFuncEntry { args } ==> event.text() == "HostFuncEntryEvent"@
            + (" { args: "@ + arg_vals(args) + " }"@),
        event matches EventView::HostFuncReturn { args } ==> event.text() == "HostFuncReturnEvent"@
            + (" { args: "@ + arg_vals(args) + " }"@),
        event matches EventView::WasmFuncReturn { ret: Ok(vals) } ==> event.text()
            == "WasmFuncReturnEvent"@ + ("(ResultEvent(Ok("@ + arg_vals(vals) + ")))"@),
        event matches EventView::WasmFuncReturn { ret: Err(message) } ==> event.text()
            == "WasmFuncReturnEvent"@ + ("(ResultEvent(Err("@ + message + ")))"@),
{
}

/// The text of an event stands in brackets behind the name of its kind.
pub proof fn law_event_debug_text(event: EventView)
    ensures
        event.debug_text() == (match event {
            EventView::CoreWasmInstantiation { .. } => "CoreWasmInstantiation"@,
            EventView::CoreWasmFuncEntry { .. } => "CoreWasmFuncEntry"@,
            EventView::HostFuncEntry { .. } => "HostFuncEntry"@,
            EventView::HostFuncReturn { .. } => "HostFuncReturn"@,
            EventView::WasmFuncReturn { .. } => "WasmFuncReturn"@,
        }) + "("@ + event.text() + ")"@,
{
}

/// What the errors say, and what they say it of.
pub proof fn law_error_text(
    reason: Seq<char>,
    event: EventView,
    expected: nat,
    given: nat,
    replay: ReplayError,
)
    ensures
        ErrorView::RecordFailed(reason).text() == reason,
        ErrorView::Wasm(reason).text() == reason,
        ErrorView::UnexpectedEvent(event).text()
            == "Unexpected event during core wasm host function replay: expected HostFuncReturn or CoreWasmFuncEntry, got "@
            + event.debug_text(),
        ErrorView::ExportedMemory.text()
            == "Cannot support recording for core wasm modules when a memory is exported"@,
        (ErrorView::ArgumentCount { expected, given }).text() == "expected "@ + (decimal(expected)
            + (" arguments, got "@ + decimal(given))),
        ErrorView::Replay(replay).text() == replay.text(),
{
    assert((ErrorView::ArgumentCount { expected, given }).text() =~= "expected "@ + (decimal(
        expected,
    ) + (" arguments, got "@ + decimal(given))));
}

/// What the errors of a replay say, and what they say it of.
pub proof fn law_replay_error_text(id: RRModuleInstanceId, entity: EntityIndex)
    ensures
        ReplayError::EmptyBuffer.text() == "replay buffer is empty"@,
        ReplayError::FailedValidation.text() == "replay event validation failed"@,
        ReplayError::IncorrectEventVariant.text() == "event type mismatch during replay"@,
        ReplayError::MissingModuleInstance(id).text() == "missing module instance "@ + decimal(
            id.0 as nat,
        ),
        ReplayError::InvalidCoreFuncIndex(entity).text() == "invalid core function index "@ + (
        match entity {
            EntityIndex::Function(index) => "Function("@ + (decimal(index.0 as nat) + ")"@),
            EntityIndex::Table(index) => "Table("@ + (decimal(index as nat) + ")"@),
            EntityIndex::Memory(index) => "Memory("@ + (decimal(index as nat) + ")"@),
            EntityIndex::Global(index) => "Global("@ + (decimal(index as nat) + ")"@),
            EntityIndex::Tag(index) => "Tag("@ + (decimal(index as nat) + ")"@),
        }),
{
    match entity {
        EntityIndex::Function(index) => {
            assert(entity.text() =~= "Function("@ + (decimal(index.0 as nat) + ")"@));
        },
        EntityIndex::Table(index) => {
            assert(entity.text() =~= "Table("@ + (decimal(index as nat) + ")"@));
        },
        EntityIndex::Memory(index) => {
            assert(entity.text() =~= "Memory("@ + (decimal(index as nat) + ")"@));
        },
        EntityIndex::Global(index) => {
            assert(entity.text() =~= "Global("@ + (decimal(index as nat) + ")"@));
        },
        EntityIndex::Tag(index) => {
            assert(entity.text() =~= "Tag("@ + (decimal(index as nat) + ")"@));
        },
    }
}

} // verus!
