//! The nesting of calls in a trace with validation events: every call is
//! followed by its return, and a call that is made during another one also
//! returns during that one.  Where host functions fail to return, this still
//! holds of the calls of WebAssembly functions.
use crate::args::{flattened, ArgValsView};
use crate::core_hooks::{
    chained, host_entry, host_return, reached, replay_ends, wasm_entry, wasm_return,
    wasm_return_event, Reentry, WasmFuncOrigin,
};
use crate::error::{Error, ErrorView};
use crate::events::{EventView, RRModuleInstanceId};
use crate::store::{
    lemma_leads_to_reflexive, lemma_leads_to_transitive, lemma_next_leads_on, RecordView,
    ReplayView, StateView, Store,
};
use crate::values::{byte_sizes, FlatBytes, FuncTypeView, ValRaw};
use vstd::prelude::*;

verus! {

/// A call that has not returned.
pub enum Frame {
    Wasm,
    Host,
}

/// The call that an event is the beginning of.
pub open spec fn opened(event: EventView) -> Option<Frame> {
    match event {
        EventView::CoreWasmFuncEntry { .. } => Some(Frame::Wasm),
        EventView::HostFuncEntry { .. } => Some(Frame::Host),
        _ => None,
    }
}

/// The call that an event is the end of.
pub open spec fn closed(event: EventView) -> Option<Frame> {
    match event {
        EventView::WasmFuncReturn { .. } => Some(Frame::Wasm),
        EventView::HostFuncReturn { .. } => Some(Frame::Host),
        _ => None,
    }
}

/// The calls that have not returned, after `event`; `None` if it is the return
/// of a call other than the innermost.
pub open spec fn step(stack: Seq<Frame>, event: EventView) -> Option<Seq<Frame>> {
    match (opened(event), closed(event)) {
        (Some(frame), _) => Some(stack.push(frame)),
        (None, Some(frame)) => if stack.len() > 0 && stack.last() == frame {
            Some(stack.drop_last())
        } else {
            None
        },
        (None, None) => Some(stack),
    }
}

/// The calls that have not returned, after all `events`.
pub open spec fn scan(stack: Seq<Frame>, events: Seq<EventView>) -> Option<Seq<Frame>>
    decreases events.len(),
{
    if events.len() == 0 {
        Some(stack)
    } else {
        match step(stack, events[0]) {
            Some(next) => scan(next, events.drop_first()),
            None => None,
        }
    }
}

/// Every call returns, the innermost first.
pub open spec fn balanced(events: Seq<EventView>) -> bool {
    scan(Seq::empty(), events) == Some(Seq::<Frame>::empty())
}

/// Scanning two stretches of a trace is scanning one, then the other.
proof fn lemma_scan_append(stack: Seq<Frame>, a: Seq<EventView>, b: Seq<EventView>)
    ensures
        scan(stack, a + b) == match scan(stack, a) {
            Some(next) => scan(next, b),
            None => None,
        },
    decreases a.len(),
{
    if a.len() == 0 {
        assert(a + b =~= b);
    } else {
        assert((a + b).drop_first() =~= a.drop_first() + b);
        if let Some(next) = step(stack, a[0]) {
            lemma_scan_append(next, a.drop_first(), b);
        }
    }
}

/// What scans on its own scans in the same way inside other calls.
proof fn lemma_scan_inside(outer: Seq<Frame>, stack: Seq<Frame>, events: Seq<EventView>)
    requires
        scan(stack, events) is Some,
    ensures
        scan(outer + stack, events) == Some(outer + scan(stack, events)->0),
    decreases events.len(),
{
    if events.len() > 0 {
        let next = step(stack, events[0])->0;
        assert(step(outer + stack, events[0]) == Some(outer + next)) by {
            match (opened(events[0]), closed(events[0])) {
                (Some(frame), _) => {
                    assert((outer + stack).push(frame) =~= outer + stack.push(frame));
                },
                (None, Some(frame)) => {
                    assert((outer + stack).drop_last() =~= outer + stack.drop_last());
                },
                _ => {},
            }
        }
        lemma_scan_inside(outer, next, events.drop_first());
    }
}

/// Balanced stretches of a trace one after the other are balanced.
pub proof fn law_balanced_append(a: Seq<EventView>, b: Seq<EventView>)
    requires
        balanced(a),
        balanced(b),
    ensures
        balanced(a + b),
{
    lemma_scan_append(Seq::empty(), a, b);
}

/// A call and its return around a balanced stretch of a trace are balanced.
pub proof fn law_balanced_call(entry: EventView, inside: Seq<EventView>, exit: EventView)
    requires
        opened(entry) is Some,
        closed(exit) == opened(entry),
        balanced(inside),
    ensures
        balanced(seq![entry] + inside + seq![exit]),
{
    let frame = opened(entry)->0;
    let outer = seq![frame];
    let none = Seq::<Frame>::empty();
    assert(none.push(frame) =~= outer);
    assert(outer.drop_last() =~= none);
    assert(outer + none =~= outer);
    lemma_scan_inside(outer, none, inside);
    assert(seq![exit].drop_first() =~= Seq::empty());
    assert(scan(none, seq![exit].drop_first()) == Some(none));
    assert(scan(outer, seq![exit]) == Some(none));
    lemma_scan_append(outer, inside, seq![exit]);
    let all = seq![entry] + inside + seq![exit];
    assert(all.drop_first() =~= inside + seq![exit]);
    assert(step(none, all[0]) == Some(outer));
}

/// The events that were recorded since `before`.
pub open spec fn recorded_since(before: RecordView, after: RecordView) -> Seq<EventView> {
    after.events.skip(before.events.len() as int)
}

/// The events that were replayed since `before`.
pub open spec fn replayed_since(before: ReplayView, after: ReplayView) -> Seq<EventView> {
    before.remaining.take(before.remaining.len() - after.remaining.len())
}

/// The recording of a WebAssembly function's call is balanced, if what is
/// recorded during the call is.
pub proof fn law_recorded_wasm_call_is_balanced(
    before: RecordView,
    origin: WasmFuncOrigin,
    args: Seq<ValRaw>,
    ty: FuncTypeView,
    inside: RecordView,
    called: Result<(), ErrorView>,
    results: Seq<ValRaw>,
)
    requires
        before.add_validation,
        before.failure is None,
        inside.failure is None,
        wasm_entry(StateView::Recording(before), Some(origin), args, ty).0.leads_to(
            StateView::Recording(inside),
        ),
        balanced(
            recorded_since(
                wasm_entry(
                    StateView::Recording(before),
                    Some(origin),
                    args,
                    ty,
                ).0->Recording_0,
                inside,
            ),
        ),
    ensures
        wasm_return(StateView::Recording(inside), Some(origin), called, results, ty) matches (
            StateView::Recording(after),
            outcome,
        ) && outcome == called && balanced(recorded_since(before, after)),
{
    let entry = EventView::CoreWasmFuncEntry {
        instance: RRModuleInstanceId(origin.instance.0),
        func_index: origin.index,
        args: flattened(args, byte_sizes(ty.params)),
    };
    let exit = wasm_return_event(called, results, ty);
    let entered = wasm_entry(
        StateView::Recording(before),
        Some(origin),
        args,
        ty,
    ).0->Recording_0;
    lemma_recorded_call(before, entry, entered, inside, exit);
}

/// The recording of a host function's call is balanced, if what is recorded
/// during the call is.
pub proof fn law_recorded_host_call_is_balanced(
    before: RecordView,
    args: ArgValsView,
    inside: RecordView,
    results: ArgValsView,
)
    requires
        before.add_validation,
        before.failure is None,
        inside.failure is None,
        host_entry(StateView::Recording(before), args).0.leads_to(StateView::Recording(inside)),
        balanced(
            recorded_since(
                host_entry(StateView::Recording(before), args).0->Recording_0,
                inside,
            ),
        ),
    ensures
        host_return(StateView::Recording(inside), results) matches (
            StateView::Recording(after),
            Ok(_),
        ) && balanced(recorded_since(before, after)),
{
    let entry = EventView::HostFuncEntry { args };
    let exit = EventView::HostFuncReturn { args: results };
    let entered = host_entry(StateView::Recording(before), args).0->Recording_0;
    lemma_recorded_call(before, entry, entered, inside, exit);
}

proof fn lemma_recorded_call(
    before: RecordView,
    entry: EventView,
    entered: RecordView,
    inside: RecordView,
    exit: EventView,
)
    requires
        opened(entry) is Some,
        closed(exit) == opened(entry),
        entered.events == before.events.push(entry),
        entered.events.is_prefix_of(inside.events),
        balanced(recorded_since(entered, inside)),
    ensures
        balanced(inside.events.push(exit).skip(before.events.len() as int)),
{
    law_balanced_call(entry, recorded_since(entered, inside), exit);
    lemma_recorded_around(before, entry, entered, inside, exit);
}

proof fn lemma_recorded_around(
    before: RecordView,
    entry: EventView,
    entered: RecordView,
    inside: RecordView,
    exit: EventView,
)
    requires
        entered.events == before.events.push(entry),
        entered.events.is_prefix_of(inside.events),
    ensures
        inside.events.push(exit).skip(before.events.len() as int) == seq![entry] + recorded_since(
            entered,
            inside,
        ) + seq![exit],
{
    let n = before.events.len() as int;
    assert(inside.events[n] == inside.events.subrange(0, entered.events.len() as int)[n]);
    assert(inside.events.push(exit).skip(n) =~= seq![entry] + recorded_since(entered, inside)
        + seq![exit]);
}

/// How many calls of WebAssembly functions have not returned, after `event`;
/// `None` if it is a return without a call.
pub open spec fn wasm_step(depth: nat, event: EventView) -> Option<nat> {
    if opened(event) == Some(Frame::Wasm) {
        Some(depth + 1)
    } else if closed(event) == Some(Frame::Wasm) {
        if depth > 0 {
            Some((depth - 1) as nat)
        } else {
            None
        }
    } else {
        Some(depth)
    }
}

/// How many calls of WebAssembly functions have not returned, after all
/// `events`.
pub open spec fn wasm_scan(depth: nat, events: Seq<EventView>) -> Option<nat>
    decreases events.len(),
{
    if events.len() == 0 {
        Some(depth)
    } else {
        match wasm_step(depth, events[0]) {
            Some(next) => wasm_scan(next, events.drop_first()),
            None => None,
        }
    }
}

/// Every call of a WebAssembly function returns, and no other returns; calls of
/// host functions are not looked at.
pub open spec fn wasm_nested(events: Seq<EventView>) -> bool {
    wasm_scan(0, events) == Some(0nat)
}

proof fn lemma_wasm_scan_append(depth: nat, a: Seq<EventView>, b: Seq<EventView>)
    ensures
        wasm_scan(depth, a + b) == match wasm_scan(depth, a) {
            Some(next) => wasm_scan(next, b),
            None => None,
        },
    decreases a.len(),
{
    if a.len() == 0 {
        assert(a + b =~= b);
    } else {
        assert((a + b).drop_first() =~= a.drop_first() + b);
        if let Some(next) = wasm_step(depth, a[0]) {
            lemma_wasm_scan_append(next, a.drop_first(), b);
        }
    }
}

proof fn lemma_wasm_scan_inside(outer: nat, depth: nat, events: Seq<EventView>)
    requires
        wasm_scan(depth, events) is Some,
    ensures
        wasm_scan(outer + depth, events) == Some(outer + wasm_scan(depth, events)->0),
    decreases events.len(),
{
    if events.len() > 0 {
        let next = wasm_step(depth, events[0])->0;
        assert(wasm_step(outer + depth, events[0]) == Some(outer + next));
        lemma_wasm_scan_inside(outer, next, events.drop_first());
    }
}

/// Stretches of a trace in which the calls of WebAssembly functions are nested
/// can follow one another.
pub proof fn law_wasm_nested_append(a: Seq<EventView>, b: Seq<EventView>)
    requires
        wasm_nested(a),
        wasm_nested(b),
    ensures
        wasm_nested(a + b),
{
    lemma_wasm_scan_append(0, a, b);
}

/// Events of host functions and instantiations do not bear on the nesting of
/// WebAssembly calls, wherever they stand and whether or not they come in pairs.
pub proof fn law_other_events_are_wasm_nested(event: EventView)
    requires
        !(event is CoreWasmFuncEntry),
        !(event is WasmFuncReturn),
    ensures
        wasm_nested(seq![event]),
{
    assert(seq![event].drop_first() =~= Seq::empty());
    assert(wasm_scan(0, seq![event].drop_first()) == Some(0nat));
}

/// The call of a WebAssembly function and its return keep what lies between them
/// nested.
pub proof fn law_wasm_nested_call(entry: EventView, inside: Seq<EventView>, exit: EventView)
    requires
        entry is CoreWasmFuncEntry,
        exit is WasmFuncReturn,
        wasm_nested(inside),
    ensures
        wasm_nested(seq![entry] + inside + seq![exit]),
        wasm_scan(1, inside + seq![exit]) == Some(0nat),
{
    lemma_wasm_scan_inside(1, 0, inside);
    assert(seq![exit].drop_first() =~= Seq::empty());
    assert(wasm_scan(0, seq![exit].drop_first()) == Some(0nat));
    assert(wasm_scan(1, seq![exit]) == Some(0nat));
    lemma_wasm_scan_append(1, inside, seq![exit]);
    let all = seq![entry] + inside + seq![exit];
    assert(all.drop_first() =~= inside + seq![exit]);
}

/// How many of the calls on the stack are of WebAssembly functions.
pub open spec fn wasm_frames(stack: Seq<Frame>) -> nat
    decreases stack.len(),
{
    if stack.len() == 0 {
        0
    } else {
        wasm_frames(stack.drop_last()) + if stack.last() is Wasm {
            1nat
        } else {
            0nat
        }
    }
}

proof fn lemma_scan_counts_wasm(stack: Seq<Frame>, events: Seq<EventView>)
    requires
        scan(stack, events) is Some,
    ensures
        wasm_scan(wasm_frames(stack), events) == Some(wasm_frames(scan(stack, events)->0)),
    decreases events.len(),
{
    if events.len() > 0 {
        let next = step(stack, events[0])->0;
        if let Some(frame) = opened(events[0]) {
            assert(stack.push(frame).drop_last() =~= stack);
        }
        assert(wasm_step(wasm_frames(stack), events[0]) == Some(wasm_frames(next)));
        lemma_scan_counts_wasm(next, events.drop_first());
    }
}

/// Where all calls are balanced, those of WebAssembly functions are nested.
pub proof fn law_balanced_is_wasm_nested(events: Seq<EventView>)
    requires
        balanced(events),
    ensures
        wasm_nested(events),
{
    lemma_scan_counts_wasm(Seq::empty(), events);
}

/// The recording of a WebAssembly function's call keeps the calls of WebAssembly
/// functions nested, also where a host function that was called during the call
/// did not return.
pub proof fn law_recorded_wasm_calls_stay_nested(
    before: RecordView,
    origin: WasmFuncOrigin,
    args: Seq<ValRaw>,
    ty: FuncTypeView,
    inside: RecordView,
    called: Result<(), ErrorView>,
    results: Seq<ValRaw>,
)
    requires
        before.add_validation,
        before.failure is None,
        inside.failure is None,
        wasm_entry(StateView::Recording(before), Some(origin), args, ty).0.leads_to(
            StateView::Recording(inside),
        ),
        wasm_nested(
            recorded_since(
                wasm_entry(
                    StateView::Recording(before),
                    Some(origin),
                    args,
                    ty,
                ).0->Recording_0,
                inside,
            ),
        ),
    ensures
        wasm_return(StateView::Recording(inside), Some(origin), called, results, ty) matches (
            StateView::Recording(after),
            outcome,
        ) && outcome == called && wasm_nested(recorded_since(before, after)),
{
    let entry = EventView::CoreWasmFuncEntry {
        instance: RRModuleInstanceId(origin.instance.0),
        func_index: origin.index,
        args: flattened(args, byte_sizes(ty.params)),
    };
    let exit = wasm_return_event(called, results, ty);
    let entered = wasm_entry(
        StateView::Recording(before),
        Some(origin),
        args,
        ty,
    ).0->Recording_0;
    let during = recorded_since(entered, inside);
    law_wasm_nested_call(entry, during, exit);
    lemma_recorded_around(before, entry, entered, inside, exit);
}

/// The hooks of a host function keep the recorded calls of WebAssembly functions
/// nested, each on its own.
pub proof fn law_host_hooks_keep_wasm_calls_nested(rec: RecordView, vals: ArgValsView)
    ensures
        host_entry(StateView::Recording(rec), vals).0 matches StateView::Recording(after)
            && wasm_nested(recorded_since(rec, after)),
        host_return(StateView::Recording(rec), vals).0 matches StateView::Recording(after)
            && wasm_nested(recorded_since(rec, after)),
{
    let entry = EventView::HostFuncEntry { args: vals };
    let exit = EventView::HostFuncReturn { args: vals };
    let n = rec.events.len() as int;
    law_other_events_are_wasm_nested(entry);
    law_other_events_are_wasm_nested(exit);
    assert(rec.events.push(entry).skip(n) =~= seq![entry]);
    assert(rec.events.push(exit).skip(n) =~= seq![exit]);
    assert(rec.events.skip(n) =~= Seq::empty());
}

/// The events bring the call of a WebAssembly function that was begun before
/// them to its end, and leave nothing open.
pub open spec fn ends_wasm_call(events: Seq<EventView>) -> bool {
    scan(seq![Frame::Wasm], events) == Some(Seq::<Frame>::empty())
}

proof fn lemma_replayed_append(a: ReplayView, b: ReplayView, c: ReplayView)
    requires
        StateView::Replaying(a).leads_to(StateView::Replaying(b)),
        StateView::Replaying(b).leads_to(StateView::Replaying(c)),
    ensures
        replayed_since(a, c) == replayed_since(a, b) + replayed_since(b, c),
{
    let from = a.remaining.len() - b.remaining.len();
    assert(b.remaining =~= a.remaining.skip(from));
    assert(replayed_since(a, c) =~= replayed_since(a, b) + replayed_since(b, c));
}

proof fn lemma_next_is_replayed(a: ReplayView)
    requires
        a.remaining.len() > 0,
    ensures
        StateView::Replaying(a).next().0 matches StateView::Replaying(b) && replayed_since(a, b)
            == seq![a.remaining[0]],
        StateView::Replaying(a).leads_to(StateView::Replaying(a).next().0),
{
    lemma_next_leads_on(StateView::Replaying(a));
    let b = StateView::Replaying(a).next().0->Replaying_0;
    assert(replayed_since(a, b) =~= seq![a.remaining[0]]);
}

/// Replaying the call of a WebAssembly function brings it to its end in the
/// trace, if what is replayed during the call is balanced and its end passes
/// validation.
pub proof fn law_replayed_wasm_call_ends(
    entered: ReplayView,
    inside: ReplayView,
    origin: WasmFuncOrigin,
    called: Result<(), ErrorView>,
    results: Seq<ValRaw>,
    ty: FuncTypeView,
)
    requires
        entered.add_validation,
        StateView::Replaying(entered).leads_to(StateView::Replaying(inside)),
        balanced(replayed_since(entered, inside)),
        inside.remaining.len() > 0,
        inside.remaining[0] == wasm_return_event(called, results, ty),
    ensures
        wasm_return(StateView::Replaying(inside), Some(origin), called, results, ty) matches (
            StateView::Replaying(after),
            outcome,
        ) && outcome == called && ends_wasm_call(replayed_since(entered, after)),
{
    let after = StateView::Replaying(inside).next().0->Replaying_0;
    let exit = inside.remaining[0];
    let during = replayed_since(entered, inside);
    let outer = seq![Frame::Wasm];
    let none = Seq::<Frame>::empty();
    lemma_next_is_replayed(inside);
    lemma_replayed_append(entered, inside, after);
    lemma_scan_inside(outer, none, during);
    assert(outer + none =~= outer);
    assert(outer.drop_last() =~= none);
    assert(seq![exit].drop_first() =~= Seq::empty());
    assert(scan(none, seq![exit].drop_first()) == Some(none));
    assert(scan(outer, seq![exit]) == Some(none));
    lemma_scan_append(outer, during, seq![exit]);
}

/// Each call of `run` only leads its store on, and comes to its end in the
/// trace.
pub open spec fn calls_end<U>(run: Seq<Reentry<U>>) -> bool {
    forall|i: int|
        0 <= i < run.len() ==> {
            &&& (#[trigger] run[i]).result is Ok
            &&& run[i].before.opaque@.leads_to(run[i].after.opaque@)
            &&& ends_wasm_call(
                replayed_since(
                    run[i].before.opaque@->Replaying_0,
                    run[i].after.opaque@->Replaying_0,
                ),
            )
        }
}

proof fn lemma_run_is_balanced<U>(start: Store<U>, run: Seq<Reentry<U>>)
    requires
        start.opaque@ is Replaying,
        chained(start, run),
        calls_end(run),
    ensures
        start.opaque@.leads_to(reached(start, run).opaque@),
        balanced(
            replayed_since(
                start.opaque@->Replaying_0,
                reached(start, run).opaque@->Replaying_0,
            ),
        ),
    decreases run.len(),
{
    let a = start.opaque@->Replaying_0;
    if run.len() == 0 {
        lemma_leads_to_reflexive(start.opaque@);
        assert(replayed_since(a, a) =~= Seq::empty());
    } else {
        let first = run[0];
        let rest = run.drop_first();
        let before = first.before.opaque@->Replaying_0;
        let after = first.after.opaque@->Replaying_0;
        let end = reached(start, run);
        assert(calls_end(rest)) by {
            assert forall|i: int| 0 <= i < rest.len() implies {
                &&& (#[trigger] rest[i]).result is Ok
                &&& rest[i].before.opaque@.leads_to(rest[i].after.opaque@)
                &&& ends_wasm_call(
                    replayed_since(
                        rest[i].before.opaque@->Replaying_0,
                        rest[i].after.opaque@->Replaying_0,
                    ),
                )
            } by {
                assert(rest[i] == run[i + 1]);
            }
        }
        lemma_next_is_replayed(a);
        lemma_replayed_append(a, before, after);
        lemma_leads_to_transitive(start.opaque@, first.before.opaque@, first.after.opaque@);
        let called = replayed_since(a, after);
        assert(called.drop_first() =~= replayed_since(before, after));
        assert(Seq::<Frame>::empty().push(Frame::Wasm) =~= seq![Frame::Wasm]);
        assert(balanced(called));
        lemma_run_is_balanced(first.after, rest);
        assert(reached(first.after, rest) == end);
        lemma_leads_to_transitive(start.opaque@, first.after.opaque@, end.opaque@);
        lemma_replayed_append(a, after, end.opaque@->Replaying_0);
        law_balanced_append(called, replayed_since(after, end.opaque@->Replaying_0));
    }
}

/// The replay of a host function's call, with all the calls of WebAssembly
/// functions that it makes, goes through a balanced stretch of the trace, if
/// each of these calls comes to its end there.
pub proof fn law_replayed_host_call_is_balanced<U, T: FlatBytes>(
    before: ReplayView,
    vals: ArgValsView,
    entered: Store<U>,
    run: Seq<Reentry<U>>,
    args: Seq<T>,
    later: Store<U>,
    results: Seq<T>,
    result: Result<(), Error>,
)
    requires
        before.add_validation,
        host_entry(StateView::Replaying(before), vals) == (
            entered.opaque@,
            Ok::<(), ErrorView>(()),
        ),
        chained(entered, run),
        calls_end(run),
        replay_ends(reached(entered, run), args, later, results, result),
        result is Ok,
    ensures
        later.opaque@ matches StateView::Replaying(after) && balanced(
            replayed_since(before, after),
        ),
{
    let first = entered.opaque@->Replaying_0;
    let end = reached(entered, run);
    let last = end.opaque@->Replaying_0;
    let after = later.opaque@->Replaying_0;
    lemma_next_is_replayed(before);
    lemma_run_is_balanced(entered, run);
    lemma_next_is_replayed(last);
    lemma_replayed_append(first, last, after);
    lemma_leads_to_transitive(entered.opaque@, end.opaque@, later.opaque@);
    lemma_replayed_append(before, first, after);
    law_balanced_call(before.remaining[0], replayed_since(first, last), last.remaining[0]);
    assert(replayed_since(before, after) =~= seq![before.remaining[0]] + replayed_since(first, last)
        + seq![last.remaining[0]]);
}

} // verus!
