use rr_hooks::args::RRFuncArgVals;
use rr_hooks::core_hooks::{
    prepare_call, record_and_replay_validate_instantiation, record_and_replay_validate_wasm_func,
    record_and_replay_validate_wasm_return,
    record_host_func_return, record_validate_host_func_entry, replay_host_func_return,
    replay_validate_host_func_entry, rr_validate_module_unexported_memory, Caller, WasmCall,
    WasmFuncOrigin,
};
use rr_hooks::error::{EntityIndex, Error, ReplayError};
use rr_hooks::events::{
    FuncIndex, HostFuncEntryEvent, HostFuncReturnEvent, InstanceId, InstantiationEvent, RREvent,
    RRModuleInstanceId, WasmChecksum, WasmFuncEntryEvent,
};
use rr_hooks::module::{Engine, ExportType, ExternType, Module, RRConfig};
use rr_hooks::store::{Instance, RecordSettings, Store, StoreOpaque, Trace};
use rr_hooks::values::{FlatBytes, FuncType, ValRaw, ValType};

/// The host's side of a run: how often its function was called, and whether
/// that is allowed at all.
struct Host {
    calls: usize,
    forbidden: bool,
}

/// A module with an imported host function and the functions that it exports.
#[derive(Clone, Copy, PartialEq)]
enum TestModule {
    /// `main` calls the import `env.double` once.
    DoubleOnce,
    /// `main` calls the import `env.double` twice.
    DoubleTwice,
    /// `main` calls the import `env.host_call`, which calls `wasm_callback`.
    Reentrant,
}

const CHECKSUM: WasmChecksum = WasmChecksum([7; 32]);
const MAIN: FuncIndex = FuncIndex(1);
const WASM_CALLBACK: FuncIndex = FuncIndex(2);

fn raw(value: i32) -> ValRaw {
    ValRaw::from_bytes(&value.to_le_bytes())
}

fn get(slot: &ValRaw) -> i32 {
    i32::from_le_bytes([slot.bytes[0], slot.bytes[1], slot.bytes[2], slot.bytes[3]])
}

fn i32_to_i32() -> FuncType {
    FuncType { params: vec![ValType::I32], results: vec![ValType::I32] }
}

fn flat() -> std::vec::IntoIter<u8> {
    vec![4u8].into_iter()
}

/// The host function behind the module's import.
fn host_body(module: TestModule, store: &mut Store<Host>, slots: &mut [ValRaw]) -> Result<(), Error> {
    if store.data.forbidden {
        panic!("host function body should not execute during replay")
    }
    store.data.calls += 1;
    match module {
        TestModule::DoubleOnce | TestModule::DoubleTwice => {
            slots[0] = raw(get(&slots[0]) * 2);
            Ok(())
        }
        TestModule::Reentrant => call_export(module, WASM_CALLBACK, store, slots),
    }
}

/// A call from WebAssembly to the module's import.
fn call_import(module: TestModule, store: &mut Store<Host>, slots: &mut [ValRaw]) -> Result<(), Error> {
    if store.opaque.replay_enabled() {
        replay_validate_host_func_entry(slots, flat(), &mut store.opaque)?;
        let mut caller = Caller {
            store,
            call_wasm: move |store: &mut Store<Host>, call: WasmCall| {
                let mut slots = vec![call.params[0].raw];
                call_export(module, call.func_index, store, &mut slots)
            },
        };
        replay_host_func_return(slots, &mut caller)
    } else {
        record_validate_host_func_entry(slots, flat(), &mut store.opaque)?;
        host_body(module, store, slots)?;
        record_host_func_return(slots, flat(), &mut store.opaque)
    }
}

/// A call from the host to an export of the module.
fn call_export(
    module: TestModule,
    index: FuncIndex,
    store: &mut Store<Host>,
    slots: &mut [ValRaw],
) -> Result<(), Error> {
    let body = |store: &mut Store<Host>, slots: &mut [ValRaw]| -> Result<(), Error> {
        if index == WASM_CALLBACK {
            slots[0] = raw(get(&slots[0]) + 1);
            return Ok(());
        }
        call_import(module, store, slots)?;
        if module == TestModule::DoubleTwice {
            call_import(module, store, slots)?;
        }
        Ok(())
    };
    let origin = WasmFuncOrigin { instance: InstanceId(0), index };
    record_and_replay_validate_wasm_func(body, slots, &i32_to_i32(), Some(origin), store)
}

fn new_store(opaque: StoreOpaque) -> Store<Host> {
    Store { opaque, data: Host { calls: 0, forbidden: false } }
}

fn recording_store(add_validation: bool) -> Store<Host> {
    new_store(StoreOpaque::record(RecordSettings { add_validation }))
}

fn instantiate_and_call(
    module: TestModule,
    store: &mut Store<Host>,
    param: i32,
) -> Result<i32, Error> {
    record_and_replay_validate_instantiation(store, CHECKSUM, InstanceId(0))?;
    let mut slots = vec![raw(param)];
    call_export(module, MAIN, store, &mut slots)?;
    Ok(get(&slots[0]))
}

/// Replays a whole trace, and hands the store back.
fn run_to_completion(module: TestModule, trace: Trace) -> Result<Store<Host>, Error> {
    let mut store = new_store(StoreOpaque::replay(trace));
    store.data.forbidden = true;
    loop {
        match store.opaque.next_event() {
            Ok(RREvent::CoreWasmInstantiation(event)) => {
                let funcs = vec![i32_to_i32(), i32_to_i32(), i32_to_i32()];
                store.opaque.add_module_instance(event.instance, Instance { funcs });
                store.opaque.set_current_module_instantiation(event);
                record_and_replay_validate_instantiation(&mut store, CHECKSUM, InstanceId(0))?;
            }
            Ok(RREvent::CoreWasmFuncEntry(event)) => {
                let call = prepare_call(&event, &store.opaque)?;
                let mut slots = vec![call.params[0].raw];
                call_export(module, call.func_index, &mut store, &mut slots)?;
            }
            Ok(other) => panic!("unexpected event in trace: {}", other.to_text()),
            Err(ReplayError::EmptyBuffer) => return Ok(store),
            Err(e) => return Err(Error::Replay(e)),
        }
    }
}

fn classes(events: &[RREvent]) -> Vec<&'static str> {
    events
        .iter()
        .map(|event| match event {
            RREvent::CoreWasmInstantiation(_) => "CoreWasmInstantiation",
            RREvent::CoreWasmFuncEntry(_) => "CoreWasmFuncEntry",
            RREvent::HostFuncEntry(_) => "HostFuncEntry",
            RREvent::HostFuncReturn(_) => "HostFuncReturn",
            RREvent::WasmFuncReturn(_) => "WasmFuncReturn",
        })
        .collect()
}

#[test]
fn rr_disabled_host_boundary_parity() -> Result<(), Error> {
    let mut store = new_store(StoreOpaque::new());
    assert_eq!(instantiate_and_call(TestModule::DoubleTwice, &mut store, 21)?, 84);
    assert_eq!(store.data.calls, 2);
    assert!(store.opaque.into_trace().is_none());
    Ok(())
}

#[test]
fn recording_sequence_parity() -> Result<(), Error> {
    let mut store = recording_store(true);
    assert_eq!(instantiate_and_call(TestModule::DoubleOnce, &mut store, 21)?, 42);
    let trace = store.opaque.into_trace().unwrap();
    assert_eq!(
        classes(&trace.events),
        vec![
            "CoreWasmInstantiation",
            "CoreWasmFuncEntry",
            "HostFuncEntry",
            "HostFuncReturn",
            "WasmFuncReturn",
        ]
    );
    Ok(())
}

#[test]
fn replay_return_substitution_parity() -> Result<(), Error> {
    let mut store = recording_store(true);
    assert_eq!(instantiate_and_call(TestModule::DoubleOnce, &mut store, 21)?, 42);
    let trace = store.opaque.into_trace().unwrap();

    let store = run_to_completion(TestModule::DoubleOnce, trace)?;
    assert_eq!(store.data.calls, 0);
    Ok(())
}

#[test]
fn reentrant_replay_trace_remains_balanced() -> Result<(), Error> {
    let mut store = recording_store(true);
    assert_eq!(instantiate_and_call(TestModule::Reentrant, &mut store, 42)?, 43);
    let trace = store.opaque.into_trace().unwrap();
    assert_eq!(
        classes(&trace.events),
        vec![
            "CoreWasmInstantiation",
            "CoreWasmFuncEntry",
            "HostFuncEntry",
            "CoreWasmFuncEntry",
            "WasmFuncReturn",
            "HostFuncReturn",
            "WasmFuncReturn",
        ]
    );

    run_to_completion(TestModule::Reentrant, trace)?;
    Ok(())
}

#[test]
fn mismatch_diagnostics_remain_clear() {
    let event = RREvent::HostFuncEntry(HostFuncEntryEvent {
        args: RRFuncArgVals { bytes: vec![0, 0, 0, 21], sizes: vec![4] },
    });

    let err = HostFuncReturnEvent::try_from(event.clone()).unwrap_err();
    assert!(matches!(err, ReplayError::IncorrectEventVariant));
    assert!(event.to_text().contains("HostFuncEntryEvent"));
}

#[test]
fn recording_without_validation_replays() -> Result<(), Error> {
    let mut store = recording_store(false);
    assert_eq!(instantiate_and_call(TestModule::DoubleTwice, &mut store, 21)?, 84);
    let trace = store.opaque.into_trace().unwrap();
    assert_eq!(
        classes(&trace.events),
        vec!["CoreWasmInstantiation", "CoreWasmFuncEntry", "HostFuncReturn", "HostFuncReturn"]
    );
    run_to_completion(TestModule::DoubleTwice, trace)?;
    Ok(())
}

#[test]
fn diverging_replay_fails_validation() {
    let mut store = recording_store(true);
    instantiate_and_call(TestModule::DoubleOnce, &mut store, 21).unwrap();
    let mut trace = store.opaque.into_trace().unwrap();
    // The trace now claims another result for the host function, and so `main`
    // returns what it did not return.
    match &mut trace.events[3] {
        RREvent::HostFuncReturn(event) => event.args.bytes = vec![5, 0, 0, 0],
        _ => unreachable!(),
    }
    assert!(matches!(
        run_to_completion(TestModule::DoubleOnce, trace),
        Err(Error::Replay(ReplayError::FailedValidation))
    ));
}

fn returned(value: i32) -> RREvent {
    RREvent::HostFuncReturn(HostFuncReturnEvent {
        args: RRFuncArgVals { bytes: value.to_le_bytes().to_vec(), sizes: vec![4] },
    })
}

fn called(value: i32) -> RREvent {
    RREvent::HostFuncEntry(HostFuncEntryEvent {
        args: RRFuncArgVals { bytes: value.to_le_bytes().to_vec(), sizes: vec![4] },
    })
}

fn entered(instance: u32, index: u32, values: &[i32]) -> RREvent {
    let mut bytes = Vec::new();
    for value in values {
        bytes.extend(value.to_le_bytes());
    }
    RREvent::CoreWasmFuncEntry(WasmFuncEntryEvent {
        instance: RRModuleInstanceId(instance),
        func_index: FuncIndex(index),
        args: RRFuncArgVals { bytes, sizes: vec![4; values.len()] },
    })
}

fn replaying(events: Vec<RREvent>) -> Store<Vec<i32>> {
    let settings = RecordSettings { add_validation: true };
    let mut store =
        Store { opaque: StoreOpaque::replay(Trace { settings, events }), data: Vec::new() };
    let funcs = vec![
        FuncType { params: vec![], results: vec![] },
        FuncType { params: vec![ValType::I32, ValType::I32], results: vec![ValType::F64] },
    ];
    store.opaque.add_module_instance(RRModuleInstanceId(3), Instance { funcs });
    store
}

/// Replays a host function's return; a call of WebAssembly is noted in the
/// host's data, and fails if its first argument is negative.
fn replay_return(store: &mut Store<Vec<i32>>, slot: &mut [ValRaw]) -> Result<(), Error> {
    let mut caller = Caller {
        store,
        call_wasm: |store: &mut Store<Vec<i32>>, call: WasmCall| {
            assert_eq!(call.instance, RRModuleInstanceId(3));
            assert_eq!(call.func_index, FuncIndex(1));
            assert_eq!(call.results.len(), 1);
            assert_eq!(call.results[0].ty, ValType::I64);
            assert_eq!(call.results[0].raw, raw(0));
            for param in &call.params {
                assert_eq!(param.ty, ValType::I32);
                store.data.push(get(&param.raw));
            }
            if get(&call.params[0].raw) < 0 {
                return Err(Error::Wasm(String::from("trap")));
            }
            Ok(())
        },
    };
    replay_host_func_return(slot, &mut caller)
}

#[test]
fn replayed_return_makes_the_calls_on_the_way() {
    let mut store =
        replaying(vec![entered(3, 1, &[1, 2]), entered(3, 1, &[3, 4]), returned(5), returned(6)]);
    let mut slot = [raw(0)];
    assert!(replay_return(&mut store, &mut slot).is_ok());
    assert_eq!(get(&slot[0]), 5);
    assert_eq!(store.data, vec![1, 2, 3, 4]);
    assert!(matches!(store.opaque.next_event(), Ok(RREvent::HostFuncReturn(_))));
    assert!(matches!(store.opaque.next_event(), Err(ReplayError::EmptyBuffer)));
}

#[test]
fn failed_call_ends_the_replay() {
    let mut store = replaying(vec![entered(3, 1, &[-1, 2]), returned(5)]);
    let mut slot = [raw(8)];
    let error = replay_return(&mut store, &mut slot).unwrap_err();
    assert_eq!(error.to_text(), "trap");
    assert_eq!(get(&slot[0]), 8);
    assert!(matches!(store.opaque.next_event(), Ok(RREvent::HostFuncReturn(_))));
}

#[test]
fn unexpected_event_ends_the_replay() {
    let mut store = replaying(vec![called(1), returned(5)]);
    let mut slot = [raw(8)];
    assert!(matches!(
        replay_return(&mut store, &mut slot),
        Err(Error::UnexpectedEvent(RREvent::HostFuncEntry(_)))
    ));
    assert_eq!(get(&slot[0]), 8);
    assert!(replay_return(&mut store, &mut slot).is_ok());
    assert_eq!(get(&slot[0]), 5);
}

#[test]
fn end_of_trace_ends_the_replay() {
    let mut store = replaying(vec![]);
    let mut slot = [raw(8)];
    assert!(matches!(
        replay_return(&mut store, &mut slot),
        Err(Error::Replay(ReplayError::EmptyBuffer))
    ));
    assert_eq!(get(&slot[0]), 8);
}

#[test]
fn calls_that_cannot_be_made_are_refused() {
    let mut slot = [raw(8)];
    let mut store = replaying(vec![entered(4, 1, &[1, 2])]);
    assert!(matches!(
        replay_return(&mut store, &mut slot),
        Err(Error::Replay(ReplayError::MissingModuleInstance(RRModuleInstanceId(4))))
    ));
    let mut store = replaying(vec![entered(3, 2, &[1, 2])]);
    assert!(matches!(
        replay_return(&mut store, &mut slot),
        Err(Error::Replay(ReplayError::InvalidCoreFuncIndex(EntityIndex::Function(FuncIndex(2)))))
    ));
    let mut store = replaying(vec![entered(3, 1, &[1])]);
    assert!(matches!(
        replay_return(&mut store, &mut slot),
        Err(Error::ArgumentCount { expected: 2, given: 1 })
    ));
    assert!(store.data.is_empty());
    assert_eq!(get(&slot[0]), 8);
}

#[test]
fn replayed_entry_is_held_against_the_trace() {
    let slot = [raw(7)];
    let mut store = replaying(vec![called(7)]);
    assert!(replay_validate_host_func_entry(&slot, flat(), &mut store.opaque).is_ok());
    assert!(matches!(
        replay_validate_host_func_entry(&slot, flat(), &mut store.opaque),
        Err(Error::Replay(ReplayError::EmptyBuffer))
    ));
    let mut store = replaying(vec![called(8), returned(7)]);
    assert!(matches!(
        record_validate_host_func_entry(&slot, flat(), &mut store.opaque),
        Err(Error::Replay(ReplayError::FailedValidation))
    ));
    assert!(matches!(
        record_validate_host_func_entry(&slot, flat(), &mut store.opaque),
        Err(Error::Replay(ReplayError::IncorrectEventVariant))
    ));
}

#[test]
fn replay_does_not_record_and_recording_does_not_replay() {
    let mut slot = [raw(7)];
    let mut store = replaying(vec![returned(1)]);
    assert!(record_host_func_return(&slot, flat(), &mut store.opaque).is_ok());
    assert!(matches!(store.opaque.next_event(), Ok(RREvent::HostFuncReturn(_))));

    let opaque = StoreOpaque::record(RecordSettings { add_validation: true });
    let mut store = Store { opaque, data: Vec::new() };
    assert!(replay_return(&mut store, &mut slot).is_ok());
    assert_eq!(get(&slot[0]), 7);
    assert!(store.opaque.into_trace().unwrap().events.is_empty());
}

#[test]
fn calls_without_origin_pass_by() {
    let opaque = StoreOpaque::record(RecordSettings { add_validation: true });
    let mut store = Store { opaque, data: 0 };
    let mut slots = [raw(1)];
    let result = record_and_replay_validate_wasm_func(
        |store: &mut Store<i32>, slots: &mut [ValRaw]| {
            store.data = get(&slots[0]);
            slots[0] = raw(2);
            Err(Error::Wasm(String::from("trap")))
        },
        &mut slots,
        &i32_to_i32(),
        None,
        &mut store,
    );
    assert!(matches!(result, Err(Error::Wasm(_))));
    assert_eq!(store.data, 1);
    assert_eq!(get(&slots[0]), 2);
    assert!(store.opaque.into_trace().unwrap().events.is_empty());
}

#[test]
fn failed_call_is_recorded_and_replayed() {
    let trap = |_: &mut Store<i32>, _: &mut [ValRaw]| -> Result<(), Error> {
        Err(Error::Wasm(String::from("trap")))
    };
    let origin = Some(WasmFuncOrigin { instance: InstanceId(3), index: FuncIndex(1) });
    let settings = RecordSettings { add_validation: true };
    let mut store = Store { opaque: StoreOpaque::record(settings), data: 0 };
    let mut slots = [raw(1)];
    let result =
        record_and_replay_validate_wasm_func(trap, &mut slots, &i32_to_i32(), origin, &mut store);
    assert_eq!(result.unwrap_err().to_text(), "trap");
    let mut trace = store.opaque.into_trace().unwrap();
    assert_eq!(classes(&trace.events), vec!["CoreWasmFuncEntry", "WasmFuncReturn"]);
    match &trace.events[0] {
        RREvent::CoreWasmFuncEntry(event) => {
            assert_eq!(event.instance, RRModuleInstanceId(3));
            assert_eq!(event.func_index, FuncIndex(1));
            assert_eq!(event.args.bytes, vec![1, 0, 0, 0]);
            assert_eq!(event.args.sizes, vec![4]);
        }
        _ => unreachable!(),
    }

    trace.events.remove(0);
    let again = trace.events[0].clone();
    trace.events.push(again);
    let mut store = Store { opaque: StoreOpaque::replay(trace), data: 0 };
    let result =
        record_and_replay_validate_wasm_func(trap, &mut slots, &i32_to_i32(), origin, &mut store);
    assert_eq!(result.unwrap_err().to_text(), "trap");
    let result = record_and_replay_validate_wasm_func(
        |_: &mut Store<i32>, _: &mut [ValRaw]| Ok(()),
        &mut slots,
        &i32_to_i32(),
        origin,
        &mut store,
    );
    assert!(matches!(result, Err(Error::Replay(ReplayError::FailedValidation))));
}

#[test]
fn results_are_recorded_as_the_call_left_them() {
    let settings = RecordSettings { add_validation: true };
    let mut store = Store { opaque: StoreOpaque::record(settings), data: 0 };
    let mut slots = [raw(1)];
    let origin = Some(WasmFuncOrigin { instance: InstanceId(0), index: FuncIndex(0) });
    let double = |_: &mut Store<i32>, slots: &mut [ValRaw]| -> Result<(), Error> {
        slots[0] = raw(300);
        Ok(())
    };
    record_and_replay_validate_wasm_func(double, &mut slots, &i32_to_i32(), origin, &mut store)
        .unwrap();
    let trace = store.opaque.into_trace().unwrap();
    match &trace.events[1] {
        RREvent::WasmFuncReturn(event) => match &event.0 .0 {
            Ok(vals) => assert_eq!(vals.bytes, vec![44, 1, 0, 0]),
            Err(_) => unreachable!(),
        },
        _ => unreachable!(),
    }
}

#[test]
fn failed_writer_stops_the_recording() {
    let settings = RecordSettings { add_validation: true };
    let mut store = Store { opaque: StoreOpaque::record(settings), data: 0 };
    let mut slots = [raw(1)];
    record_host_func_return(&slots, flat(), &mut store.opaque).unwrap();
    store.opaque.fail_recording(String::from("disk full"));
    assert!(matches!(
        record_host_func_return(&slots, flat(), &mut store.opaque),
        Err(Error::RecordFailed(_))
    ));
    let origin = Some(WasmFuncOrigin { instance: InstanceId(0), index: FuncIndex(0) });
    let result = record_and_replay_validate_wasm_func(
        |_: &mut Store<i32>, _: &mut [ValRaw]| -> Result<(), Error> {
            panic!("the call must not be made")
        },
        &mut slots,
        &i32_to_i32(),
        origin,
        &mut store,
    );
    assert_eq!(result.unwrap_err().to_text(), "disk full");
    assert_eq!(store.opaque.into_trace().unwrap().events.len(), 1);
}

#[test]
fn instantiations_are_held_against_what_the_replay_was_told() {
    let told = InstantiationEvent { module: CHECKSUM, instance: RRModuleInstanceId(2) };
    let mut store = replaying(vec![returned(1)]);
    assert!(!store.opaque.has_current_module_instantiation());
    store.opaque.set_current_module_instantiation(told);
    assert!(store.opaque.has_current_module_instantiation());
    assert!(record_and_replay_validate_instantiation(&mut store, CHECKSUM, InstanceId(2)).is_ok());
    assert!(!store.opaque.has_current_module_instantiation());
    store.opaque.set_current_module_instantiation(told);
    assert!(matches!(
        record_and_replay_validate_instantiation(&mut store, CHECKSUM, InstanceId(1)),
        Err(Error::Replay(ReplayError::FailedValidation))
    ));
    store.opaque.set_current_module_instantiation(told);
    assert!(matches!(
        record_and_replay_validate_instantiation(&mut store, WasmChecksum([8; 32]), InstanceId(2)),
        Err(Error::Replay(ReplayError::FailedValidation))
    ));
    assert!(matches!(store.opaque.next_event(), Ok(RREvent::HostFuncReturn(_))));
}

#[test]
fn exported_memory_cannot_be_recorded() {
    let module = |rr: RRConfig, memory: bool| {
        let mut exports =
            vec![ExportType { name: String::from("main"), ty: ExternType::Func(i32_to_i32()) }];
        if memory {
            exports.push(ExportType { name: String::from("memory"), ty: ExternType::Memory });
        }
        Module { engine: Engine { rr }, exports }
    };
    assert!(matches!(
        rr_validate_module_unexported_memory(&module(RRConfig::Recording, true)),
        Err(Error::ExportedMemory)
    ));
    assert!(rr_validate_module_unexported_memory(&module(RRConfig::Recording, false)).is_ok());
    assert!(rr_validate_module_unexported_memory(&module(RRConfig::Replaying, true)).is_ok());
    assert!(rr_validate_module_unexported_memory(&module(RRConfig::Disabled, true)).is_ok());
}

#[test]
fn recordings_can_be_read() -> Result<(), Error> {
    for module in [TestModule::DoubleOnce, TestModule::DoubleTwice, TestModule::Reentrant] {
        for add_validation in [false, true] {
            let mut store = recording_store(add_validation);
            instantiate_and_call(module, &mut store, 5)?;
            assert!(store.opaque.into_trace().unwrap().is_well_formed());
        }
    }
    Ok(())
}

#[test]
fn wasm_calls_stay_nested_when_the_host_fails() {
    let origin = |index: u32| {
        Some(WasmFuncOrigin { instance: InstanceId(0), index: FuncIndex(index) })
    };
    let settings = RecordSettings { add_validation: true };
    let mut store = Store { opaque: StoreOpaque::record(settings), data: 0 };
    let mut slots = [raw(1)];
    let result = record_and_replay_validate_wasm_func(
        |store: &mut Store<i32>, slots: &mut [ValRaw]| -> Result<(), Error> {
            record_validate_host_func_entry(slots, flat(), &mut store.opaque)?;
            record_and_replay_validate_wasm_func(
                |_: &mut Store<i32>, _: &mut [ValRaw]| Ok(()),
                slots,
                &i32_to_i32(),
                origin(2),
                store,
            )?;
            Err(Error::Wasm(String::from("host failed")))
        },
        &mut slots,
        &i32_to_i32(),
        origin(1),
        &mut store,
    );
    assert_eq!(result.unwrap_err().to_text(), "host failed");
    assert_eq!(
        classes(&store.opaque.into_trace().unwrap().events),
        vec![
            "CoreWasmFuncEntry",
            "HostFuncEntry",
            "CoreWasmFuncEntry",
            "WasmFuncReturn",
            "WasmFuncReturn",
        ]
    );
}

#[test]
fn failed_writer_is_reported_by_every_hook() {
    let settings = RecordSettings { add_validation: true };
    let mut store = Store { opaque: StoreOpaque::record(settings), data: 0 };
    store.opaque.fail_recording(String::from("disk full"));
    let slots = [raw(1)];
    let entry = record_validate_host_func_entry(&slots, flat(), &mut store.opaque);
    assert_eq!(entry.unwrap_err().to_text(), "disk full");
    let exit = record_host_func_return(&slots, flat(), &mut store.opaque);
    assert_eq!(exit.unwrap_err().to_text(), "disk full");
    let instantiated =
        record_and_replay_validate_instantiation(&mut store, CHECKSUM, InstanceId(0));
    assert_eq!(instantiated.unwrap_err().to_text(), "disk full");
    let origin = Some(WasmFuncOrigin { instance: InstanceId(0), index: FuncIndex(0) });
    let returned = record_and_replay_validate_wasm_return(
        Ok(()),
        &slots,
        &i32_to_i32(),
        origin,
        &mut store.opaque,
    );
    assert_eq!(returned.unwrap_err().to_text(), "disk full");
    assert!(store.opaque.into_trace().unwrap().events.is_empty());
}
