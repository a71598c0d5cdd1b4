use rr_hooks::args::{sizes_fit_slots, RRFuncArgVals};
use rr_hooks::error::{EntityIndex, Error, ReplayError};
use rr_hooks::events::{
    FuncIndex, HostFuncEntryEvent, HostFuncReturnEvent, InstantiationEvent, RREvent,
    RRModuleInstanceId, ResultEvent, WasmChecksum, WasmFuncEntryEvent, WasmFuncReturnEvent,
};
use rr_hooks::store::{RecordSettings, Trace};
use rr_hooks::values::{collect_byte_sizes, FlatBytes, ValRaw, ValType};

fn counting() -> ValRaw {
    ValRaw { bytes: [1, 2, 3, 4, 5, 6, 7, 8, 9, 10, 11, 12, 13, 14, 15, 16] }
}

fn vals(bytes: Vec<u8>, sizes: Vec<u8>) -> RRFuncArgVals {
    RRFuncArgVals { bytes, sizes }
}

#[test]
fn byte_sizes_of_types() {
    let types = vec![
        ValType::I32,
        ValType::I64,
        ValType::F32,
        ValType::F64,
        ValType::V128,
        ValType::Ref32,
        ValType::Ref64,
    ];
    assert_eq!(collect_byte_sizes(&types), vec![4, 8, 4, 8, 16, 4, 8]);
}

#[test]
fn raw_values_give_and_take_low_bytes() {
    assert_eq!(counting().bytes(0), Vec::<u8>::new());
    assert_eq!(counting().bytes(3), vec![1, 2, 3]);
    assert_eq!(counting().bytes(16), counting().bytes.to_vec());
    let value = ValRaw::from_bytes(&[9, 8]);
    assert_eq!(value.bytes, [9, 8, 0, 0, 0, 0, 0, 0, 0, 0, 0, 0, 0, 0, 0, 0]);
}

#[test]
fn flattening_stops_where_either_side_ends() {
    let args = [counting(), ValRaw::from_bytes(&[20, 21, 22])];
    let both = RRFuncArgVals::from_flat_iter(&args, vec![2u8, 4].into_iter());
    assert_eq!(both, vals(vec![1, 2, 20, 21, 22, 0], vec![2, 4]));
    let fewer_sizes = RRFuncArgVals::from_flat_iter(&args, vec![2u8].into_iter());
    assert_eq!(fewer_sizes, vals(vec![1, 2], vec![2]));
    let more_sizes = RRFuncArgVals::from_flat_iter(&args, vec![1u8, 1, 8].into_iter());
    assert_eq!(more_sizes, vals(vec![1, 20], vec![1, 1]));
}

#[test]
fn values_survive_the_round_trip() {
    let args = [ValRaw::from_bytes(&[1, 2, 3, 4]), counting()];
    let flat = RRFuncArgVals::from_flat_iter(&args, vec![4u8, 8].into_iter());
    let mut slots = [counting(), counting(), counting()];
    flat.into_raw_slice(&mut slots);
    assert_eq!(slots[0], args[0]);
    assert_eq!(slots[1].bytes, [1, 2, 3, 4, 5, 6, 7, 8, 0, 0, 0, 0, 0, 0, 0, 0]);
    assert_eq!(slots[2], counting());
}

#[test]
fn typed_values_stop_where_either_side_ends() {
    let flat = vals(vec![1, 2, 3, 4, 5, 6, 7, 8, 9, 10, 11, 12], vec![4, 8]);
    let typed = flat.to_val_vec(&vec![ValType::F32, ValType::I64, ValType::I32]);
    assert_eq!(typed.len(), 2);
    assert_eq!(typed[0].ty, ValType::F32);
    assert_eq!(typed[0].raw, ValRaw::from_bytes(&[1, 2, 3, 4]));
    assert_eq!(typed[1].ty, ValType::I64);
    assert_eq!(typed[1].raw, ValRaw::from_bytes(&[5, 6, 7, 8, 9, 10, 11, 12]));
    assert_eq!(flat.to_val_vec(&vec![ValType::F32]).len(), 1);
}

#[test]
fn malformed_values_are_told_apart() {
    assert!(vals(vec![1, 2], vec![2]).is_well_formed());
    assert!(vals(vec![1, 2, 3], vec![2]).is_well_formed());
    assert!(!vals(vec![1], vec![2]).is_well_formed());
    assert!(!vals(vec![0; 17], vec![17]).is_well_formed());
    let event = RREvent::HostFuncReturn(HostFuncReturnEvent { args: vals(vec![], vec![1]) });
    assert!(!event.is_well_formed());
}

#[test]
fn equality_of_values() {
    let value = vals(vec![1, 2], vec![2]);
    assert!(value.equals(&value.clone()));
    assert!(!value.equals(&vals(vec![1, 2], vec![1, 1])));
    assert!(!value.equals(&vals(vec![1, 3], vec![2])));
    assert!(!value.equals(&vals(vec![1, 2, 3], vec![2])));
}

#[test]
fn validation_of_single_events() {
    let entry = HostFuncEntryEvent { args: vals(vec![1], vec![1]) };
    assert_eq!(entry.validate(&HostFuncEntryEvent { args: vals(vec![1], vec![1]) }), Ok(()));
    assert_eq!(
        entry.validate(&HostFuncEntryEvent { args: vals(vec![2], vec![1]) }),
        Err(ReplayError::FailedValidation)
    );

    let ok = WasmFuncReturnEvent(ResultEvent(Ok(vals(vec![1], vec![1]))));
    assert_eq!(ok.validate(&Ok(vals(vec![1], vec![1]))), Ok(()));
    assert_eq!(ok.validate(&Ok(vals(vec![2], vec![1]))), Err(ReplayError::FailedValidation));
    assert_eq!(
        ok.validate(&Err(Error::Wasm(String::from("trap")))),
        Err(ReplayError::FailedValidation)
    );

    let trap = WasmFuncReturnEvent(ResultEvent(Err(String::from("trap"))));
    assert_eq!(trap.validate(&Err(Error::Wasm(String::from("trap")))), Ok(()));
    assert_eq!(
        trap.validate(&Err(Error::Wasm(String::from("other")))),
        Err(ReplayError::FailedValidation)
    );

    let event = InstantiationEvent {
        module: WasmChecksum([3; 32]),
        instance: RRModuleInstanceId(1),
    };
    assert_eq!(event.validate(&event), Ok(()));
    let mut other = event;
    other.module.0[31] = 4;
    assert_eq!(event.validate(&other), Err(ReplayError::FailedValidation));
    other = event;
    other.instance = RRModuleInstanceId(2);
    assert_eq!(event.validate(&other), Err(ReplayError::FailedValidation));
}

#[test]
fn events_convert_to_their_own_kind_only() {
    let entry = || RREvent::HostFuncEntry(HostFuncEntryEvent { args: vals(vec![5], vec![1]) });
    let ret = || RREvent::WasmFuncReturn(WasmFuncReturnEvent(ResultEvent(Err(String::new()))));
    assert_eq!(HostFuncEntryEvent::try_from(entry()).unwrap().args.bytes, vec![5]);
    assert!(WasmFuncReturnEvent::try_from(ret()).is_ok());
    assert_eq!(
        HostFuncEntryEvent::try_from(ret()).unwrap_err(),
        ReplayError::IncorrectEventVariant
    );
    assert_eq!(
        WasmFuncReturnEvent::try_from(entry()).unwrap_err(),
        ReplayError::IncorrectEventVariant
    );
}

#[test]
fn texts_of_events() {
    let event = RREvent::HostFuncEntry(HostFuncEntryEvent {
        args: vals(vec![0, 0, 0, 21], vec![4]),
    });
    assert_eq!(
        event.to_text(),
        "HostFuncEntryEvent { args: RRFuncArgVals { bytes: [0, 0, 0, 21], sizes: [4] } }"
    );
    assert_eq!(event.to_text(), format!("{:?}", match &event {
        RREvent::HostFuncEntry(inner) => inner,
        _ => unreachable!(),
    }));
    let call = RREvent::CoreWasmFuncEntry(WasmFuncEntryEvent {
        instance: RRModuleInstanceId(120),
        func_index: FuncIndex(9),
        args: vals(vec![], vec![]),
    });
    assert_eq!(
        call.to_text(),
        "WasmFuncEntryEvent { instance: RRModuleInstanceId(120), func_index: FuncIndex(9), args: RRFuncArgVals { bytes: [], sizes: [] } }"
    );
    let mut debug = String::new();
    call.push_debug_text(&mut debug);
    assert_eq!(debug, format!("{:?}", call));
    let ok = RREvent::WasmFuncReturn(WasmFuncReturnEvent(ResultEvent(Ok(vals(vec![255], vec![1])))));
    assert_eq!(
        ok.to_text(),
        "WasmFuncReturnEvent(ResultEvent(Ok(RRFuncArgVals { bytes: [255], sizes: [1] })))"
    );
    let instantiation = RREvent::CoreWasmInstantiation(InstantiationEvent {
        module: WasmChecksum([0; 32]),
        instance: RRModuleInstanceId(1),
    });
    let mut debug = String::new();
    instantiation.push_debug_text(&mut debug);
    assert_eq!(debug, format!("{:?}", instantiation));
}

#[test]
fn texts_of_errors() {
    assert_eq!(Error::Replay(ReplayError::EmptyBuffer).to_text(), "replay buffer is empty");
    assert_eq!(
        Error::Replay(ReplayError::FailedValidation).to_text(),
        "replay event validation failed"
    );
    assert_eq!(
        Error::Replay(ReplayError::IncorrectEventVariant).to_text(),
        "event type mismatch during replay"
    );
    assert_eq!(
        Error::Replay(ReplayError::MissingModuleInstance(RRModuleInstanceId(12))).to_text(),
        "missing module instance 12"
    );
    assert_eq!(
        Error::Replay(ReplayError::InvalidCoreFuncIndex(EntityIndex::Function(FuncIndex(7))))
            .to_text(),
        "invalid core function index Function(7)"
    );
    assert_eq!(Error::RecordFailed(String::from("disk full")).to_text(), "disk full");
    assert_eq!(
        Error::ExportedMemory.to_text(),
        "Cannot support recording for core wasm modules when a memory is exported"
    );
    assert_eq!(
        Error::ArgumentCount { expected: 10, given: 2 }.to_text(),
        "expected 10 arguments, got 2"
    );
    assert_eq!(Error::Wasm(String::from("unreachable")).to_text(), "unreachable");
    let event = HostFuncEntryEvent { args: vals(vec![1], vec![1]) };
    assert_eq!(
        Error::UnexpectedEvent(RREvent::HostFuncEntry(event)).to_text(),
        "Unexpected event during core wasm host function replay: expected HostFuncReturn or CoreWasmFuncEntry, got HostFuncEntry(HostFuncEntryEvent { args: RRFuncArgVals { bytes: [1], sizes: [1] } })"
    );
}

#[test]
fn text_of_a_failed_return_gives_the_message_as_it_is() {
    let event = RREvent::WasmFuncReturn(WasmFuncReturnEvent(ResultEvent(Err(String::from(
        "say \"trap\"",
    )))));
    assert_eq!(event.to_text(), "WasmFuncReturnEvent(ResultEvent(Err(say \"trap\")))");
    let mut debug = String::new();
    event.push_debug_text(&mut debug);
    assert_eq!(debug, "WasmFuncReturn(WasmFuncReturnEvent(ResultEvent(Err(say \"trap\"))))");
}

#[test]
fn traces_that_cannot_be_read_are_told_apart() {
    let trace = |events: Vec<RREvent>| Trace {
        settings: RecordSettings { add_validation: true },
        events,
    };
    let good = || RREvent::HostFuncReturn(HostFuncReturnEvent { args: vals(vec![1], vec![1]) });
    let bad = || RREvent::HostFuncReturn(HostFuncReturnEvent { args: vals(vec![], vec![1]) });
    let compared = || RREvent::HostFuncEntry(HostFuncEntryEvent { args: vals(vec![], vec![1]) });
    assert!(trace(vec![]).is_well_formed());
    assert!(trace(vec![good(), compared(), good()]).is_well_formed());
    assert!(!trace(vec![good(), bad()]).is_well_formed());
    assert!(!trace(vec![bad(), good()]).is_well_formed());
}

#[test]
fn sizes_are_held_against_the_slot() {
    assert!(sizes_fit_slots(&[], 3));
    assert!(sizes_fit_slots(&[0, 4, 16], 3));
    assert!(!sizes_fit_slots(&[4, 17], 2));
    assert!(sizes_fit_slots(&[4, 17], 1));
}
