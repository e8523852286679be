use rwkv_ffi::driver::{
    begin_infer, finish_load, infer_code, next_phase, status_code, write_logits, Phase,
};
use rwkv_ffi::error::FfiError;
use rwkv_ffi::quant::{quant_of_layer, quant_plan, LoadPlan, Quant};
use rwkv_ffi::slot::RuntimeSlot;

#[test]
fn quant_plan_four_layer_model() {
    let plan = quant_plan(2, 1);
    assert_eq!(plan, vec![(0, Quant::Int8), (1, Quant::Int8), (2, Quant::NF4)]);
    assert_eq!(quant_of_layer(3, 2, 1), Quant::Full);
    let plan = LoadPlan::new(2, 1, Some(6));
    assert_eq!(plan.quant.len(), 3);
    assert_eq!(plan.rescale, Some(6));
}

#[test]
fn quant_plan_empty() {
    assert!(quant_plan(0, 0).is_empty());
    assert_eq!(quant_plan(0, 2), vec![(0, Quant::NF4), (1, Quant::NF4)]);
}

#[test]
fn slot_starts_empty() {
    let slot: RuntimeSlot<u32> = RuntimeSlot::new();
    assert!(!slot.is_loaded());
    assert_eq!(slot.snapshot(), Err(FfiError::NotLoaded));
}

#[test]
fn slot_install_replaces_whole() {
    let mut slot = RuntimeSlot::new();
    assert_eq!(slot.install(7u32), None);
    assert_eq!(slot.snapshot(), Ok(&7));
    assert_eq!(slot.install(9u32), Some(7));
    assert_eq!(slot.snapshot(), Ok(&9));
}

#[test]
fn infer_before_load_is_not_loaded() {
    let slot: RuntimeSlot<u32> = RuntimeSlot::new();
    let r = begin_infer(&slot, &vec![1, 2, 3]);
    assert_eq!(r, Err(FfiError::NotLoaded));
    assert_eq!(infer_code(Err(FfiError::NotLoaded)), 0);
    assert_eq!(status_code(Err(FfiError::NotLoaded)), -1);
}

#[test]
fn infer_empty_input_rejected() {
    let mut slot = RuntimeSlot::new();
    slot.install(5u32);
    assert_eq!(begin_infer(&slot, &Vec::new()), Err(FfiError::InvalidInput));
    assert_eq!(slot.snapshot(), Ok(&5));
    assert_eq!(begin_infer(&slot, &vec![1]), Ok(&5));
}

#[test]
fn logits_size_mismatch_writes_nothing() {
    let dist = vec![1u32, 2, 3, 4];
    let mut buf = vec![9u32; 3];
    assert_eq!(write_logits(&dist, &mut buf), Err(FfiError::SizeMismatch));
    assert_eq!(buf, vec![9, 9, 9]);
    let mut buf = vec![9u32; 5];
    assert_eq!(write_logits(&dist, &mut buf), Err(FfiError::SizeMismatch));
    assert_eq!(buf, vec![9; 5]);
}

#[test]
fn logits_copied_when_sizes_match() {
    let dist = vec![0.5f32.to_bits(), 0.25f32.to_bits()];
    let mut buf = vec![0u32; 2];
    assert_eq!(write_logits(&dist, &mut buf), Ok(()));
    assert_eq!(buf, dist);
    assert_eq!(status_code(Ok(())), 0);
}

#[test]
fn chunk_phases() {
    assert_eq!(next_phase(0), Phase::AwaitingOutput);
    assert_eq!(next_phase(65536), Phase::Done);
}

#[test]
fn load_outcomes() {
    let mut slot = RuntimeSlot::new();
    assert_eq!(finish_load(&mut slot, Err(FfiError::LoadError)), (-1, None));
    assert!(!slot.is_loaded());
    assert_eq!(finish_load(&mut slot, Ok(1u32)), (0, None));
    assert_eq!(finish_load(&mut slot, Err(FfiError::DeviceError)), (-1, None));
    assert_eq!(slot.snapshot(), Ok(&1));
    assert_eq!(finish_load(&mut slot, Ok(2u32)), (0, Some(1)));
    assert_eq!(infer_code(Ok(42)), 42);
}
