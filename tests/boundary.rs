use cppbind::boundary::{bind_error_reset, bind_error_what, finish_call, native_boundary, BindError, CallOutcome, ErrorSlot};

fn call_add(slot: &mut ErrorSlot, native: Result<i64, Vec<u8>>) -> Result<i64, BindError> {
    let outcome = native_boundary(slot, native);
    finish_call(slot, outcome)
}

#[test]
fn bind_error_keeps_valid_message() {
    let e = BindError::new(b"runtime error");
    assert_eq!(e.what, "runtime error");
}

#[test]
fn bind_error_falls_back_on_undecodable_message() {
    let e = BindError::new(&[0xff, 0xfe, 0x41]);
    assert_eq!(e.what, "exception");
}

#[test]
fn bind_error_decodes_multibyte_text() {
    let e = BindError::new("débordement".as_bytes());
    assert_eq!(e.what, "débordement");
}

#[test]
fn slot_starts_clear() {
    let slot = ErrorSlot::new();
    assert!(!slot.is_set());
    assert!(bind_error_what(&slot).is_none());
}

#[test]
fn slot_what_and_reset() {
    let mut slot = ErrorSlot::new();
    slot.store(b"boom".to_vec());
    assert!(slot.is_set());
    assert_eq!(bind_error_what(&slot), Some(String::from("boom")));
    bind_error_reset(&mut slot);
    assert!(!slot.is_set());
}

#[test]
fn successful_call_leaves_slot_clear() {
    let mut slot = ErrorSlot::new();
    let r = call_add(&mut slot, Ok(3));
    assert!(matches!(r, Ok(3)));
    assert!(!slot.is_set());
}

#[test]
fn add_throw_runtime_carries_message() {
    let mut slot = ErrorSlot::new();
    let err = match call_add(&mut slot, Err(b"runtime error".to_vec())) {
        Ok(_) => String::from("no exception"),
        Err(e) => e.what,
    };
    assert_eq!(err, "runtime error");
    assert!(!slot.is_set());
}

#[test]
fn add_throw_bogus_gives_fallback_message() {
    let mut slot = ErrorSlot::new();
    let err = match call_add(&mut slot, Err(vec![0xc3, 0x28])) {
        Ok(_) => String::from("no exception"),
        Err(e) => e.what,
    };
    assert_eq!(err, "exception");
}

#[test]
fn failure_then_success_sees_no_stale_message() {
    let mut slot = ErrorSlot::new();
    assert!(call_add(&mut slot, Err(b"first".to_vec())).is_err());
    assert!(!slot.is_set());
    let r = call_add(&mut slot, Ok(7));
    assert!(matches!(r, Ok(7)));
    assert!(!slot.is_set());
}

#[test]
fn failed_signal_on_clear_slot_gives_fallback() {
    let mut slot = ErrorSlot::new();
    let r: Result<i32, BindError> = finish_call(&mut slot, CallOutcome::Failed);
    assert_eq!(r.unwrap_err().what, "exception");
}

#[test]
fn large_signed_results_cross_unchanged() {
    let mut slot = ErrorSlot::new();
    let min = (i64::MIN + 1) + -1;
    let max = (i64::MAX - 1) + 1;
    assert_eq!(call_add(&mut slot, Ok(min)).unwrap(), i64::MIN);
    assert_eq!(call_add(&mut slot, Ok(max)).unwrap(), i64::MAX);
}
