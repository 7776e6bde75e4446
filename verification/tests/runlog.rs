use runtime_fuzzing::blocks::{MultiBlockCalls, NonEmpty};
use runtime_fuzzing::calls::{ArbitraryRuntimeCall, CallOrigin, RuntimeCall, VestingCall};
use runtime_fuzzing::runlog::{format_origin, input_log, result_log, ruler};
use sp_runtime::DispatchError;

fn call(origin: CallOrigin) -> ArbitraryRuntimeCall {
    ArbitraryRuntimeCall { call: RuntimeCall::Vesting(VestingCall::Vest), origin }
}

#[test]
fn origins_are_named() {
    assert_eq!(format_origin(&CallOrigin::Signed(0)), "Signed(account_0)");
    assert_eq!(format_origin(&CallOrigin::Signed(105)), "Signed(account_105)");
    assert_eq!(format_origin(&CallOrigin::Root), "Root");
}

#[test]
fn inputs_are_listed() {
    let blocks = MultiBlockCalls(vec![
        NonEmpty(vec![call(CallOrigin::Signed(3)), call(CallOrigin::Root)]),
        NonEmpty(vec![call(CallOrigin::Signed(4))]),
    ]);
    let texts = vec![vec!["A".to_string(), "B(x)".to_string()], vec!["C".to_string()]];
    let line = "=".repeat(80);
    assert_eq!(ruler(), line);
    assert_eq!(
        input_log(&blocks, &texts),
        vec![
            format!("\n{}", line),
            "NEW FUZZER INPUT - 2 blocks".to_string(),
            line,
            "\nBlock 1:".to_string(),
            "  Call 1: A (origin: Signed(account_3))".to_string(),
            "  Call 2: B(x) (origin: Root)".to_string(),
            "\nBlock 2:".to_string(),
            "  Call 1: C (origin: Signed(account_4))".to_string(),
        ]
    );
}

#[test]
fn outcomes_are_listed() {
    assert_eq!(result_log(0, 0, &Ok(())), "    \u{2192} Block 0 Call 1 result: \u{2713} Ok");
    assert_eq!(
        result_log(12, 9, &Err(DispatchError::BadOrigin)),
        "    \u{2192} Block 12 Call 10 result: \u{2717} Err(BadOrigin)"
    );
}
