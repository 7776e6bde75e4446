use runtime_fuzzing::accounts::AccountId;
use runtime_fuzzing::records::{
    args_json, extract_call_variant, failed_result, format_dispatch_result, DecodeStatsRecord,
    ExecutionRecord,
};
use sp_runtime::{DispatchError, ModuleError, TokenError};

#[test]
fn variant_ends_at_first_bracket() {
    assert_eq!(extract_call_variant("Balances(transfer { dest: (1) })"), "Balances");
    assert_eq!(extract_call_variant("Timestamp"), "Timestamp");
    assert_eq!(extract_call_variant("(x)"), "");
    assert_eq!(extract_call_variant(""), "");
    assert_eq!(extract_call_variant("\u{e4}\u{20ac}(x"), "\u{e4}\u{20ac}");
}

#[test]
fn arguments_are_a_json_object() {
    assert_eq!(args_json("Balances(transfer)"), "{\"debug\":\"Balances(transfer)\"}");
    assert_eq!(args_json(""), "{\"debug\":\"\"}");
}

#[test]
fn json_escapes() {
    assert_eq!(
        args_json("\"\\/\u{8}\u{9}\u{a}\u{c}\u{d}\u{0}\u{1f}\u{7f}\u{20ac}"),
        "{\"debug\":\"\\\"\\\\/\\b\\t\\n\\f\\r\\u0000\\u001f\u{7f}\u{20ac}\"}"
    );
    for code in 0..32u8 {
        let text = args_json(&(code as char).to_string());
        let expected = match code {
            8 => "\\b".to_string(),
            9 => "\\t".to_string(),
            10 => "\\n".to_string(),
            12 => "\\f".to_string(),
            13 => "\\r".to_string(),
            _ => format!("\\u{:04x}", code),
        };
        assert_eq!(text, format!("{{\"debug\":\"{}\"}}", expected));
    }
}

#[test]
fn different_calls_have_different_arguments() {
    assert_ne!(args_json("a\"b"), args_json("a\\\"b"));
    assert_ne!(args_json("\n"), args_json("\\n"));
}

#[test]
fn accounts_are_shown_in_hexadecimal() {
    let text = AccountId::from_index(1).to_text();
    assert_eq!(text, format!("{} (5C62Ck4U...)", "01".repeat(32)));
    let text = AccountId::from_index(0xaf).to_text();
    assert!(text.starts_with(&format!("{} (", "af".repeat(32))));
    assert!(text.ends_with("...)"));
    assert_eq!(text.len(), 78);
}

#[test]
fn outcomes_are_recorded() {
    assert_eq!(format_dispatch_result(&Ok(())), "Ok");
    assert_eq!(format_dispatch_result(&Err(DispatchError::BadOrigin)), "Err(BadOrigin)");
    assert_eq!(
        format_dispatch_result(&Err(DispatchError::Token(TokenError::FundsUnavailable))),
        "Err(Token(FundsUnavailable))"
    );
    let error = ModuleError { index: 6, error: [2, 0, 0, 0], message: Some("InsufficientBalance") };
    assert_eq!(
        format_dispatch_result(&Err(DispatchError::Module(error))),
        "Err(Module(ModuleError { index: 6, error: [2, 0, 0, 0], message: Some(\"InsufficientBalance\") }))"
    );
    assert_eq!(failed_result("x"), "Err(x)");
}

#[test]
fn record_holds_what_happened() {
    let origin = AccountId::from_index(3);
    let record = ExecutionRecord::new("Vesting(vest)", &origin, &Err(DispatchError::CannotLookup));
    assert_eq!(record.call_variant, "Vesting");
    assert_eq!(record.args_json, "{\"debug\":\"Vesting(vest)\"}");
    assert_eq!(record.origin, origin.to_text());
    assert_eq!(record.result, "Err(CannotLookup)");
}

#[test]
fn columns_are_signed() {
    let record = DecodeStatsRecord {
        total_attempts: 10,
        successful_decodes: usize::MAX,
        filtered_calls: 1usize << 63,
    };
    assert_eq!(record.row(), (10, -1, i64::MIN));
}

#[test]
fn recorded_call_reads_back() {
    let all: String = (0u32..0x300).filter_map(char::from_u32).collect();
    for text in ["", "Balances(transfer)", "a\"b\\c/\n\u{0}\u{1f}\u{7f}\u{1f600}", all.as_str()] {
        let args = args_json(text);
        let read: serde_json::Value = serde_json::from_str(&args).unwrap();
        let object = read.as_object().unwrap();
        assert_eq!(object.len(), 1);
        assert_eq!(object["debug"].as_str(), Some(text));
    }
}
