//! What is recorded of a fuzzing campaign.
use crate::accounts::{shows_account, AccountId};
use crate::json::{json_object, object_reads_back, object_text, read_object};
use vstd::prelude::*;
use vstd::string::*;

verus! {

/// Declares the error of a dispatched call.
#[verifier::external_type_specification]
#[verifier::external_body]
pub struct ExDispatchError(sp_runtime::DispatchError);

/// A call that was executed: which one, by whom and how it ended.
#[derive(Debug, PartialEq, Eq)]
pub struct ExecutionRecord {
    pub call_variant: String,
    pub args_json: String,
    pub origin: String,
    pub result: String,
}

/// How many calls an iteration decoded.
#[derive(Debug, Clone, Copy, PartialEq, Eq)]
pub struct DecodeStatsRecord {
    pub total_attempts: usize,
    pub successful_decodes: usize,
    pub filtered_calls: usize,
}

/// The part of `text` before its first opening bracket, or all of it where there is none.
pub open spec fn before_bracket(text: Seq<char>) -> Seq<char> {
    match text.index_of_first('(') {
        Some(i) => text.take(i),
        None => text,
    }
}

/// Extracts the variant from the debug text of a call, such as `Balances(transfer { ... })`.
pub fn extract_call_variant(call_debug: &str) -> (variant: String)
    ensures
        variant@ == before_bracket(call_debug@),
{
    let len: usize = call_debug.unicode_len();
    let mut n: usize = 0;
    for c in it: call_debug.chars()
        invariant
            it.seq() == call_debug@,
            len == call_debug@.len(),
            n == it.index(),
            forall|j: int| 0 <= j < it.index() ==> call_debug@[j] != '(',
    {
        if c == '(' {
            proof {
                call_debug@.index_of_first_ensures('(');
            }
            return call_debug.substring_char(0, n).to_string();
        }
        n = n + 1;
    }
    proof {
        call_debug@.index_of_first_ensures('(');
    }
    call_debug.to_string()
}

/// The JSON object under which the debug text of a call is recorded.
pub open spec fn args_object(call_debug: Seq<char>) -> Seq<char> {
    json_object("debug"@, call_debug)
}

/// The JSON object under which the debug text of a call is recorded.
pub fn args_json(call_debug: &str) -> (text: String)
    ensures
        text@ == args_object(call_debug@),
{
    object_text("debug", call_debug)
}

/// The debug text of a dispatch error.
pub uninterp spec fn dispatch_error_debug(error: sp_runtime::DispatchError) -> Seq<char>;

/// `Debug` of `sp_runtime::DispatchError`, which depends on the error alone.
#[verifier::external_body]
pub(crate) fn error_debug(error: &sp_runtime::DispatchError) -> (text: String)
    ensures
        text@ == dispatch_error_debug(*error),
{
    format!("{:?}", error)
}

/// How a failure with this debug text is recorded.
pub open spec fn failure_text(error_debug: Seq<char>) -> Seq<char> {
    "Err("@ + error_debug + ")"@
}

/// How a failure with this debug text is recorded.
pub fn failed_result(error_debug: &str) -> (text: String)
    ensures
        text@ == failure_text(error_debug@),
{
    let mut text: String = "Err(".to_string();
    text.append(error_debug);
    text.append(")");
    text
}

/// How the outcome of a call is recorded.
pub open spec fn result_text(result: Result<(), sp_runtime::DispatchError>) -> Seq<char> {
    match result {
        Ok(_) => "Ok"@,
        Err(error) => failure_text(dispatch_error_debug(error)),
    }
}

/// How the outcome of a call is recorded.
pub fn format_dispatch_result(result: &Result<(), sp_runtime::DispatchError>) -> (text: String)
    ensures
        text@ == result_text(*result),
{
    match result {
        Ok(_) => "Ok".to_string(),
        Err(error) => failed_result(error_debug(error).as_str()),
    }
}

/// Whether `record` is the record of a call with the debug text `call_debug` that `origin` sent and
/// that ended with `result`.
pub open spec fn records_execution(
    record: ExecutionRecord,
    call_debug: Seq<char>,
    origin: AccountId,
    result: Result<(), sp_runtime::DispatchError>,
) -> bool {
    &&& record.call_variant@ == before_bracket(call_debug)
    &&& record.args_json@ == args_object(call_debug)
    &&& shows_account(origin.bytes@, record.origin@)
    &&& record.result@ == result_text(result)
}

impl ExecutionRecord {
    /// The record of a call.
    pub fn new(
        call_debug: &str,
        origin: &AccountId,
        result: &Result<(), sp_runtime::DispatchError>,
    ) -> (record: ExecutionRecord)
        ensures
            records_execution(record, call_debug@, *origin, *result),
    {
        ExecutionRecord {
            call_variant: extract_call_variant(call_debug),
            args_json: args_json(call_debug),
            origin: origin.to_text(),
            result: format_dispatch_result(result),
        }
    }
}

/// The signed integer with the bits of `n`: columns are signed.
pub open spec fn column(n: usize) -> int {
    if n <= i64::MAX {
        n as int
    } else {
        n - 0x1_0000_0000_0000_0000
    }
}

fn to_column(n: usize) -> (value: i64)
    ensures
        value == column(n),
{
    let wide: u64 = n as u64;
    assert(wide <= 0x7fff_ffff_ffff_ffff ==> (wide as i64) == wide) by (bit_vector);
    assert(wide > 0x7fff_ffff_ffff_ffff ==> (wide as i64) == wide - 0x1_0000_0000_0000_0000)
        by (bit_vector);
    #[verifier::truncate]
    (wide as i64)
}

impl DecodeStatsRecord {
    /// The columns of the record: attempts, successes and filtered calls.
    pub fn row(&self) -> (columns: (i64, i64, i64))
        ensures
            columns.0 == column(self.total_attempts),
            columns.1 == column(self.successful_decodes),
            columns.2 == column(self.filtered_calls),
    {
        (
            to_column(self.total_attempts),
            to_column(self.successful_decodes),
            to_column(self.filtered_calls),
        )
    }
}

/// The debug text of a call can be read back from its record: its arguments are an object that
/// holds the text, and nothing else, under `debug`.
pub proof fn recorded_call_reads_back(
    record: ExecutionRecord,
    call_debug: Seq<char>,
    origin: AccountId,
    result: Result<(), sp_runtime::DispatchError>,
)
    requires
        records_execution(record, call_debug, origin, result),
    ensures
        read_object(record.args_json@) == Some(("debug"@, call_debug)),
{
    object_reads_back("debug"@, call_debug);
}

/// A record keeps the whole debug text of its call, the sender and whether the call succeeded.
pub proof fn record_identifies_execution(
    record: ExecutionRecord,
    call_a: Seq<char>,
    call_b: Seq<char>,
    origin_a: AccountId,
    origin_b: AccountId,
    result_a: Result<(), sp_runtime::DispatchError>,
    result_b: Result<(), sp_runtime::DispatchError>,
)
    requires
        records_execution(record, call_a, origin_a, result_a),
        records_execution(record, call_b, origin_b, result_b),
    ensures
        call_a == call_b,
        origin_a == origin_b,
        result_a is Ok <==> result_b is Ok,
{
    crate::json::object_keeps_its_value("debug"@, call_a, call_b);
    crate::accounts::text_identifies_account(origin_a, origin_b, record.origin@);
    reveal_strlit("Ok");
    reveal_strlit("Err(");
    reveal_strlit(")");
    if result_a is Ok && result_b is Err {
        assert(result_text(result_b)[0] == 'E');
    } else if result_a is Err && result_b is Ok {
        assert(result_text(result_a)[0] == 'E');
    }
}

/// The variant of a call is the longest part from the front of its debug text that holds no opening
/// bracket.
pub proof fn variant_ends_at_the_first_bracket(text: Seq<char>)
    ensures
        ({
            let variant = before_bracket(text);
            &&& variant.len() <= text.len()
            &&& variant == text.take(variant.len() as int)
            &&& forall|i: int| 0 <= i < variant.len() ==> #[trigger] variant[i] != '('
            &&& variant.len() < text.len() ==> text[variant.len() as int] == '('
        }),
{
    text.index_of_first_ensures('(');
    assert(text.take(text.len() as int) =~= text);
}

/// The outcome of a call is recorded as `Ok`, or as the debug text of the error in `Err(..)`.
pub proof fn outcome_is_readable(result: Result<(), sp_runtime::DispatchError>)
    ensures
        result is Ok ==> result_text(result) == seq!['O', 'k'],
        result matches Err(error) ==> {
            let text = result_text(result);
            let debug = dispatch_error_debug(error);
            &&& text.len() == debug.len() + 5
            &&& text.take(4) == seq!['E', 'r', 'r', '(']
            &&& text.subrange(4, text.len() - 1) == debug
            &&& text.last() == ')'
        },
{
    reveal_strlit("Ok");
    reveal_strlit("Err(");
    reveal_strlit(")");
    if let Err(error) = result {
        let text = result_text(result);
        let debug = dispatch_error_debug(error);
        assert(text.take(4) =~= seq!['E', 'r', 'r', '(']);
        assert(text.subrange(4, text.len() - 1) =~= debug);
    } else {
        assert(result_text(result) =~= seq!['O', 'k']);
    }
}

/// The recorded arguments hold the debug text of the call, and nothing else, under `debug`.
pub proof fn arguments_read_back(call_debug: Seq<char>)
    ensures
        read_object(args_object(call_debug)) == Some((seq!['d', 'e', 'b', 'u', 'g'], call_debug)),
{
    reveal_strlit("debug");
    assert("debug"@ =~= seq!['d', 'e', 'b', 'u', 'g']);
    object_reads_back("debug"@, call_debug);
}

/// A failure is recorded as its debug text in `Err(..)`.
pub proof fn failure_is_readable(debug: Seq<char>)
    ensures
        failure_text(debug) == seq!['E', 'r', 'r', '('] + debug + seq![')'],
{
    reveal_strlit("Err(");
    reveal_strlit(")");
    assert(failure_text(debug) =~= seq!['E', 'r', 'r', '('] + debug + seq![')']);
}

/// A record holds the variant of the call, its whole debug text, its sender and its outcome, each
/// in its own field.
pub proof fn record_is_readable(
    record: ExecutionRecord,
    call_debug: Seq<char>,
    origin: AccountId,
    result: Result<(), sp_runtime::DispatchError>,
)
    requires
        records_execution(record, call_debug, origin, result),
    ensures
        record.call_variant@ == before_bracket(call_debug),
        read_object(record.args_json@) == Some(("debug"@, call_debug)),
        shows_account(origin.bytes@, record.origin@),
        record.result@ == result_text(result),
{
    object_reads_back("debug"@, call_debug);
}

/// A column holds the number that differs from the counter by a multiple of two to the power of 64
/// and that fits into 64 bits with a sign. So a counter below half of that is held as it is.
pub proof fn column_holds_the_counter(n: usize)
    ensures
        (column(n) - n) % 0x1_0000_0000_0000_0000 == 0,
        -0x8000_0000_0000_0000 <= column(n) < 0x8000_0000_0000_0000,
        n < 0x8000_0000_0000_0000 ==> column(n) == n,
{
}

} // verus!
