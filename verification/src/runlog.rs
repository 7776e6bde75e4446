//! The log of what an input holds and how its calls ended.
use crate::blocks::MultiBlockCalls;
use crate::calls::{ArbitraryRuntimeCall, CallOrigin};
use crate::records::{dispatch_error_debug, error_debug, failed_result, failure_text};
use crate::text::{decimal, push_decimal};
use vstd::prelude::*;
use vstd::string::*;

verus! {

/// The texts of lines.
pub open spec fn lines_view(lines: Seq<String>) -> Seq<Seq<char>> {
    lines.map_values(|line: String| line@)
}

/// The debug texts of the calls of each block.
pub open spec fn texts_view(texts: Seq<Vec<String>>) -> Seq<Seq<Seq<char>>> {
    texts.map_values(|block: Vec<String>| lines_view(block@))
}

/// How a sender is logged.
pub open spec fn origin_text(origin: CallOrigin) -> Seq<char> {
    match origin {
        CallOrigin::Signed(index) => "Signed(account_"@ + decimal(index as nat) + ")"@,
        CallOrigin::Root => "Root"@,
    }
}

/// How a sender is logged.
pub fn format_origin(origin: &CallOrigin) -> (text: String)
    ensures
        text@ == origin_text(*origin),
{
    match origin {
        CallOrigin::Signed(index) => {
            let mut text: String = "Signed(account_".to_string();
            push_decimal(&mut text, *index as u128);
            text.append(")");
            text
        },
        CallOrigin::Root => "Root".to_string(),
    }
}

/// The line of eighty equals signs.
pub open spec fn ruler_text() -> Seq<char> {
    Seq::new(80, |i: int| '=')
}

/// The line of eighty equals signs.
pub fn ruler() -> (text: String)
    ensures
        text@ == ruler_text(),
{
    proof {
        reveal_strlit("=");
    }
    let mut text: String = String::new();
    for i in 0..80u32
        invariant
            text@ == Seq::new(i as nat, |k: int| '='),
            "="@ == seq!['='],
    {
        text.append("=");
        assert(text@ =~= Seq::new((i + 1) as nat, |k: int| '='));
    }
    text
}

/// The lines that announce an input.
pub open spec fn heading(blocks: nat) -> Seq<Seq<char>> {
    seq![
        "\n"@ + ruler_text(),
        "NEW FUZZER INPUT - "@ + decimal(blocks) + " blocks"@,
        ruler_text(),
    ]
}

/// The line that announces the block at position `block`; the reader counts from one.
pub open spec fn block_line(block: int) -> Seq<char> {
    "\nBlock "@ + decimal((block + 1) as nat) + ":"@
}

/// The line of the call at position `call` of its block; the reader counts from one.
pub open spec fn call_line(call: int, call_debug: Seq<char>, origin: CallOrigin) -> Seq<char> {
    "  Call "@ + decimal((call + 1) as nat) + ": "@ + call_debug + " (origin: "@ + origin_text(
        origin,
    ) + ")"@
}

/// The lines of the first `count` calls of a block.
pub open spec fn call_lines(
    calls: Seq<ArbitraryRuntimeCall>,
    texts: Seq<Seq<char>>,
    count: nat,
) -> Seq<Seq<char>> {
    Seq::new(count, |call: int| call_line(call, texts[call], calls[call].origin))
}

/// The lines of the first `count` blocks.
pub open spec fn block_lines(
    blocks: Seq<Seq<ArbitraryRuntimeCall>>,
    texts: Seq<Seq<Seq<char>>>,
    count: nat,
) -> Seq<Seq<char>>
    decreases count,
{
    if count == 0 {
        Seq::empty()
    } else {
        let last = count - 1;
        block_lines(blocks, texts, last as nat) + seq![block_line(last)] + call_lines(
            blocks[last],
            texts[last],
            blocks[last].len(),
        )
    }
}

fn format_block_line(block: usize) -> (line: String)
    ensures
        line@ == block_line(block as int),
{
    let mut line: String = "\nBlock ".to_string();
    push_decimal(&mut line, block as u128 + 1);
    line.append(":");
    line
}

fn format_call_line(call: usize, call_debug: &str, origin: &CallOrigin) -> (line: String)
    ensures
        line@ == call_line(call as int, call_debug@, *origin),
{
    let mut line: String = "  Call ".to_string();
    push_decimal(&mut line, call as u128 + 1);
    line.append(": ");
    line.append(call_debug);
    line.append(" (origin: ");
    line.append(format_origin(origin).as_str());
    line.append(")");
    line
}

/// Whether there is a debug text for each call.
pub open spec fn one_text_per_call(
    blocks: Seq<Seq<ArbitraryRuntimeCall>>,
    texts: Seq<Seq<Seq<char>>>,
) -> bool {
    &&& texts.len() == blocks.len()
    &&& forall|i: int| 0 <= i < blocks.len() ==> texts[i].len() == (#[trigger] blocks[i]).len()
}

/// The lines that are logged of an input before it is executed: a heading, and for each block a
/// line of its own and one for each of its calls, with the debug text of the call.
pub fn input_log(blocks: &MultiBlockCalls, texts: &Vec<Vec<String>>) -> (lines: Vec<String>)
    requires
        one_text_per_call(blocks@, texts_view(texts@)),
    ensures
        lines_view(lines@) == heading(blocks@.len()) + block_lines(
            blocks@,
            texts_view(texts@),
            blocks@.len(),
        ),
{
    let ghost calls = blocks@;
    let ghost words = texts_view(texts@);
    assert(calls.len() == blocks.0@.len());
    assert(words.len() == texts@.len());
    let mut lines: Vec<String> = Vec::new();
    let mut first: String = "\n".to_string();
    first.append(ruler().as_str());
    lines.push(first);
    let mut second: String = "NEW FUZZER INPUT - ".to_string();
    push_decimal(&mut second, blocks.0.len() as u128);
    second.append(" blocks");
    lines.push(second);
    lines.push(ruler());
    let ghost head = heading(calls.len());
    assert(lines_view(lines@) =~= head);
    assert(head + block_lines(calls, words, 0) =~= head);
    for b in 0..blocks.0.len()
        invariant
            calls == blocks@,
            words == texts_view(texts@),
            calls.len() == blocks.0@.len(),
            words.len() == texts@.len(),
            one_text_per_call(calls, words),
            lines_view(lines@) == head + block_lines(calls, words, b as nat),
    {
        let ghost start = lines_view(lines@);
        assert(calls[b as int] == blocks.0@[b as int].0@);
        assert(words[b as int] == lines_view(texts@[b as int]@));
        let block: &Vec<ArbitraryRuntimeCall> = &blocks.0[b].0;
        let block_texts: &Vec<String> = &texts[b];
        lines.push(format_block_line(b));
        assert(lines_view(lines@) =~= start.push(block_line(b as int)));
        assert(lines_view(lines@) =~= start + seq![block_line(b as int)] + call_lines(
            calls[b as int],
            words[b as int],
            0,
        ));
        for c in 0..block.len()
            invariant
                b < calls.len(),
                block@ == calls[b as int],
                lines_view(block_texts@) == words[b as int],
                block_texts@.len() == block@.len(),
                lines_view(lines@) == start + seq![block_line(b as int)] + call_lines(
                    calls[b as int],
                    words[b as int],
                    c as nat,
                ),
        {
            let ghost before = lines_view(lines@);
            assert(words[b as int][c as int] == block_texts@[c as int]@);
            lines.push(format_call_line(c, block_texts[c].as_str(), &block[c].origin));
            let ghost line = call_line(
                c as int,
                words[b as int][c as int],
                calls[b as int][c as int].origin,
            );
            assert(lines_view(lines@) =~= before.push(line));
            assert(lines_view(lines@) =~= start + seq![block_line(b as int)] + call_lines(
                calls[b as int],
                words[b as int],
                (c + 1) as nat,
            ));
        }
        assert(lines_view(lines@) =~= head + block_lines(calls, words, (b + 1) as nat));
    }
    lines
}

/// How the outcome of a call is logged.
pub open spec fn outcome_text(result: Result<(), sp_runtime::DispatchError>) -> Seq<char> {
    match result {
        Ok(_) => "\u{2713} Ok"@,
        Err(error) => "\u{2717} "@ + failure_text(dispatch_error_debug(error)),
    }
}

/// The line that says how the call at position `call` of the block at position `block` ended.
/// Calls are counted from one, blocks from zero.
pub open spec fn outcome_line(block: int, call: int, outcome: Seq<char>) -> Seq<char> {
    "    \u{2192} Block "@ + decimal(block as nat) + " Call "@ + decimal((call + 1) as nat)
        + " result: "@ + outcome
}

/// The line for an outcome that is already a text.
pub fn format_outcome_line(block: usize, call: usize, outcome: &str) -> (line: String)
    ensures
        line@ == outcome_line(block as int, call as int, outcome@),
{
    let mut line: String = "    \u{2192} Block ".to_string();
    push_decimal(&mut line, block as u128);
    line.append(" Call ");
    push_decimal(&mut line, call as u128 + 1);
    line.append(" result: ");
    line.append(outcome);
    line
}

/// The line that is logged of a call after it was dispatched.
pub fn result_log(
    block: usize,
    call: usize,
    result: &Result<(), sp_runtime::DispatchError>,
) -> (line: String)
    ensures
        line@ == outcome_line(block as int, call as int, outcome_text(*result)),
{
    match result {
        Ok(_) => format_outcome_line(block, call, "\u{2713} Ok"),
        Err(error) => {
            let mut outcome: String = "\u{2717} ".to_string();
            outcome.append(failed_result(error_debug(error).as_str()).as_str());
            format_outcome_line(block, call, outcome.as_str())
        },
    }
}

/// The views of texts show each text, all of them and in their order.
pub proof fn views_show_every_line(lines: Seq<String>, texts: Seq<Vec<String>>, i: int)
    ensures
        lines_view(lines).len() == lines.len(),
        0 <= i < lines.len() ==> lines_view(lines)[i] == lines[i]@,
        texts_view(texts).len() == texts.len(),
        0 <= i < texts.len() ==> texts_view(texts)[i] == lines_view(texts[i]@),
{
}

/// The number of lines before those of the block at position `block`: each block before it has a
/// line of its own and one for each of its calls.
pub open spec fn lines_before(blocks: Seq<Seq<ArbitraryRuntimeCall>>, block: int) -> int {
    blocks.take(block).fold_left(
        0int,
        |sum: int, calls: Seq<ArbitraryRuntimeCall>| sum + 1 + calls.len(),
    )
}

proof fn lines_before_step(blocks: Seq<Seq<ArbitraryRuntimeCall>>, block: int)
    requires
        0 <= block < blocks.len(),
    ensures
        lines_before(blocks, block + 1) == lines_before(blocks, block) + 1 + blocks[block].len(),
{
    assert(blocks.take(block + 1).drop_last() =~= blocks.take(block));
}

/// The log has a line for each block and behind it one for each of its calls, in their order and
/// nothing else. The line of a block names it, counted from one; the line of a call names it within
/// its block, counted from one, with its debug text and its sender.
pub proof fn every_call_has_its_line(
    blocks: Seq<Seq<ArbitraryRuntimeCall>>,
    texts: Seq<Seq<Seq<char>>>,
    count: nat,
    block: int,
    call: int,
)
    requires
        count <= blocks.len(),
        0 <= block < count,
    ensures
        ({
            let lines = block_lines(blocks, texts, count);
            let first = lines_before(blocks, block);
            &&& lines.len() == lines_before(blocks, count as int)
            &&& 0 <= first < lines.len()
            &&& lines[first] == "\nBlock "@ + decimal((block + 1) as nat) + ":"@
            &&& 0 <= call < blocks[block].len() ==> first + 1 + call < lines.len() && lines[first + 1
                + call] == "  Call "@ + decimal((call + 1) as nat) + ": "@ + texts[block][call]
                + " (origin: "@ + (match blocks[block][call].origin {
                CallOrigin::Signed(index) => "Signed(account_"@ + decimal(index as nat) + ")"@,
                CallOrigin::Root => "Root"@,
            }) + ")"@
        }),
    decreases count,
{
    let last = count - 1;
    lines_have_the_right_number(blocks, texts, last as nat);
    lines_have_the_right_number(blocks, texts, count);
    lines_before_step(blocks, last);
    if block < last {
        every_call_has_its_line(blocks, texts, last as nat, block, call);
        let lines = block_lines(blocks, texts, count);
        let shorter = block_lines(blocks, texts, last as nat);
        let first = lines_before(blocks, block);
        assert(lines[first] == shorter[first]);
        if 0 <= call < blocks[block].len() {
            assert(lines[first + 1 + call] == shorter[first + 1 + call]);
        }
    }
}

proof fn lines_have_the_right_number(
    blocks: Seq<Seq<ArbitraryRuntimeCall>>,
    texts: Seq<Seq<Seq<char>>>,
    count: nat,
)
    requires
        count <= blocks.len(),
    ensures
        block_lines(blocks, texts, count).len() == lines_before(blocks, count as int),
    decreases count,
{
    if count > 0 {
        lines_have_the_right_number(blocks, texts, (count - 1) as nat);
        lines_before_step(blocks, count - 1);
    }
}

/// An input is announced by its number of blocks between two rulers of eighty equals signs.
pub proof fn heading_names_the_number_of_blocks(blocks: nat)
    ensures
        heading(blocks).len() == 3,
        heading(blocks)[0] == "\n"@ + heading(blocks)[2],
        heading(blocks)[1] == "NEW FUZZER INPUT - "@ + decimal(blocks) + " blocks"@,
        heading(blocks)[2].len() == 80,
        forall|i: int| 0 <= i < 80 ==> #[trigger] heading(blocks)[2][i] == '=',
{
}

/// The line of an outcome names the block, counted from zero, and the call, counted from one,
/// before the outcome; a call that failed is marked and its error named.
pub proof fn outcome_line_names_the_call(
    block: nat,
    call: nat,
    outcome: Seq<char>,
    result: Result<(), sp_runtime::DispatchError>,
)
    ensures
        outcome_line(block as int, call as int, outcome) == "    \u{2192} Block "@ + decimal(block)
            + " Call "@ + decimal(call + 1) + " result: "@ + outcome,
        outcome_text(result) == match result {
            Ok(_) => "\u{2713} Ok"@,
            Err(error) => "\u{2717} "@ + (seq!['E', 'r', 'r', '('] + dispatch_error_debug(error)
                + seq![')']),
        },
{
    if let Err(error) = result {
        crate::records::failure_is_readable(dispatch_error_debug(error));
    }
}

} // verus!
