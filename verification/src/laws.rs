//! What holds of every scan: laws of the state machine, proved once for all
//! inputs.
//!
//! The first group is about well-formedness, which every step keeps. The
//! second says what escapes, quotes, white space and `|` do whatever stands
//! around them. The last two relate whole lines: a command written out again
//! parses to itself, and a `|` splits a line into independent halves.

use vstd::prelude::*;
use crate::machine::{is_command, is_pipeline, parse, Command, LexState, Pipeline, Scan};
use crate::text::is_white_space;

verus! {

/// Scanning two texts one after the other is scanning them joined.
pub proof fn lemma_scan_concat(scan: Scan, head: Seq<char>, tail: Seq<char>)
    ensures
        scan.scan(head + tail) == scan.scan(head).scan(tail),
    decreases tail.len(),
{
    if tail.len() == 0 {
        assert(head + tail == head);
    } else {
        lemma_scan_concat(scan, head, tail.drop_last());
        assert((head + tail).drop_last() == head + tail.drop_last());
    }
}

/// Scanning a single character is one step.
pub proof fn lemma_scan_one(scan: Scan, c: char)
    ensures
        scan.scan(seq![c]) == scan.step(c),
{
    assert(seq![c].drop_last() == Seq::<char>::empty());
    assert(scan.scan(Seq::<char>::empty()) == scan);
}

/// Finishing a token keeps a scan well formed.
pub proof fn lemma_finish_token_keeps_wf(scan: Scan)
    requires
        scan.wf(),
    ensures
        scan.finish_token().wf(),
{
    crate::text::lemma_trimmed_is_empty_or_token(scan.token);
}

/// Finishing a command keeps a scan well formed.
pub proof fn lemma_finish_command_keeps_wf(scan: Scan)
    requires
        scan.wf(),
    ensures
        scan.finish_command().wf(),
{
    lemma_finish_token_keeps_wf(scan);
}

/// One step keeps a scan well formed.
pub proof fn lemma_step_keeps_wf(scan: Scan, c: char)
    requires
        scan.wf(),
    ensures
        scan.step(c).wf(),
{
    lemma_finish_token_keeps_wf(scan);
    lemma_finish_command_keeps_wf(scan);
}

/// Any number of steps keeps a scan well formed.
pub proof fn lemma_scan_keeps_wf(scan: Scan, text: Seq<char>)
    requires
        scan.wf(),
    ensures
        scan.scan(text).wf(),
    decreases text.len(),
{
    if text.len() > 0 {
        lemma_scan_keeps_wf(scan, text.drop_last());
        lemma_step_keeps_wf(scan.scan(text.drop_last()), text.last());
    }
}

/// What a well-formed scan yields is a pipeline: no command without a token,
/// no token that is empty or has white space at an end.
pub proof fn lemma_yield_is_pipeline(scan: Scan)
    requires
        scan.wf(),
    ensures
        scan.yielded() matches Some(pipeline) ==> is_pipeline(pipeline),
{
    lemma_finish_command_keeps_wf(scan);
}

/// Whatever the line, a fresh parser yields a pipeline or nothing.
pub proof fn lemma_parse_is_pipeline(line: Seq<char>)
    ensures
        parse(line) matches Some(pipeline) ==> is_pipeline(pipeline),
{
    lemma_scan_keeps_wf(Scan::fresh(), line);
    lemma_yield_is_pipeline(Scan::fresh().scan(line));
}

/// A line that ends inside a quote or right after a `\` yields nothing, and
/// the scan is carried over as it stands.
pub proof fn lemma_incomplete_line_yields_nothing(scan: Scan, line: Seq<char>)
    requires
        scan.scan(line).state != LexState::Bare,
    ensures
        scan.scan(line).yielded() is None,
        scan.scan(line).carried() == scan.scan(line),
{
}

/// Text made of white space and `|` only.
pub open spec fn is_blank(text: Seq<char>) -> bool {
    forall|i: int| 0 <= i < text.len() ==> is_white_space(#[trigger] text[i]) || text[i] == '|'
}

/// A line of nothing but white space and `|` yields nothing.
pub proof fn lemma_blank_line_yields_nothing(line: Seq<char>)
    requires
        is_blank(line),
    ensures
        parse(line) is None,
        Scan::fresh().scan(line) == Scan::fresh(),
    decreases line.len(),
{
    if line.len() > 0 {
        lemma_blank_line_yields_nothing(line.drop_last());
        assert(is_white_space(line[line.len() - 1]) || line[line.len() - 1] == '|');
        assert(Scan::fresh().step(line.last()) =~~= Scan::fresh());
    }
}

/// A `\` outside quotes makes the next character a literal of the token,
/// whatever it is, and the scan is in mode `Bare` again.
pub proof fn lemma_escape_takes_next_literally(scan: Scan, c: char)
    requires
        scan.state == LexState::Bare,
    ensures
        scan.step('\\').step(c) == scan.append(c),
{
}

/// A `\` inside a quote makes the next character a literal of the token,
/// the quote character itself included, and the quote stays open.
pub proof fn lemma_escape_in_quote_takes_next_literally(scan: Scan, q: char, c: char)
    requires
        scan.state == LexState::Quoted(q),
        q == '\'' || q == '"',
    ensures
        scan.step('\\').step(c) == scan.append(c),
{
}

/// Text that holds neither the quote character `q` nor a `\`.
pub open spec fn is_quotable(text: Seq<char>, q: char) -> bool {
    forall|i: int| 0 <= i < text.len() ==> #[trigger] text[i] != q && text[i] != '\\'
}

/// Inside a quote every character but the quote character and `\` is a
/// literal of the token, white space and `|` among them.
pub proof fn lemma_quote_body_is_literal(scan: Scan, q: char, body: Seq<char>)
    requires
        scan.state == LexState::Quoted(q),
        is_quotable(body, q),
    ensures
        scan.scan(body) == (Scan { token: scan.token + body, ..scan }),
    decreases body.len(),
{
    if body.len() == 0 {
        assert(scan.token + body == scan.token);
    } else {
        lemma_quote_body_is_literal(scan, q, body.drop_last());
        assert(body.last() == body[body.len() - 1]);
        assert(scan.token + body == (scan.token + body.drop_last()).push(body.last()));
    }
}

/// A quoted text adds its body to the token in progress and changes
/// nothing else: neither white space nor `|` in it ends anything.
pub proof fn lemma_quoted_text_is_literal(scan: Scan, q: char, body: Seq<char>)
    requires
        scan.state == LexState::Bare,
        q == '\'' || q == '"',
        is_quotable(body, q),
    ensures
        scan.scan(seq![q] + body + seq![q]) == (Scan { token: scan.token + body, ..scan }),
{
    lemma_scan_concat(scan, seq![q] + body, seq![q]);
    lemma_scan_concat(scan, seq![q], body);
    lemma_scan_one(scan, q);
    lemma_quote_body_is_literal(scan.step(q), q, body);
    lemma_scan_one(scan.step(q).scan(body), q);
}

/// A line that ends inside a quote yields nothing.
pub proof fn lemma_unterminated_quote_yields_nothing(head: Seq<char>, q: char, body: Seq<char>)
    requires
        Scan::fresh().scan(head).state == LexState::Bare,
        q == '\'' || q == '"',
        is_quotable(body, q),
    ensures
        parse(head + seq![q] + body) is None,
{
    let scan = Scan::fresh().scan(head);
    lemma_scan_concat(Scan::fresh(), head + seq![q], body);
    lemma_scan_concat(Scan::fresh(), head, seq![q]);
    lemma_scan_one(scan, q);
    lemma_quote_body_is_literal(scan.step(q), q, body);
}

/// A line that ends in a `\` which is not itself escaped yields nothing.
pub proof fn lemma_trailing_backslash_yields_nothing(head: Seq<char>)
    requires
        Scan::fresh().scan(head).state == LexState::Bare
            || Scan::fresh().scan(head).state is Quoted,
    ensures
        parse(head.push('\\')) is None,
{
    lemma_scan_keeps_wf(Scan::fresh(), head);
    assert(head.push('\\').drop_last() == head);
}

/// White space after white space changes nothing: runs of it collapse.
pub proof fn lemma_white_space_collapses(scan: Scan, first: char, second: char)
    requires
        scan.state == LexState::Bare,
        is_white_space(first),
        is_white_space(second),
    ensures
        scan.step(first).step(second) == scan.step(first),
{
    assert(scan.step(first).step(second) =~~= scan.step(first));
}

/// A `|` after a `|` changes nothing: a command without a token is dropped.
pub proof fn lemma_empty_command_is_dropped(scan: Scan)
    requires
        scan.state == LexState::Bare,
    ensures
        scan.step('|').step('|') == scan.step('|'),
{
    assert(scan.step('|').step('|') =~~= scan.step('|'));
}

/// A character with no meaning to the scanner in mode `Bare`: no white
/// space, no `|`, no quote and no `\`.
pub open spec fn is_plain(c: char) -> bool {
    !is_white_space(c) && c != '|' && c != '\'' && c != '"' && c != '\\'
}

/// Text of plain characters only.
pub open spec fn is_plain_text(text: Seq<char>) -> bool {
    forall|i: int| 0 <= i < text.len() ==> is_plain(#[trigger] text[i])
}

/// A command whose tokens are plain text.
pub open spec fn is_plain_command(command: Command) -> bool {
    forall|i: int| 0 <= i < command.len() ==> is_plain_text(#[trigger] command[i])
}

/// The tokens of a command written out with one space between neighbours.
pub open spec fn join_with_spaces(command: Command) -> Seq<char>
    decreases command.len(),
{
    if command.len() == 0 {
        Seq::empty()
    } else if command.len() == 1 {
        command[0]
    } else {
        join_with_spaces(command.drop_last()) + seq![' '] + command.last()
    }
}

/// In mode `Bare` plain text goes to the token in progress as it is.
pub proof fn lemma_plain_text_is_literal(scan: Scan, text: Seq<char>)
    requires
        scan.state == LexState::Bare,
        is_plain_text(text),
    ensures
        scan.scan(text) == (Scan { token: scan.token + text, ..scan }),
    decreases text.len(),
{
    if text.len() == 0 {
        assert(scan.token + text == scan.token);
    } else {
        lemma_plain_text_is_literal(scan, text.drop_last());
        assert(is_plain(text[text.len() - 1]));
        assert(scan.token + text == (scan.token + text.drop_last()).push(text.last()));
    }
}

/// After the joined tokens of a command, a fresh scan holds all but the last
/// of them as completed and the last one as the token in progress.
proof fn lemma_scan_of_joined_command(command: Command)
    requires
        command.len() > 0,
        is_plain_command(command),
        forall|i: int| 0 <= i < command.len() ==> (#[trigger] command[i]).len() > 0,
    ensures
        Scan::fresh().scan(join_with_spaces(command)) == (Scan {
            pipeline: Seq::empty(),
            command: command.drop_last(),
            token: command.last(),
            state: LexState::Bare,
        }),
    decreases command.len(),
{
    let fresh = Scan::fresh();
    if command.len() == 1 {
        lemma_plain_text_is_literal(fresh, command[0]);
        assert(fresh.token + command[0] == command[0]);
        assert(command.drop_last() == Seq::<Seq<char>>::empty());
    } else {
        let front = command.drop_last();
        let joined = join_with_spaces(front);
        lemma_scan_of_joined_command(front);
        lemma_scan_concat(fresh, joined + seq![' '], command.last());
        lemma_scan_concat(fresh, joined, seq![' ']);
        let before = fresh.scan(joined);
        lemma_scan_one(before, ' ');
        let token = front.last();
        assert(is_plain(token[0]) && is_plain(token[token.len() - 1]));
        crate::text::lemma_token_is_fixed(token);
        let spaced = before.step(' ');
        assert(front.drop_last().push(token) == front);
        assert(spaced == (Scan { command: front, token: Seq::empty(), ..fresh }));
        lemma_plain_text_is_literal(spaced, command.last());
        assert(spaced.token + command.last() == command.last());
    }
}

/// A command of plain tokens, none of them empty, written out with single
/// spaces, parses to the pipeline of just that command.
pub proof fn lemma_joined_command_parses_to_itself(command: Command)
    requires
        command.len() > 0,
        is_plain_command(command),
        forall|i: int| 0 <= i < command.len() ==> (#[trigger] command[i]).len() > 0,
    ensures
        parse(join_with_spaces(command)) == Some(seq![command]),
{
    lemma_scan_of_joined_command(command);
    let token = command.last();
    assert(is_plain(token[0]) && is_plain(token[token.len() - 1]));
    crate::text::lemma_token_is_fixed(token);
    assert(command.drop_last().push(token) == command);
    let end = Scan::fresh().scan(join_with_spaces(command)).finish_command();
    assert(end.pipeline == seq![command]);
}

/// Tokenizing is stable: a command that some line produced, its tokens being
/// plain text, parses to itself when it is written out with single spaces.
pub proof fn lemma_rejoined_command_parses_to_itself(line: Seq<char>, k: int)
    requires
        parse(line) is Some,
        0 <= k < parse(line)->0.len(),
        is_plain_command(parse(line)->0[k]),
    ensures
        parse(join_with_spaces(parse(line)->0[k])) == Some(seq![parse(line)->0[k]]),
{
    lemma_parse_is_pipeline(line);
    let command = parse(line)->0[k];
    assert(is_command(command));
    lemma_joined_command_parses_to_itself(command);
}

/// The commands that a fresh parser makes of `line`, none where it yields
/// nothing.
pub open spec fn commands_of(line: Seq<char>) -> Pipeline {
    match parse(line) {
        Some(pipeline) => pipeline,
        None => Seq::empty(),
    }
}

/// The scan with `earlier` put in front of its completed commands.
pub open spec fn after_commands(earlier: Pipeline, scan: Scan) -> Scan {
    Scan { pipeline: earlier + scan.pipeline, ..scan }
}

/// Commands that are complete have no part in what a step does.
pub proof fn lemma_step_leaves_earlier_commands(earlier: Pipeline, scan: Scan, c: char)
    ensures
        after_commands(earlier, scan).step(c) == after_commands(earlier, scan.step(c)),
        after_commands(earlier, scan).finish_command() == after_commands(
            earlier,
            scan.finish_command(),
        ),
{
    assert(after_commands(earlier, scan).finish_command() =~~= after_commands(
        earlier,
        scan.finish_command(),
    ));
    assert(after_commands(earlier, scan).step(c) =~~= after_commands(earlier, scan.step(c)));
}

/// Commands that are complete have no part in what a scan does.
pub proof fn lemma_scan_leaves_earlier_commands(earlier: Pipeline, scan: Scan, text: Seq<char>)
    ensures
        after_commands(earlier, scan).scan(text) == after_commands(earlier, scan.scan(text)),
    decreases text.len(),
{
    if text.len() > 0 {
        lemma_scan_leaves_earlier_commands(earlier, scan, text.drop_last());
        lemma_step_leaves_earlier_commands(earlier, scan.scan(text.drop_last()), text.last());
    }
}

/// A `|` outside quotes splits a line: the commands of the whole are those
/// of the part before it followed by those of the part after it, and the
/// whole yields nothing only where neither part yields anything.
pub proof fn lemma_pipe_splits_line(head: Seq<char>, tail: Seq<char>)
    requires
        Scan::fresh().scan(head).state == LexState::Bare,
        Scan::fresh().scan(tail).state == LexState::Bare,
    ensures
        commands_of(head + seq!['|'] + tail) == commands_of(head) + commands_of(tail),
        parse(head + seq!['|'] + tail) is None <==> parse(head) is None && parse(tail) is None,
{
    let fresh = Scan::fresh();
    let before = fresh.scan(head);
    let earlier = commands_of(head);
    lemma_scan_concat(fresh, head + seq!['|'], tail);
    lemma_scan_concat(fresh, head, seq!['|']);
    lemma_scan_one(before, '|');
    assert(before.step('|') =~~= after_commands(earlier, fresh));
    lemma_scan_leaves_earlier_commands(earlier, fresh, tail);
    lemma_step_leaves_earlier_commands(earlier, fresh.scan(tail), '|');
}

} // verus!
