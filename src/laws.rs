//! Properties of the protocol that hold for every request and reply.
use vstd::prelude::*;

use crate::numeral::{integer_text, natural_text, thousandths_text};
use crate::operation::{operation_args, operation_command, operation_request, Operation};
use crate::reply::{
    interpret, is_white, lemma_first_index_is, lemma_leading_white_is, lemma_trailing_white_is,
    lines_of, sent_line, status_reply, Reply,
};
use crate::wire::{command_token, direction_token, echo_line, spaced_args, Command, Direction};

verus! {

/// `s` holds no newline.
pub open spec fn single_line(s: Seq<char>) -> bool {
    forall|i: int| 0 <= i < s.len() ==> s[i] != '\n'
}

/// Two newline-terminated lines read back as exactly those two lines.
pub proof fn lemma_two_lines(first: Seq<char>, second: Seq<char>)
    requires
        single_line(first),
        single_line(second),
    ensures
        lines_of(first + seq!['\n'] + second + seq!['\n']) == seq![first, second],
{
    let s = first + seq!['\n'] + second + seq!['\n'];
    lemma_first_index_is(s, '\n', first.len() as int);
    let rest = s.skip(first.len() + 1 as int);
    assert(rest =~= second + seq!['\n']);
    lemma_first_index_is(rest, '\n', second.len() as int);
    assert(rest.take(second.len() as int) =~= second);
    assert(rest.skip(second.len() + 1 as int) =~= Seq::<char>::empty());
    assert(s.take(first.len() as int) =~= first);
    assert(lines_of(rest) == seq![rest.take(second.len() as int)] + lines_of(
        rest.skip(second.len() + 1 as int),
    ));
    assert(lines_of(Seq::<char>::empty()) == Seq::<Seq<char>>::empty());
    assert(lines_of(rest) =~= seq![second]);
    assert(lines_of(s) =~= seq![first, second]);
}

/// A device that echoes the request line and answers a bare `OK` accepts
/// the request with no values.
pub proof fn lemma_echo_then_ok(request: Seq<char>)
    requires
        single_line(sent_line(request)),
    ensures
        interpret(sent_line(request) + seq!['\n', 'O', 'K', '\n'], request) == Reply::Values(
            seq![],
        ),
{
    let echo = sent_line(request);
    let ok = seq!['O', 'K'];
    reveal_strlit("OK");
    assert(echo + seq!['\n', 'O', 'K', '\n'] =~= echo + seq!['\n'] + ok + seq!['\n']);
    lemma_two_lines(echo, ok);
    lemma_first_index_is(ok, ' ', 2);
    assert(ok.take(2) =~= "OK"@);
}

/// A device that echoes the request line and answers `ERR` followed by a
/// message refuses the request with exactly that message.
pub proof fn lemma_echo_then_err(request: Seq<char>, message: Seq<char>)
    requires
        single_line(sent_line(request)),
        single_line(message),
    ensures
        interpret(
            sent_line(request) + seq!['\n', 'E', 'R', 'R', ' '] + message + seq!['\n'],
            request,
        ) == Reply::Refused(message),
{
    let echo = sent_line(request);
    let status = seq!['E', 'R', 'R', ' '] + message;
    reveal_strlit("OK");
    reveal_strlit("ERR");
    assert(echo + seq!['\n', 'E', 'R', 'R', ' '] + message + seq!['\n'] =~= echo + seq!['\n']
        + status + seq!['\n']);
    lemma_two_lines(echo, status);
    lemma_first_index_is(status, ' ', 3);
    assert(status.take(3) =~= "ERR"@);
    assert(status.skip(4) =~= message);
    assert(status_reply(status) == Reply::Refused(message));
}

/// A device that sends nothing before going idle gives a malformed reply,
/// whatever the request.
pub proof fn lemma_silence_malformed(request: Seq<char>)
    ensures
        interpret(seq![], request) == Reply::Malformed,
{
}

/// A reply whose first line is not the request line is malformed, whatever
/// its status line says.
pub proof fn lemma_wrong_echo_malformed(request: Seq<char>, first: Seq<char>, second: Seq<char>)
    requires
        single_line(first),
        single_line(second),
        first != sent_line(request),
    ensures
        interpret(first + seq!['\n'] + second + seq!['\n'], request) == Reply::Malformed,
{
    lemma_two_lines(first, second);
}

/// `s` is a non-empty word: no character of it is whitespace.
pub open spec fn word(s: Seq<char>) -> bool {
    s.len() > 0 && forall|i: int| 0 <= i < s.len() ==> !is_white(#[trigger] s[i])
}

proof fn lemma_natural_word(n: nat)
    ensures
        word(natural_text(n)),
    decreases n,
{
    if n >= 10 {
        lemma_natural_word(n / 10);
    }
}

proof fn lemma_command_token(c: Command)
    ensures
        word(command_token(c)),
        command_token(c).len() == 4,
{
    reveal_strlit("DVER");
    reveal_strlit("DHOR");
    reveal_strlit("CALV");
    reveal_strlit("CALH");
    reveal_strlit("MOVC");
    reveal_strlit("MOVV");
    reveal_strlit("MOVH");
    reveal_strlit("GETP");
    reveal_strlit("GETC");
    reveal_strlit("VERS");
    reveal_strlit("HALT");
}

proof fn lemma_direction_token(d: Direction)
    ensures
        word(direction_token(d)),
{
    reveal_strlit("UP");
    reveal_strlit("DN");
    reveal_strlit("SV");
    reveal_strlit("LT");
    reveal_strlit("RT");
    reveal_strlit("SH");
}

/// The argument of every operation is a single word, and there is at most one.
proof fn lemma_operation_args(op: Operation)
    ensures
        operation_args(op).len() <= 1,
        forall|i: int| 0 <= i < operation_args(op).len() ==> word(#[trigger] operation_args(op)[i]),
{
    reveal_strlit("SET");
    match op {
        Operation::SetPositionVertical(m) => {
            let a: nat = if m < 0 { (-m) as nat } else { m as nat };
            lemma_natural_word(a / 1000);
            assert(word(thousandths_text(m as int)));
        },
        Operation::SetPositionHorizontal(m) => {
            let a: nat = if -m < 0 { m as nat } else { (-m) as nat };
            lemma_natural_word(a / 1000);
            assert(word(thousandths_text(-(m as int))));
        },
        Operation::MoveVerticalSteps(n) => {
            let a: nat = if n < 0 { (-n) as nat } else { n as nat };
            lemma_natural_word(a);
            assert(word(integer_text(n as int)));
        },
        Operation::MoveHorizontalSteps(n) => {
            let a: nat = if n < 0 { (-n) as nat } else { n as nat };
            lemma_natural_word(a);
            assert(word(integer_text(n as int)));
        },
        Operation::MoveDirection(d) => {
            lemma_direction_token(d);
        },
        _ => {},
    }
}

/// The request of every operation is its echo line and a newline, and that
/// echo line is what the device must send back.
pub proof fn lemma_operation_request_shape(op: Operation)
    ensures
        sent_line(operation_request(op)) == echo_line(operation_command(op), operation_args(op)),
        single_line(sent_line(operation_request(op))),
{
    let token = command_token(operation_command(op));
    let args = operation_args(op);
    let echo = echo_line(operation_command(op), args);
    let request = operation_request(op);
    lemma_command_token(operation_command(op));
    lemma_operation_args(op);
    if args.len() == 0 {
        assert(echo =~= token);
    } else {
        assert(args.drop_last() =~= Seq::<Seq<char>>::empty());
        assert(spaced_args(args) == spaced_args(args.drop_last()) + seq![' '] + args.last());
        assert(echo =~= token + seq![' '] + args[0]);
        assert(word(args[0]));
    }
    assert(single_line(echo));
    assert(!is_white(echo[0]));
    assert(!is_white(echo.last()));
    lemma_leading_white_is(request, 0);
    lemma_trailing_white_is(request, 1);
    assert(request.skip(0) =~= request);
    assert(request.take(request.len() - 1) =~= echo);
}

/// Every operation is accepted, with no values, by a device that echoes its
/// request and answers a bare `OK`.
pub proof fn lemma_operation_echo_then_ok(op: Operation)
    ensures
        interpret(
            sent_line(operation_request(op)) + seq!['\n', 'O', 'K', '\n'],
            operation_request(op),
        ) == Reply::Values(seq![]),
{
    lemma_operation_request_shape(op);
    lemma_echo_then_ok(operation_request(op));
}

/// Every operation is refused with the device's message when the device
/// echoes its request and answers `ERR` with a message.
pub proof fn lemma_operation_echo_then_err(op: Operation, message: Seq<char>)
    requires
        single_line(message),
    ensures
        interpret(
            sent_line(operation_request(op)) + seq!['\n', 'E', 'R', 'R', ' '] + message + seq!['\n'],
            operation_request(op),
        ) == Reply::Refused(message),
{
    lemma_operation_request_shape(op);
    lemma_echo_then_err(operation_request(op), message);
}

/// No operation accepts the reply `WRONG`, `OK`: its first line is not the
/// echo of any request line.
pub proof fn lemma_operation_wrong_echo(op: Operation)
    ensures
        interpret(seq!['W', 'R', 'O', 'N', 'G', '\n', 'O', 'K', '\n'], operation_request(op))
            == Reply::Malformed,
{
    let wrong = seq!['W', 'R', 'O', 'N', 'G'];
    let ok = seq!['O', 'K'];
    lemma_operation_request_shape(op);
    let args = operation_args(op);
    let echo = sent_line(operation_request(op));
    lemma_command_token(operation_command(op));
    let token = command_token(operation_command(op));
    assert(token.len() == 4);
    if args.len() == 0 {
        assert(spaced_args(args) =~= Seq::<char>::empty());
        assert(echo.len() == 4);
    } else {
        assert(args.len() == 1);
        assert(args.drop_last() =~= Seq::<Seq<char>>::empty());
        assert(spaced_args(args) == spaced_args(args.drop_last()) + seq![' '] + args.last());
        assert(echo[4] == ' ');
    }
    assert(echo != wrong);
    assert(seq!['W', 'R', 'O', 'N', 'G', '\n', 'O', 'K', '\n'] =~= wrong + seq!['\n'] + ok
        + seq!['\n']);
    lemma_wrong_echo_malformed(operation_request(op), wrong, ok);
}

} // verus!
