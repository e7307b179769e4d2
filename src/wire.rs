//! Wire tokens for commands and directions, and request lines built from them.
use vstd::prelude::*;

verus! {

/// Command that the rotator accepts.
#[derive(Debug, Clone, Copy, PartialEq, Eq, Structural)]
pub enum Command {
    DegreesVertical,
    DegreesHorizontal,
    CalibrateVertical,
    CalibrateHorizontal,
    Movement,
    MoveVerticalSteps,
    MoveHorizontalSteps,
    GetPosition,
    GetCalibrated,
    GetVersion,
    Halt,
}

/// The four-letter token that names a command on the wire.
pub open spec fn command_token(c: Command) -> Seq<char> {
    match c {
        Command::DegreesVertical => "DVER"@,
        Command::DegreesHorizontal => "DHOR"@,
        Command::CalibrateVertical => "CALV"@,
        Command::CalibrateHorizontal => "CALH"@,
        Command::Movement => "MOVC"@,
        Command::MoveVerticalSteps => "MOVV"@,
        Command::MoveHorizontalSteps => "MOVH"@,
        Command::GetPosition => "GETP"@,
        Command::GetCalibrated => "GETC"@,
        Command::GetVersion => "VERS"@,
        Command::Halt => "HALT"@,
    }
}

impl Command {
    /// The command's wire token.
    pub fn as_str(&self) -> (r: &'static str)
        ensures
            r@ == command_token(*self),
    {
        match self {
            Command::DegreesVertical => "DVER",
            Command::DegreesHorizontal => "DHOR",
            Command::CalibrateVertical => "CALV",
            Command::CalibrateHorizontal => "CALH",
            Command::Movement => "MOVC",
            Command::MoveVerticalSteps => "MOVV",
            Command::MoveHorizontalSteps => "MOVH",
            Command::GetPosition => "GETP",
            Command::GetCalibrated => "GETC",
            Command::GetVersion => "VERS",
            Command::Halt => "HALT",
        }
    }
}

/// Direction accepted by [`Command::Movement`].
#[derive(Debug, Clone, Copy, PartialEq, Eq, Structural)]
pub enum Direction {
    Up,
    Down,
    StopVertical,
    Left,
    Right,
    StopHorizontal,
}

/// The two-letter token that names a direction on the wire.
pub open spec fn direction_token(d: Direction) -> Seq<char> {
    match d {
        Direction::Up => "UP"@,
        Direction::Down => "DN"@,
        Direction::StopVertical => "SV"@,
        Direction::Left => "LT"@,
        Direction::Right => "RT"@,
        Direction::StopHorizontal => "SH"@,
    }
}

impl Direction {
    /// The direction's wire token.
    pub fn as_str(&self) -> (r: &'static str)
        ensures
            r@ == direction_token(*self),
    {
        match self {
            Direction::Up => "UP",
            Direction::Down => "DN",
            Direction::StopVertical => "SV",
            Direction::Left => "LT",
            Direction::Right => "RT",
            Direction::StopHorizontal => "SH",
        }
    }
}

/// Arguments as character sequences.
pub open spec fn arg_views(args: Seq<&str>) -> Seq<Seq<char>> {
    args.map_values(|a: &str| a@)
}

/// Each argument preceded by a single space, in order.
pub open spec fn spaced_args(args: Seq<Seq<char>>) -> Seq<char>
    decreases args.len(),
{
    if args.len() == 0 {
        seq![]
    } else {
        spaced_args(args.drop_last()) + seq![' '] + args.last()
    }
}

/// The line a device echoes back for a command: the request without its
/// terminating newline.
pub open spec fn echo_line(command: Command, args: Seq<Seq<char>>) -> Seq<char> {
    command_token(command) + spaced_args(args)
}

/// The request line for a command and its arguments.
pub open spec fn request_line(command: Command, args: Seq<Seq<char>>) -> Seq<char> {
    echo_line(command, args) + seq!['\n']
}

/// Builds the newline-terminated request line for `command` with `args`.
/// Arguments are copied as they are: they are expected to hold no whitespace.
pub fn build_request(command: Command, args: &[&str]) -> (r: String)
    ensures
        r@ == request_line(command, arg_views(args@)),
        args@.len() == 0 ==> r@ == command_token(command) + seq!['\n'],
{
    let mut line = String::from_str(command.as_str());
    let mut i: usize = 0;
    proof {
        reveal_strlit(" ");
        reveal_strlit("\n");
        assert(arg_views(args@.take(0)) =~= Seq::<Seq<char>>::empty());
    }
    while i < args.len()
        invariant
            i <= args@.len(),
            line@ == echo_line(command, arg_views(args@.take(i as int))),
        decreases args.len() - i,
    {
        line.append(" ");
        line.append(args[i]);
        proof {
            reveal_strlit(" ");
            let next = arg_views(args@.take(i + 1));
            assert(next.drop_last() =~= arg_views(args@.take(i as int)));
            assert(next.last() == args@[i as int]@);
            assert(spaced_args(next) == spaced_args(next.drop_last()) + seq![' '] + next.last());
            assert(line@ =~= echo_line(command, next));
        }
        i += 1;
    }
    line.append("\n");
    proof {
        assert(args@.take(args@.len() as int) =~= args@);
    }
    line
}

} // verus!
