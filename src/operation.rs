//! The rotator's operations: the request each one sends, and how the values
//! of its reply are read.
use vstd::prelude::*;

use crate::error::Error;
use crate::numeral::{integer_string, integer_text, thousandths_string, thousandths_text};
use crate::reply::{interpret, validate_parse, views, Reply};
use crate::wire::{build_request, direction_token, request_line, Command, Direction};

verus! {

/// One operation of the rotator, with its argument. Positions are given in
/// thousandths of a degree, the precision the wire carries.
#[derive(Debug, Clone, Copy, PartialEq, Eq, Structural)]
pub enum Operation {
    /// Move to a position on the vertical axis.
    SetPositionVertical(i32),
    /// Move to a position on the horizontal axis. The device counts this axis
    /// the other way round, so the request carries the negated position.
    SetPositionHorizontal(i32),
    /// Calibrate the vertical axis; with `true`, set the current position as
    /// the reference.
    CalibrateVertical(bool),
    /// Calibrate the horizontal axis.
    CalibrateHorizontal,
    /// Move in a direction until told to stop, or stop.
    MoveDirection(Direction),
    /// Move by a number of steps on the vertical axis.
    MoveVerticalSteps(i32),
    /// Move by a number of steps on the horizontal axis.
    MoveHorizontalSteps(i32),
    /// Ask for the position of both axes.
    Position,
    /// Ask whether the rotator is calibrated.
    Calibrated,
    /// Ask for the version of the rotator's software.
    Version,
    /// Stop both motors at once.
    Halt,
}

/// The command an operation sends.
pub open spec fn operation_command(op: Operation) -> Command {
    match op {
        Operation::SetPositionVertical(_) => Command::DegreesVertical,
        Operation::SetPositionHorizontal(_) => Command::DegreesHorizontal,
        Operation::CalibrateVertical(_) => Command::CalibrateVertical,
        Operation::CalibrateHorizontal => Command::CalibrateHorizontal,
        Operation::MoveDirection(_) => Command::Movement,
        Operation::MoveVerticalSteps(_) => Command::MoveVerticalSteps,
        Operation::MoveHorizontalSteps(_) => Command::MoveHorizontalSteps,
        Operation::Position => Command::GetPosition,
        Operation::Calibrated => Command::GetCalibrated,
        Operation::Version => Command::GetVersion,
        Operation::Halt => Command::Halt,
    }
}

/// The arguments an operation sends.
pub open spec fn operation_args(op: Operation) -> Seq<Seq<char>> {
    match op {
        Operation::SetPositionVertical(m) => seq![thousandths_text(m as int)],
        Operation::SetPositionHorizontal(m) => seq![thousandths_text(-(m as int))],
        Operation::CalibrateVertical(set) => if set {
            seq!["SET"@]
        } else {
            seq![]
        },
        Operation::MoveDirection(d) => seq![direction_token(d)],
        Operation::MoveVerticalSteps(n) => seq![integer_text(n as int)],
        Operation::MoveHorizontalSteps(n) => seq![integer_text(n as int)],
        _ => seq![],
    }
}

/// The request line an operation sends.
pub open spec fn operation_request(op: Operation) -> Seq<char> {
    request_line(operation_command(op), operation_args(op))
}

impl Operation {
    /// The request line to send for this operation.
    pub fn request(&self) -> (r: String)
        ensures
            r@ == operation_request(*self),
    {
        let command = self.command();
        let arg: Option<String> = match self {
            Operation::SetPositionVertical(m) => Some(thousandths_string(*m as i64)),
            Operation::SetPositionHorizontal(m) => Some(thousandths_string(-(*m as i64))),
            Operation::CalibrateVertical(set) => if *set {
                Some(String::from_str("SET"))
            } else {
                None
            },
            Operation::MoveDirection(d) => Some(String::from_str(d.as_str())),
            Operation::MoveVerticalSteps(n) => Some(integer_string(*n as i64)),
            Operation::MoveHorizontalSteps(n) => Some(integer_string(*n as i64)),
            _ => None,
        };
        match arg {
            Some(a) => {
                let args = vec![a.as_str()];
                let r = build_request(command, args.as_slice());
                proof {
                    assert(crate::wire::arg_views(args@) =~= operation_args(*self));
                }
                r
            },
            None => {
                let args: Vec<&str> = Vec::new();
                let r = build_request(command, args.as_slice());
                proof {
                    assert(crate::wire::arg_views(args@) =~= operation_args(*self));
                }
                r
            },
        }
    }

    /// The command this operation sends.
    pub fn command(&self) -> (r: Command)
        ensures
            r == operation_command(*self),
    {
        match self {
            Operation::SetPositionVertical(_) => Command::DegreesVertical,
            Operation::SetPositionHorizontal(_) => Command::DegreesHorizontal,
            Operation::CalibrateVertical(_) => Command::CalibrateVertical,
            Operation::CalibrateHorizontal => Command::CalibrateHorizontal,
            Operation::MoveDirection(_) => Command::Movement,
            Operation::MoveVerticalSteps(_) => Command::MoveVerticalSteps,
            Operation::MoveHorizontalSteps(_) => Command::MoveHorizontalSteps,
            Operation::Position => Command::GetPosition,
            Operation::Calibrated => Command::GetCalibrated,
            Operation::Version => Command::GetVersion,
            Operation::Halt => Command::Halt,
        }
    }
}

/// The error that a reply other than `OK` amounts to.
pub open spec fn failure_of(e: Error, reply: Reply) -> bool {
    match reply {
        Reply::Refused(m) => e matches Error::ResponseError(msg) && msg@ == m,
        Reply::Malformed => e is InvalidResponse,
        Reply::Values(_) => false,
    }
}

/// The detail of a value that is neither `true` nor `false`.
pub open spec fn bool_parse_detail() -> Seq<char> {
    "provided string was not `true` or `false`"@
}

/// Reads `text` as a boolean literal: exactly `true` or `false`.
pub fn parse_bool(text: &str) -> (r: Result<bool, Error>)
    ensures
        text@ == "true"@ ==> (r matches Ok(b) && b),
        text@ == "false"@ ==> (r matches Ok(b) && !b),
        text@ != "true"@ && text@ != "false"@ ==> (r matches Err(Error::ParseError(d)) && d@
            == bool_parse_detail()),
{
    proof {
        reveal_strlit("true");
        reveal_strlit("false");
        assert("true"@.len() != "false"@.len());
    }
    if crate::reply::same_text(text, "true") {
        Ok(true)
    } else if crate::reply::same_text(text, "false") {
        Ok(false)
    } else {
        Err(Error::ParseError(String::from_str("provided string was not `true` or `false`")))
    }
}

/// Checks the reply to an operation that returns no value.
pub fn expect_done(response: &str, request: &str) -> (r: Result<(), Error>)
    ensures
        interpret(response@, request@) is Values ==> r is Ok,
        !(interpret(response@, request@) is Values) ==> (r matches Err(e) && failure_of(e, interpret(response@, request@))),
{
    match validate_parse(response, request) {
        Ok(_) => Ok(()),
        Err(e) => Err(e),
    }
}

/// Checks the reply to a position query and returns the vertical and the
/// horizontal value, as the device sent them.
pub fn expect_position(response: &str, request: &str) -> (r: Result<(String, String), Error>)
    ensures
        !(interpret(response@, request@) is Values) ==> (r matches Err(e) && failure_of(e, interpret(response@, request@))),
        interpret(response@, request@) matches Reply::Values(vs) ==> {
            &&& (vs.len() == 0 ==> (r matches Err(Error::ExpectedValue)))
            &&& (vs.len() != 0 && vs.len() != 2 ==> (r matches Err(Error::InvalidResponse)))
            &&& (vs.len() == 2 ==> (r matches Ok((v, h)) && v@ == vs[0] && h@ == vs[1]))
        },
{
    let values = match validate_parse(response, request) {
        Ok(v) => v,
        Err(e) => return Err(e),
    };
    if values.len() == 0 {
        return Err(Error::ExpectedValue);
    }
    if values.len() != 2 {
        return Err(Error::InvalidResponse);
    }
    proof {
        assert(views(values@)[0] == values@[0]@);
        assert(views(values@)[1] == values@[1]@);
    }
    Ok((values[0].clone(), values[1].clone()))
}

/// Checks the reply to a calibration query and reads its one value as a
/// boolean.
pub fn expect_calibrated(response: &str, request: &str) -> (r: Result<bool, Error>)
    ensures
        !(interpret(response@, request@) is Values) ==> (r matches Err(e) && failure_of(e, interpret(response@, request@))),
        interpret(response@, request@) matches Reply::Values(vs) ==> {
            &&& (vs.len() == 0 ==> (r matches Err(Error::ExpectedValue)))
            &&& (vs.len() > 1 ==> (r matches Err(Error::InvalidResponse)))
            &&& (vs.len() == 1 && vs[0] == "true"@ ==> (r matches Ok(b) && b))
            &&& (vs.len() == 1 && vs[0] == "false"@ ==> (r matches Ok(b) && !b))
            &&& (vs.len() == 1 && vs[0] != "true"@ && vs[0] != "false"@ ==> (r matches Err(
                Error::ParseError(d),
            ) && d@ == bool_parse_detail()))
        },
{
    let values = match validate_parse(response, request) {
        Ok(v) => v,
        Err(e) => return Err(e),
    };
    if values.len() == 0 {
        return Err(Error::ExpectedValue);
    }
    if values.len() != 1 {
        return Err(Error::InvalidResponse);
    }
    proof {
        assert(views(values@)[0] == values@[0]@);
    }
    parse_bool(values[0].as_str())
}

/// Checks the reply to a version query and returns its first value.
pub fn expect_version(response: &str, request: &str) -> (r: Result<String, Error>)
    ensures
        !(interpret(response@, request@) is Values) ==> (r matches Err(e) && failure_of(e, interpret(response@, request@))),
        interpret(response@, request@) matches Reply::Values(vs) ==> {
            &&& (vs.len() == 0 ==> (r matches Err(Error::ExpectedValue)))
            &&& (vs.len() != 0 ==> (r matches Ok(v) && v@ == vs[0]))
        },
{
    let values = match validate_parse(response, request) {
        Ok(v) => v,
        Err(e) => return Err(e),
    };
    if values.len() == 0 {
        return Err(Error::ExpectedValue);
    }
    proof {
        assert(views(values@)[0] == values@[0]@);
    }
    Ok(values[0].clone())
}

} // verus!
