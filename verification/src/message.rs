//! The text of error messages: numbers written out in decimal and
//! hexadecimal, and the report of a failed platform call.

use crate::backend::{is_init_error, is_start_error, BackendError};
use vstd::prelude::*;
use vstd::string::StringExecFns;

verus! {

/// The character for one digit below sixteen, capitals above nine.
pub open spec fn digit_char(d: nat) -> char {
    if d == 0 {
        '0'
    } else if d == 1 {
        '1'
    } else if d == 2 {
        '2'
    } else if d == 3 {
        '3'
    } else if d == 4 {
        '4'
    } else if d == 5 {
        '5'
    } else if d == 6 {
        '6'
    } else if d == 7 {
        '7'
    } else if d == 8 {
        '8'
    } else if d == 9 {
        '9'
    } else if d == 10 {
        'A'
    } else if d == 11 {
        'B'
    } else if d == 12 {
        'C'
    } else if d == 13 {
        'D'
    } else if d == 14 {
        'E'
    } else {
        'F'
    }
}

/// The decimal numeral of `n`, without leading zeros.
pub open spec fn decimal(n: nat) -> Seq<char>
    decreases n,
{
    if n < 10 {
        seq![digit_char(n)]
    } else {
        decimal(n / 10).push(digit_char(n % 10))
    }
}

/// The last `width` hexadecimal digits of `n`, capitals, zeros in front.
pub open spec fn hex(n: nat, width: nat) -> Seq<char>
    decreases width,
{
    if width == 0 {
        Seq::<char>::empty()
    } else {
        hex(n / 16, (width - 1) as nat).push(digit_char(n % 16))
    }
}

/// The one-character text of a digit.
fn digit_text(d: u32) -> (s: &'static str)
    requires
        d < 16,
    ensures
        s@ == seq![digit_char(d as nat)],
{
    proof {
        reveal_strlit("0");
        reveal_strlit("1");
        reveal_strlit("2");
        reveal_strlit("3");
        reveal_strlit("4");
        reveal_strlit("5");
        reveal_strlit("6");
        reveal_strlit("7");
        reveal_strlit("8");
        reveal_strlit("9");
        reveal_strlit("A");
        reveal_strlit("B");
        reveal_strlit("C");
        reveal_strlit("D");
        reveal_strlit("E");
        reveal_strlit("F");
    }
    let s = if d == 0 {
        "0"
    } else if d == 1 {
        "1"
    } else if d == 2 {
        "2"
    } else if d == 3 {
        "3"
    } else if d == 4 {
        "4"
    } else if d == 5 {
        "5"
    } else if d == 6 {
        "6"
    } else if d == 7 {
        "7"
    } else if d == 8 {
        "8"
    } else if d == 9 {
        "9"
    } else if d == 10 {
        "A"
    } else if d == 11 {
        "B"
    } else if d == 12 {
        "C"
    } else if d == 13 {
        "D"
    } else if d == 14 {
        "E"
    } else {
        "F"
    };
    assert(s@ =~= seq![digit_char(d as nat)]);
    s
}

/// Writes `n` in decimal.
pub fn decimal_string(n: u32) -> (s: String)
    ensures
        s@ == decimal(n as nat),
    decreases n,
{
    if n < 10 {
        String::from_str(digit_text(n))
    } else {
        let mut s = decimal_string(n / 10);
        s.append(digit_text(n % 10));
        assert(s@ =~= decimal(n as nat));
        s
    }
}

/// Writes the last `width` hexadecimal digits of `n`.
pub fn hex_string(n: u32, width: u32) -> (s: String)
    ensures
        s@ == hex(n as nat, width as nat),
    decreases width,
{
    if width == 0 {
        String::new()
    } else {
        let mut s = hex_string(n / 16, width - 1);
        s.append(digit_text(n % 16));
        assert(s@ =~= hex(n as nat, width as nat));
        s
    }
}

/// A platform status as the unsigned number that messages print: a negative
/// status stands for the same 32 bits read without a sign.
pub open spec fn status_code(status: i32) -> nat {
    if status >= 0 {
        status as nat
    } else {
        (status + 0x1_0000_0000) as nat
    }
}

/// A platform status read as an unsigned number.
pub fn code_of(status: i32) -> (code: u32)
    ensures
        code == status_code(status),
{
    if status >= 0 {
        status as u32
    } else {
        ((status as i64) + 0x1_0000_0000) as u32
    }
}

/// A platform call fails with a negative status.
pub open spec fn failed(status: i32) -> bool {
    status < 0
}

/// The report of a failed platform call: what was called, and the status in
/// eight hexadecimal digits.
pub open spec fn failure_text(call: Seq<char>, status: i32) -> Seq<char> {
    call + " failed: 0x"@ + hex(status_code(status), 8)
}

/// Writes the report of a failed platform call.
pub fn failure_message(call: &str, status: i32) -> (s: String)
    ensures
        s@ == failure_text(call@, status),
{
    let mut s = String::from_str(call);
    s.append(" failed: 0x");
    let digits = hex_string(code_of(status), 8);
    s.append(digits.as_str());
    s
}

/// Turns the status of a platform call made while devices are listed into a
/// result: a negative status is an initialisation failure with its report.
pub fn check_init(call: &str, status: i32) -> (r: Result<(), BackendError>)
    ensures
        failed(status) <==> r.is_err(),
        r matches Err(e) ==> is_init_error(e, failure_text(call@, status)),
{
    if status < 0 {
        Err(BackendError::InitError(failure_message(call, status)))
    } else {
        Ok(())
    }
}

/// Turns the status of a platform call made while a session starts into a
/// result: a negative status is a start failure with its report.
pub fn check_start(call: &str, status: i32) -> (r: Result<(), BackendError>)
    ensures
        failed(status) <==> r.is_err(),
        r matches Err(e) ==> is_start_error(e, failure_text(call@, status)),
{
    if status < 0 {
        Err(BackendError::StartError(failure_message(call, status)))
    } else {
        Ok(())
    }
}

/// The status with which the platform says that its component runtime is
/// already set up on this thread in another mode.
pub const STATUS_CHANGED_MODE: i32 = -2147417850;

/// What setting up the component runtime came to: `Ok(true)` where this call
/// set it up and has to undo it later, `Ok(false)` where it was already set up
/// in another mode and is left alone, and an initialisation failure for any
/// other negative status.
pub fn runtime_ready(status: i32) -> (r: Result<bool, BackendError>)
    ensures
        status == STATUS_CHANGED_MODE ==> r == Ok::<bool, BackendError>(false),
        status != STATUS_CHANGED_MODE && !failed(status) ==> r == Ok::<bool, BackendError>(true),
        status != STATUS_CHANGED_MODE && failed(status) ==> (r matches Err(e) && is_init_error(
            e,
            failure_text("CoInitializeEx"@, status),
        )),
{
    if status == STATUS_CHANGED_MODE {
        Ok(false)
    } else if status < 0 {
        Err(BackendError::InitError(failure_message("CoInitializeEx", status)))
    } else {
        Ok(true)
    }
}

/// A start failure with a fixed message.
pub fn start_error(text: &str) -> (e: BackendError)
    ensures
        is_start_error(e, text@),
{
    BackendError::StartError(String::from_str(text))
}

} // verus!
