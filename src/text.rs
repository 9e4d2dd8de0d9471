//! Decimal rendering of numbers, and the fixed messages of a run.
use vstd::prelude::*;
use vstd::string::*;

verus! {

/// The character of a decimal digit.
pub open spec fn digit_char(d: int) -> char {
    if d == 0 {
        '0'
    } else if d == 1 {
        '1'
    } else if d == 2 {
        '2'
    } else if d == 3 {
        '3'
    } else if d == 4 {
        '4'
    } else if d == 5 {
        '5'
    } else if d == 6 {
        '6'
    } else if d == 7 {
        '7'
    } else if d == 8 {
        '8'
    } else {
        '9'
    }
}

/// The decimal representation of a natural number, without leading zeros.
pub open spec fn decimal(n: nat) -> Seq<char>
    decreases n,
{
    if n < 10 {
        seq![digit_char(n as int)]
    } else {
        decimal(n / 10).push(digit_char(n as int % 10))
    }
}

/// The decimal representation of a signed number, with a leading minus sign.
pub open spec fn signed_decimal(n: int) -> Seq<char> {
    if n < 0 {
        seq!['-'] + decimal((-n) as nat)
    } else {
        decimal(n as nat)
    }
}

fn digit_str(d: usize) -> (r: &'static str)
    requires
        d < 10,
    ensures
        r@ == seq![digit_char(d as int)],
{
    if d == 0 {
        proof { reveal_strlit("0"); }
        "0"
    } else if d == 1 {
        proof { reveal_strlit("1"); }
        "1"
    } else if d == 2 {
        proof { reveal_strlit("2"); }
        "2"
    } else if d == 3 {
        proof { reveal_strlit("3"); }
        "3"
    } else if d == 4 {
        proof { reveal_strlit("4"); }
        "4"
    } else if d == 5 {
        proof { reveal_strlit("5"); }
        "5"
    } else if d == 6 {
        proof { reveal_strlit("6"); }
        "6"
    } else if d == 7 {
        proof { reveal_strlit("7"); }
        "7"
    } else if d == 8 {
        proof { reveal_strlit("8"); }
        "8"
    } else {
        proof { reveal_strlit("9"); }
        "9"
    }
}

/// Renders an unsigned number in decimal.
pub fn decimal_string(n: usize) -> (r: String)
    ensures
        r@ == decimal(n as nat),
    decreases n,
{
    if n < 10 {
        String::from_str(digit_str(n))
    } else {
        let mut s = decimal_string(n / 10);
        s.append(digit_str(n % 10));
        s
    }
}

/// Renders a signed number in decimal.
pub fn signed_decimal_string(n: i32) -> (r: String)
    ensures
        r@ == signed_decimal(n as int),
{
    if n < 0 {
        let m: i64 = -(n as i64);
        let mut s = String::from_str("-");
        proof { reveal_strlit("-"); }
        s.append(decimal_string(m as usize).as_str());
        s
    } else {
        decimal_string(n as usize)
    }
}

/// The message of a run in which every step succeeded.
pub open spec fn all_done_message() -> Seq<char> {
    "All operations completed successfully!"@
}

/// The message of a cancelled run.
pub open spec fn cancelled_message() -> Seq<char> {
    "Operation cancelled"@
}

/// The message of a run whose step could not be resolved.
pub open spec fn prepare_failed_message() -> Seq<char> {
    "Failed to prepare command"@
}

/// The message of a run whose step could not be started.
pub open spec fn start_failed_message() -> Seq<char> {
    "Failed to start operation"@
}

/// The message of a run stopped by the failure of step `step` (from 1) of `total`.
pub open spec fn failed_at_message(step: nat, total: nat) -> Seq<char> {
    "Operation failed at step "@ + decimal(step) + " of "@ + decimal(total)
}

/// The log line that closes a run.
pub open spec fn final_line(success: bool, message: Seq<char>) -> Seq<char> {
    (if success {
        "\n\u{2713} "@
    } else {
        "\n\u{2717} "@
    }) + message + "\n"@
}

/// The log line that opens step `step` (from 1) of `total`.
pub open spec fn header_line(step: nat, total: nat, label: Seq<char>) -> Seq<char> {
    "\n=== Step "@ + decimal(step) + "/"@ + decimal(total) + ": "@ + label + " ===\n"@
}

/// The log line for one line of a step's output.
pub open spec fn output_line(line: Seq<char>) -> Seq<char> {
    line + "\n"@
}

/// The log line of a step that succeeded.
pub open spec fn step_done_line() -> Seq<char> {
    "\u{2713} Step completed successfully\n"@
}

/// The log line of a step that exited with a failure code.
pub open spec fn exit_code_line(code: i32) -> Seq<char> {
    "\u{2717} Command failed with exit code: "@ + signed_decimal(code as int) + "\n"@
}

/// The log line of an error: a cross, a prefix, the error's text.
pub open spec fn error_line(prefix: Seq<char>, error: Seq<char>) -> Seq<char> {
    "\u{2717} "@ + prefix + error + "\n"@
}

/// The log line written when the user cancels.
pub open spec fn cancel_line() -> Seq<char> {
    "\n[Cancelled by user]\n"@
}

/// Prefix of the error line of a step that could not be started.
pub open spec fn spawn_error_prefix() -> Seq<char> {
    "Failed to start command: "@
}

/// Prefix of the error line of a step whose exit status could not be had.
pub open spec fn wait_error_prefix() -> Seq<char> {
    "Failed to wait for command: "@
}

/// Prefix of the error line of a step whose output could not be read.
pub open spec fn read_error_prefix() -> Seq<char> {
    "Failed to read command output: "@
}

/// Renders the message of a run stopped at step `step` (from 1) of `total`.
pub fn failed_at_text(step: usize, total: usize) -> (r: String)
    ensures
        r@ == failed_at_message(step as nat, total as nat),
{
    let mut s = String::from_str("Operation failed at step ");
    s.append(decimal_string(step).as_str());
    s.append(" of ");
    s.append(decimal_string(total).as_str());
    s
}

/// Renders the log line that closes a run.
pub fn final_text(success: bool, message: &str) -> (r: String)
    ensures
        r@ == final_line(success, message@),
{
    let mut s = if success {
        String::from_str("\n\u{2713} ")
    } else {
        String::from_str("\n\u{2717} ")
    };
    s.append(message);
    s.append("\n");
    s
}

/// Renders the log line that opens step `step` (from 1) of `total`.
pub fn header_text(step: usize, total: usize, label: &str) -> (r: String)
    ensures
        r@ == header_line(step as nat, total as nat, label@),
{
    let mut s = String::from_str("\n=== Step ");
    s.append(decimal_string(step).as_str());
    s.append("/");
    s.append(decimal_string(total).as_str());
    s.append(": ");
    s.append(label);
    s.append(" ===\n");
    s
}

/// Renders the log line for one line of output.
pub fn output_text(line: &str) -> (r: String)
    ensures
        r@ == output_line(line@),
{
    let mut s = String::from_str(line);
    s.append("\n");
    s
}

/// Renders the log line of a step that exited with a failure code.
pub fn exit_code_text(code: i32) -> (r: String)
    ensures
        r@ == exit_code_line(code),
{
    let mut s = String::from_str("\u{2717} Command failed with exit code: ");
    s.append(signed_decimal_string(code).as_str());
    s.append("\n");
    s
}

/// Renders an error line from its prefix and the error's text.
pub fn error_text(prefix: &str, error: &str) -> (r: String)
    ensures
        r@ == error_line(prefix@, error@),
{
    let mut s = String::from_str("\u{2717} ");
    s.append(prefix);
    s.append(error);
    s.append("\n");
    s
}

} // verus!
