//! The outcome of a package-manager command: exit code, success and output lines, and
//! how it is described.
use vstd::prelude::*;
use vstd::string::*;

use crate::text::push_char;

verus! {

/// The character of a decimal digit.
pub open spec fn digit_char(d: nat) -> char {
    ((48 + d) as u8) as char
}

/// The decimal form of a natural number, without leading zeros.
pub open spec fn decimal_text(n: nat) -> Seq<char>
    decreases n,
{
    if n < 10 {
        seq![digit_char(n)]
    } else {
        decimal_text(n / 10).push(digit_char(n % 10))
    }
}

/// The decimal form of an integer, with `-` before a negative one.
pub open spec fn integer_text(i: int) -> Seq<char> {
    if i < 0 {
        seq!['-'] + decimal_text((-i) as nat)
    } else {
        decimal_text(i as nat)
    }
}

/// The `Debug` form of an optional exit code: `Some(..)` or `None`.
pub open spec fn code_text(code: Option<i32>) -> Seq<char> {
    match code {
        Some(c) => "Some("@ + integer_text(c as int) + ")"@,
        None => "None"@,
    }
}

/// The form of a boolean: `true` or `false`.
pub open spec fn bool_text(b: bool) -> Seq<char> {
    if b {
        "true"@
    } else {
        "false"@
    }
}

/// The description of a command outcome: its exit code, its success and how many output
/// lines it gave.
pub open spec fn outcome_text(code: Option<i32>, success: bool, lines: nat) -> Seq<char> {
    "<code="@ + code_text(code) + ", success="@ + bool_text(success) + ", lines="@
        + decimal_text(lines) + ">"@
}

/// Appends the decimal form of `n`.
fn push_decimal(s: &mut String, n: u64)
    ensures
        final(s)@ == old(s)@ + decimal_text(n as nat),
    decreases n,
{
    let digit: u8 = (n % 10) as u8;
    if n >= 10 {
        push_decimal(s, n / 10);
    }
    let c = (48u8 + digit) as char;
    push_char(s, c);
    if n < 10 {
        assert(decimal_text(n as nat) == seq![digit_char(n as nat)]);
    }
}

/// Appends the decimal form of `i`.
fn push_integer(s: &mut String, i: i32)
    ensures
        final(s)@ == old(s)@ + integer_text(i as int),
{
    if i < 0 {
        push_char(s, '-');
        let wide: i64 = i as i64;
        let magnitude: u64 = (-wide) as u64;
        push_decimal(s, magnitude);
        assert(s@ =~= old(s)@ + integer_text(i as int));
    } else {
        push_decimal(s, i as u64);
    }
}

/// What a package-manager command came to: its exit code (none when a signal ended it),
/// whether it succeeded, and the lines it wrote.
pub struct CommandOutcome {
    pub code: Option<i32>,
    pub success: bool,
    pub lines: Vec<String>,
}

impl CommandOutcome {
    /// Whether the command succeeded.
    pub fn success(&self) -> (res: bool)
        ensures
            res == self.success,
    {
        self.success
    }

    /// The description of the outcome: `<code=.., success=.., lines=..>`.
    pub fn describe(&self) -> (res: String)
        ensures
            res@ == outcome_text(self.code, self.success, self.lines.len() as nat),
    {
        let mut res = String::from_str("<code=");
        match self.code {
            Some(c) => {
                res.append("Some(");
                push_integer(&mut res, c);
                res.append(")");
            },
            None => {
                res.append("None");
            },
        }
        res.append(", success=");
        if self.success {
            res.append("true");
        } else {
            res.append("false");
        }
        res.append(", lines=");
        push_decimal(&mut res, self.lines.len() as u64);
        res.append(">");
        res
    }
}

} // verus!
