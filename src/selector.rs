//! Transport selection: the commands that address one device, by serial
//! or by transport id, and the shell command.
use vstd::prelude::*;
use vstd::string::StringExecFns;

use crate::error::{AdbError, SelectorFault};

verus! {

pub open spec fn digit_char(d: nat) -> char {
    if d == 0 { '0' } else if d == 1 { '1' } else if d == 2 { '2' } else if d == 3 { '3' }
    else if d == 4 { '4' } else if d == 5 { '5' } else if d == 6 { '6' } else if d == 7 { '7' }
    else if d == 8 { '8' } else { '9' }
}

/// The decimal digits of `n`, without leading zeros.
pub open spec fn decimal(n: nat) -> Seq<char>
    decreases n,
{
    if n < 10 {
        seq![digit_char(n)]
    } else {
        decimal(n / 10).push(digit_char(n % 10))
    }
}

/// The command that sends `command` to the device chosen by `serial` or
/// `transport_id` (0 for none): exactly one of the two must be given.
pub open spec fn selector_spec(serial: Seq<char>, transport_id: nat, command: Seq<char>) -> Result<
    Seq<char>,
    SelectorFault,
> {
    if transport_id > 0 && serial.len() > 0 {
        Err(SelectorFault::BothTargets)
    } else if transport_id > 0 {
        Ok("host-transport-id:"@ + decimal(transport_id) + ":"@ + command)
    } else if serial.len() > 0 {
        Ok("host-serial:"@ + serial + ":"@ + command)
    } else {
        Err(SelectorFault::NoTarget)
    }
}

fn digit_text(d: u32) -> (r: &'static str)
    requires
        d < 10,
    ensures
        r@ == seq![digit_char(d as nat)],
{
    proof {
        reveal_strlit("0");
        reveal_strlit("1");
        reveal_strlit("2");
        reveal_strlit("3");
        reveal_strlit("4");
        reveal_strlit("5");
        reveal_strlit("6");
        reveal_strlit("7");
        reveal_strlit("8");
        reveal_strlit("9");
    }
    match d {
        0 => "0",
        1 => "1",
        2 => "2",
        3 => "3",
        4 => "4",
        5 => "5",
        6 => "6",
        7 => "7",
        8 => "8",
        _ => "9",
    }
}

/// Appends the decimal digits of `n` to `s`.
pub fn push_decimal(s: &mut String, n: u32)
    ensures
        final(s)@ == old(s)@ + decimal(n as nat),
    decreases n,
{
    if n >= 10 {
        push_decimal(s, n / 10);
    }
    s.append(digit_text(n % 10));
    assert(final(s)@ =~= old(s)@ + decimal(n as nat));
}

/// Addresses `command` to one device: `host-transport-id:<id>:<command>`
/// or `host-serial:<serial>:<command>`. A transport id of 0 means none;
/// giving neither or both is a selector error.
pub fn selector_command(serial: &str, transport_id: u32, command: &str) -> (r: Result<
    String,
    AdbError,
>)
    ensures
        match selector_spec(serial@, transport_id as nat, command@) {
            Ok(t) => (r matches Ok(s) && s@ == t),
            Err(f) => (r matches Err(AdbError::SelectorInvariantError { fault }) && fault == f),
        },
{
    let has_serial = !serial.is_empty();
    if transport_id > 0 && has_serial {
        Err(AdbError::SelectorInvariantError { fault: SelectorFault::BothTargets })
    } else if transport_id > 0 {
        let mut s = String::from_str("host-transport-id:");
        push_decimal(&mut s, transport_id);
        s.append(":");
        s.append(command);
        Ok(s)
    } else if has_serial {
        let mut s = String::from_str("host-serial:");
        s.append(serial);
        s.append(":");
        s.append(command);
        Ok(s)
    } else {
        Err(AdbError::SelectorInvariantError { fault: SelectorFault::NoTarget })
    }
}

/// The command that runs `command` in the device's shell.
pub fn shell_command(command: &str) -> (r: String)
    ensures
        r@ == "shell:"@ + command@,
{
    let mut s = String::from_str("shell:");
    s.append(command);
    s
}

/// The command that asks the server to connect to a device at `addr`.
pub fn host_connect_command(addr: &str) -> (r: String)
    ensures
        r@ == "host:connect:"@ + addr@,
{
    let mut s = String::from_str("host:connect:");
    s.append(addr);
    s
}

/// The command that asks the server to drop the device at `addr`.
pub fn host_disconnect_command(addr: &str) -> (r: String)
    ensures
        r@ == "host:disconnect:"@ + addr@,
{
    let mut s = String::from_str("host:disconnect:");
    s.append(addr);
    s
}

} // verus!
