//! Conversion of a panic's location and payload into one structured
//! error-level record.

use vstd::prelude::*;
use vstd::string::StringExecFns;

use crate::level::Level;

verus! {

/// The character of one decimal digit.
pub open spec fn digit_char(d: int) -> char {
    ((48 + d) as u8) as char
}

/// The decimal rendering of a natural number, most significant digit first.
pub open spec fn decimal_of(n: nat) -> Seq<char>
    decreases n,
{
    if n < 10 {
        seq![digit_char(n as int)]
    } else {
        decimal_of(n / 10).push(digit_char((n % 10) as int))
    }
}

pub proof fn lemma_decimal_nonempty(n: nat)
    ensures
        decimal_of(n).len() > 0,
    decreases n,
{
    if n >= 10 {
        lemma_decimal_nonempty(n / 10);
    }
}

/// Relies on `String::push`: appends exactly the given character.
pub assume_specification[ String::push ](s: &mut String, c: char)
    ensures
        final(s)@ == old(s)@.push(c),
;

/// Append the decimal rendering of `n`.
fn push_decimal(out: &mut String, n: u32)
    ensures
        final(out)@ == old(out)@ + decimal_of(n as nat),
    decreases n,
{
    if n >= 10 {
        push_decimal(out, n / 10);
    }
    let d = n % 10;
    let c = ((48 + d) as u8) as char;
    out.push(c);
    proof {
        assert(out@ =~= old(out)@ + decimal_of(n as nat));
    }
}

/// A structured description of a panic, ready to be emitted as one
/// error-level record.
pub struct PanicRecord {
    /// Severity of the record: always `Error`.
    pub level: Level,
    /// Where the panic arose, as `file:line`, or `unknown` when the location
    /// is unavailable.
    pub location: String,
    /// The panic's message, as rendered by the runtime.
    pub payload: String,
    /// The human-readable identification of the event.
    pub message: String,
}

/// Build the one record that reports a panic. The location is never empty.
pub fn panic_record(location: Option<(&str, u32)>, payload: &str) -> (r: PanicRecord)
    ensures
        r.level == Level::Error,
        r.message@ == "Application panicked"@,
        r.payload@ == payload@,
        match location {
            Some((file, line)) => r.location@ == file@ + seq![':'] + decimal_of(line as nat),
            None => r.location@ == "unknown"@,
        },
        r.location@.len() > 0,
{
    let location_text: String = match location {
        Some((file, line)) => {
            let mut t = String::from_str(file);
            t.push(':');
            push_decimal(&mut t, line);
            proof {
                assert(t@ =~= file@ + seq![':'] + decimal_of(line as nat));
                lemma_decimal_nonempty(line as nat);
            }
            t
        },
        None => {
            proof {
                reveal_strlit("unknown");
            }
            String::from_str("unknown")
        },
    };
    PanicRecord {
        level: Level::Error,
        location: location_text,
        payload: String::from_str(payload),
        message: String::from_str("Application panicked"),
    }
}

} // verus!
