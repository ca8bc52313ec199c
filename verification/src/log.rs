//! Lines of the launcher's log file.
use vstd::prelude::*;
use crate::text::{push_text, string_of, zero_padded, zero_padded_chars};

verus! {

/// Time since the logger was started.
pub struct Elapsed {
    /// Whole seconds.
    pub secs: u64,
    /// Milliseconds past the last whole second.
    pub millis: u32,
}

/// `[hh:mm:ss.mmm][kind] msg`: the time since start as hours, minutes,
/// seconds (two digits each) and milliseconds (three digits), then the kind
/// of the entry and its message.
pub open spec fn log_line(secs: nat, millis: nat, kind: Seq<char>, msg: Seq<char>) -> Seq<char> {
    seq!['['] + zero_padded(secs / 3600, 2) + seq![':'] + zero_padded((secs % 3600) / 60, 2)
        + seq![':'] + zero_padded(secs % 60, 2) + seq!['.'] + zero_padded(millis, 3) + seq![
        ']',
        '[',
    ] + kind + seq![']', ' '] + msg
}

/// The line to append to the log for an entry of kind `kind` with message
/// `msg`; `None` while the logger has not been started (`elapsed` is `None`),
/// in which case nothing is written.
pub fn info(elapsed: Option<Elapsed>, kind: &str, msg: &str) -> (r: Option<String>)
    ensures
        r is None <==> elapsed is None,
        elapsed matches Some(e) ==> r matches Some(line) && line@ == log_line(
            e.secs as nat,
            e.millis as nat,
            kind@,
            msg@,
        ),
{
    let e = match elapsed {
        Some(e) => e,
        None => return None,
    };
    let secs = e.secs;
    let mut v: Vec<char> = Vec::new();
    v.push('[');
    let mut h = zero_padded_chars(secs / 3600, 2);
    v.append(&mut h);
    v.push(':');
    let mut m = zero_padded_chars((secs % 3600) / 60, 2);
    v.append(&mut m);
    v.push(':');
    let mut s = zero_padded_chars(secs % 60, 2);
    v.append(&mut s);
    v.push('.');
    let mut ms = zero_padded_chars(e.millis as u64, 3);
    v.append(&mut ms);
    v.push(']');
    v.push('[');
    push_text(&mut v, kind);
    v.push(']');
    v.push(' ');
    push_text(&mut v, msg);
    assert(v@ =~= log_line(secs as nat, e.millis as nat, kind@, msg@));
    Some(string_of(v.as_slice()))
}

} // verus!
