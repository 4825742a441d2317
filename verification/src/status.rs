//! Instance status: unrecognized wire strings fall back to `Unknown`
//! rather than failing.

use vstd::prelude::*;
use vstd::string::StringExecFns;
use crate::text::str_eq;

verus! {

broadcast use vstd::string::group_string_axioms, vstd::seq::group_seq_axioms;

/// The status of a registered instance.
#[derive(Debug, PartialEq, Eq, Structural, Clone, Copy)]
pub enum Status {
    Up,
    Down,
    Starting,
    OutOfService,
    Unknown,
}

/// The canonical wire string of a status.
pub open spec fn status_wire(s: Status) -> Seq<char> {
    match s {
        Status::Up => "UP"@,
        Status::Down => "DOWN"@,
        Status::Starting => "STARTING"@,
        Status::OutOfService => "OUT_OF_SERVICE"@,
        Status::Unknown => "UNKNOWN"@,
    }
}

/// The status a wire string decodes to: any string that is not one of the
/// four known literals yields `Unknown`.
pub open spec fn status_of(s: Seq<char>) -> Status {
    if s == "UP"@ {
        Status::Up
    } else if s == "DOWN"@ {
        Status::Down
    } else if s == "STARTING"@ {
        Status::Starting
    } else if s == "OUT_OF_SERVICE"@ {
        Status::OutOfService
    } else {
        Status::Unknown
    }
}

impl Status {
    /// The recognized statuses, `Unknown` excluded.
    pub fn values() -> (r: Vec<Status>)
        ensures
            r@ == seq![Status::Up, Status::Down, Status::Starting, Status::OutOfService],
    {
        let mut r: Vec<Status> = Vec::new();
        r.push(Status::Up);
        r.push(Status::Down);
        r.push(Status::Starting);
        r.push(Status::OutOfService);
        assert(r@ =~= seq![Status::Up, Status::Down, Status::Starting, Status::OutOfService]);
        r
    }

    /// The canonical wire string of this status.
    pub fn wire_str(&self) -> (r: String)
        ensures
            r@ == status_wire(*self),
    {
        match self {
            Status::Up => String::from_str("UP"),
            Status::Down => String::from_str("DOWN"),
            Status::Starting => String::from_str("STARTING"),
            Status::OutOfService => String::from_str("OUT_OF_SERVICE"),
            Status::Unknown => String::from_str("UNKNOWN"),
        }
    }
}

/// Decoding the canonical wire string gives back the status: the four
/// known literals map to themselves and "UNKNOWN" falls back to `Unknown`.
pub proof fn lemma_status_round_trip(s: Status)
    ensures
        status_of(status_wire(s)) == s,
{
    reveal_strlit("UP");
    reveal_strlit("DOWN");
    reveal_strlit("STARTING");
    reveal_strlit("OUT_OF_SERVICE");
    reveal_strlit("UNKNOWN");
    assert("UP"@.len() == 2);
    assert("DOWN"@.len() == 4);
    assert("STARTING"@.len() == 8);
    assert("OUT_OF_SERVICE"@.len() == 14);
    assert("UNKNOWN"@.len() == 7);
}

fn status_from_wire(s: &str) -> (r: Status)
    ensures
        r == status_of(s@),
{
    if str_eq(s, "UP") {
        Status::Up
    } else if str_eq(s, "DOWN") {
        Status::Down
    } else if str_eq(s, "STARTING") {
        Status::Starting
    } else if str_eq(s, "OUT_OF_SERVICE") {
        Status::OutOfService
    } else {
        Status::Unknown
    }
}

impl<'a> From<&'a str> for Status {
    /// Reads a wire string, falling back to `Unknown`.
    fn from(s: &'a str) -> Status {
        status_from_wire(s)
    }
}

impl<'a> vstd::std_specs::convert::FromSpecImpl<&'a str> for Status {
    open spec fn obeys_from_spec() -> bool {
        true
    }

    open spec fn from_spec(s: &'a str) -> Status {
        status_of(s@)
    }
}

impl From<String> for Status {
    /// Reads a wire string, falling back to `Unknown`.
    fn from(s: String) -> Status {
        status_from_wire(s.as_str())
    }
}

impl vstd::std_specs::convert::FromSpecImpl<String> for Status {
    open spec fn obeys_from_spec() -> bool {
        true
    }

    open spec fn from_spec(s: String) -> Status {
        status_of(s@)
    }
}

impl From<Status> for String {
    /// The canonical wire string of the status.
    fn from(s: Status) -> String {
        s.wire_str()
    }
}

// A `String` cannot be constructed in specification code, so this
// conversion carries no contract; verified code uses `wire_str`, whose
// result's view is pinned, instead.
impl vstd::std_specs::convert::FromSpecImpl<Status> for String {
    open spec fn obeys_from_spec() -> bool {
        false
    }

    open spec fn from_spec(s: Status) -> String {
        arbitrary()
    }
}

} // verus!
