//! Action type of a registry record: unrecognized wire strings are a
//! decode failure, unlike `Status`'s silent fallback.

use vstd::prelude::*;
use vstd::string::StringExecFns;
use crate::text::str_eq;

verus! {

broadcast use vstd::string::group_string_axioms, vstd::seq::group_seq_axioms;

/// The change a registry record describes.
#[derive(Debug, PartialEq, Eq, Structural, Clone, Copy)]
pub enum ActionType {
    Added,
    Deleted,
    Modified,
}

/// The canonical wire string of an action type.
pub open spec fn action_type_wire(a: ActionType) -> Seq<char> {
    match a {
        ActionType::Added => "ADDED"@,
        ActionType::Deleted => "DELETED"@,
        ActionType::Modified => "MODIFIED"@,
    }
}

/// The action type a wire string decodes to, if it is recognized.
pub open spec fn action_type_of(s: Seq<char>) -> Option<ActionType> {
    if s == "ADDED"@ {
        Some(ActionType::Added)
    } else if s == "DELETED"@ {
        Some(ActionType::Deleted)
    } else if s == "MODIFIED"@ {
        Some(ActionType::Modified)
    } else {
        None
    }
}

/// A wire string that is not a recognized action type.
#[derive(Debug, PartialEq, Eq)]
pub struct InvalidActionTypeError {
    invalid_value: String,
}

impl View for InvalidActionTypeError {
    type V = Seq<char>;

    closed spec fn view(&self) -> Seq<char> {
        self.invalid_value@
    }
}

impl InvalidActionTypeError {
    /// Records the offending wire string.
    pub fn new(invalid_nm: &str) -> (r: Self)
        ensures
            r@ == invalid_nm@,
    {
        InvalidActionTypeError { invalid_value: String::from_str(invalid_nm) }
    }

    /// A short, fixed description of the error.
    pub fn description(&self) -> (r: String)
        ensures
            r@ == "Not a valid ActionType"@,
    {
        String::from_str("Not a valid ActionType")
    }
}

impl ActionType {
    /// The recognized action types.
    pub fn values() -> (r: Vec<ActionType>)
        ensures
            r@ == seq![ActionType::Added, ActionType::Deleted, ActionType::Modified],
    {
        let mut r: Vec<ActionType> = Vec::new();
        r.push(ActionType::Added);
        r.push(ActionType::Deleted);
        r.push(ActionType::Modified);
        assert(r@ =~= seq![ActionType::Added, ActionType::Deleted, ActionType::Modified]);
        r
    }

    /// The canonical wire string of this action type.
    pub fn wire_str(&self) -> (r: String)
        ensures
            r@ == action_type_wire(*self),
    {
        match self {
            ActionType::Added => String::from_str("ADDED"),
            ActionType::Deleted => String::from_str("DELETED"),
            ActionType::Modified => String::from_str("MODIFIED"),
        }
    }

    /// Reads a wire string; an unrecognized one is an error carrying it.
    pub fn from_str(s: &str) -> (r: Result<Self, InvalidActionTypeError>)
        ensures
            match r {
                Ok(a) => action_type_of(s@) == Some(a),
                Err(e) => action_type_of(s@) is None && e@ == s@,
            },
    {
        if str_eq(s, "ADDED") {
            Ok(ActionType::Added)
        } else if str_eq(s, "DELETED") {
            Ok(ActionType::Deleted)
        } else if str_eq(s, "MODIFIED") {
            Ok(ActionType::Modified)
        } else {
            Err(InvalidActionTypeError::new(s))
        }
    }
}

/// Decoding the canonical wire string gives back the action type.
pub proof fn lemma_action_type_round_trip(a: ActionType)
    ensures
        action_type_of(action_type_wire(a)) == Some(a),
{
    reveal_strlit("ADDED");
    reveal_strlit("DELETED");
    reveal_strlit("MODIFIED");
    assert("ADDED"@.len() == 5);
    assert("DELETED"@.len() == 7);
    assert("MODIFIED"@.len() == 8);
}

impl From<ActionType> for String {
    /// The canonical wire string of the action type.
    fn from(s: ActionType) -> String {
        s.wire_str()
    }
}

// A `String` cannot be constructed in specification code, so this
// conversion carries no contract; verified code uses `wire_str`, whose
// result's view is pinned, instead.
impl vstd::std_specs::convert::FromSpecImpl<ActionType> for String {
    open spec fn obeys_from_spec() -> bool {
        false
    }

    open spec fn from_spec(s: ActionType) -> String {
        arbitrary()
    }
}

} // verus!
