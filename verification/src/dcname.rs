//! Data-center name: unrecognized wire strings are a decode failure.

use vstd::prelude::*;
use vstd::string::StringExecFns;
use crate::text::str_eq;

verus! {

broadcast use vstd::string::group_string_axioms, vstd::seq::group_seq_axioms;

/// The kind of data center an instance runs in.
#[derive(Debug, PartialEq, Eq, Structural, Clone, Copy)]
pub enum DcName {
    MyOwn,
    Amazon,
}

/// The canonical wire string of a data-center name.
pub open spec fn dcname_wire(n: DcName) -> Seq<char> {
    match n {
        DcName::MyOwn => "MyOwn"@,
        DcName::Amazon => "Amazon"@,
    }
}

/// The data-center name a wire string decodes to, if it is recognized.
pub open spec fn dcname_of(s: Seq<char>) -> Option<DcName> {
    if s == "MyOwn"@ {
        Some(DcName::MyOwn)
    } else if s == "Amazon"@ {
        Some(DcName::Amazon)
    } else {
        None
    }
}

/// A wire string that is not a recognized data-center name.
#[derive(Debug, PartialEq, Eq)]
pub struct InvalidDcNameError {
    invalid_value: String,
}

impl View for InvalidDcNameError {
    type V = Seq<char>;

    closed spec fn view(&self) -> Seq<char> {
        self.invalid_value@
    }
}

impl InvalidDcNameError {
    /// Records the offending wire string.
    pub fn new(invalid_nm: &str) -> (r: Self)
        ensures
            r@ == invalid_nm@,
    {
        InvalidDcNameError { invalid_value: String::from_str(invalid_nm) }
    }

    /// A short, fixed description of the error.
    pub fn description(&self) -> (r: String)
        ensures
            r@ == "Not a valid DCName"@,
    {
        String::from_str("Not a valid DCName")
    }
}

impl DcName {
    /// The recognized data-center names.
    pub fn values() -> (r: Vec<DcName>)
        ensures
            r@ == seq![DcName::MyOwn, DcName::Amazon],
    {
        let mut r: Vec<DcName> = Vec::new();
        r.push(DcName::MyOwn);
        r.push(DcName::Amazon);
        assert(r@ =~= seq![DcName::MyOwn, DcName::Amazon]);
        r
    }

    /// The canonical wire string of this data-center name.
    pub fn wire_str(&self) -> (r: String)
        ensures
            r@ == dcname_wire(*self),
    {
        match self {
            DcName::MyOwn => String::from_str("MyOwn"),
            DcName::Amazon => String::from_str("Amazon"),
        }
    }

    /// Reads a wire string; an unrecognized one is an error carrying it.
    pub fn from_str(s: &str) -> (r: Result<Self, InvalidDcNameError>)
        ensures
            match r {
                Ok(n) => dcname_of(s@) == Some(n),
                Err(e) => dcname_of(s@) is None && e@ == s@,
            },
    {
        if str_eq(s, "MyOwn") {
            Ok(DcName::MyOwn)
        } else if str_eq(s, "Amazon") {
            Ok(DcName::Amazon)
        } else {
            Err(InvalidDcNameError::new(s))
        }
    }
}

/// Decoding the canonical wire string gives back the data-center name.
pub proof fn lemma_dcname_round_trip(n: DcName)
    ensures
        dcname_of(dcname_wire(n)) == Some(n),
{
    reveal_strlit("MyOwn");
    reveal_strlit("Amazon");
    assert("MyOwn"@.len() == 5);
    assert("Amazon"@.len() == 6);
}

impl From<DcName> for String {
    /// The canonical wire string of the data-center name.
    fn from(s: DcName) -> String {
        s.wire_str()
    }
}

// A `String` cannot be constructed in specification code, so this
// conversion carries no contract; verified code uses `wire_str`, whose
// result's view is pinned, instead.
impl vstd::std_specs::convert::FromSpecImpl<DcName> for String {
    open spec fn obeys_from_spec() -> bool {
        false
    }

    open spec fn from_spec(s: DcName) -> String {
        arbitrary()
    }
}

} // verus!
