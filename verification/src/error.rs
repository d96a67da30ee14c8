use vstd::prelude::*;

verus! {

/// Why a string was refused as a portable filename.
///
/// The variants follow the order in which validation checks a candidate.
#[derive(Debug, Clone, Copy, PartialEq, Eq)]
pub enum Rejection {
    /// The candidate is the empty string.
    Empty,
    /// The candidate's UTF-8 encoding is longer than 255 bytes.
    TooLong,
    /// The candidate is `.` or `..`.
    Reserved,
    /// The candidate starts with `-`.
    LeadingHyphen,
    /// The candidate holds a character outside `A-Za-z0-9._-`.
    NonPortable,
}

/// The text that [`InvalidFilename::reason`] gives for each rejection.
pub open spec fn reason_text(kind: Rejection) -> Seq<char> {
    match kind {
        Rejection::Empty => "cannot be empty"@,
        Rejection::TooLong => "exceeds 255 bytes"@,
        Rejection::Reserved => "cannot be '.' or '..'"@,
        Rejection::LeadingHyphen => "cannot start with '-'"@,
        Rejection::NonPortable => "contains non-portable characters"@,
    }
}

/// The five reason texts are different from each other.
proof fn lemma_reason_texts_distinct()
    ensures
        forall|a: Rejection, b: Rejection| #[trigger] reason_text(a) == #[trigger] reason_text(b)
            ==> a == b,
{
    reveal_strlit("cannot be empty");
    reveal_strlit("exceeds 255 bytes");
    reveal_strlit("cannot be '.' or '..'");
    reveal_strlit("cannot start with '-'");
    reveal_strlit("contains non-portable characters");
    assert(reason_text(Rejection::Empty).len() == 15);
    assert(reason_text(Rejection::TooLong).len() == 17);
    assert(reason_text(Rejection::Reserved).len() == 21);
    assert(reason_text(Rejection::LeadingHyphen).len() == 21);
    assert(reason_text(Rejection::NonPortable).len() == 32);
    assert(reason_text(Rejection::Reserved)[7] != reason_text(Rejection::LeadingHyphen)[7]);
}

/// Error returned when a string is not a valid POSIX portable filename.
#[derive(Debug)]
pub struct InvalidFilename {
    reason: &'static str,
}

impl InvalidFilename {
    #[verifier::type_invariant]
    spec fn has_known_reason(self) -> bool {
        exists|kind: Rejection| reason_text(kind) == self.reason@
    }

    /// The rejection that this error reports.
    pub closed spec fn kind(&self) -> Rejection {
        choose|kind: Rejection| reason_text(kind) == self.reason@
    }

    pub(crate) fn from_kind(kind: Rejection) -> (e: InvalidFilename)
        ensures
            e.kind() == kind,
    {
        let reason = match kind {
            Rejection::Empty => "cannot be empty",
            Rejection::TooLong => "exceeds 255 bytes",
            Rejection::Reserved => "cannot be '.' or '..'",
            Rejection::LeadingHyphen => "cannot start with '-'",
            Rejection::NonPortable => "contains non-portable characters",
        };
        proof {
            lemma_reason_texts_distinct();
            assert(reason_text(kind) == reason@);
        }
        InvalidFilename { reason }
    }

    /// Returns the reason the filename was rejected.
    #[must_use]
    pub fn reason(&self) -> (r: &'static str)
        ensures
            r@ == reason_text(self.kind()),
    {
        proof {
            use_type_invariant(self);
        }
        self.reason
    }

    /// The error message: `invalid portable filename: ` followed by the reason.
    pub fn to_string(&self) -> (r: String)
        ensures
            r@ == "invalid portable filename: "@ + reason_text(self.kind()),
    {
        let mut message = "invalid portable filename: ".to_owned();
        message.append(self.reason());
        message
    }
}

impl Clone for InvalidFilename {
    fn clone(&self) -> (r: Self)
        ensures
            r.kind() == self.kind(),
    {
        proof {
            use_type_invariant(self);
        }
        InvalidFilename { reason: self.reason }
    }
}

} // verus!
