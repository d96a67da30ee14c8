use vstd::prelude::*;

use crate::error::{InvalidFilename, Rejection};

verus! {

/// A character of the POSIX portable filename character set: `A-Z`, `a-z`,
/// `0-9`, `.`, `_` and `-`.
pub open spec fn is_portable_char(c: char) -> bool {
    ||| ('A' <= c && c <= 'Z')
    ||| ('a' <= c && c <= 'z')
    ||| ('0' <= c && c <= '9')
    ||| c == '.'
    ||| c == '_'
    ||| c == '-'
}

/// Returns `true` if `c` is an allowed character for a POSIX portable filename.
///
/// The hyphen is allowed here; that it may not come first is checked apart.
pub fn is_portable(c: char) -> (r: bool)
    ensures
        r == is_portable_char(c),
{
    ('A' <= c && c <= 'Z') || ('a' <= c && c <= 'z') || ('0' <= c && c <= '9') || c == '.'
        || c == '_' || c == '-'
}

/// Length in bytes of the UTF-8 encoding of `s`.
pub open spec fn byte_len(s: Seq<char>) -> nat {
    vstd::utf8::encode_utf8(s).len()
}

/// `.` and `..`, which name directories.
pub open spec fn is_reserved_name(s: Seq<char>) -> bool {
    s == seq!['.'] || s == seq!['.', '.']
}

/// The first rule, in the order validation checks them, that `s` breaks.
pub open spec fn rejection_of(s: Seq<char>) -> Option<Rejection> {
    if s.len() == 0 {
        Some(Rejection::Empty)
    } else if byte_len(s) > 255 {
        Some(Rejection::TooLong)
    } else if is_reserved_name(s) {
        Some(Rejection::Reserved)
    } else if s[0] == '-' {
        Some(Rejection::LeadingHyphen)
    } else if exists|i: int| 0 <= i < s.len() && !is_portable_char(#[trigger] s[i]) {
        Some(Rejection::NonPortable)
    } else {
        None
    }
}

/// Whether `s` is `.` or `..`.
fn is_reserved(s: &str) -> (r: bool)
    ensures
        r == is_reserved_name(s@),
{
    let n = s.unicode_len();
    if n == 1 {
        let r = s.get_char(0) == '.';
        assert(r ==> s@ =~= seq!['.']);
        r
    } else if n == 2 {
        let r = s.get_char(0) == '.' && s.get_char(1) == '.';
        assert(r ==> s@ =~= seq!['.', '.']);
        r
    } else {
        false
    }
}

/// The rules of a POSIX portable filename: non-empty, at most 255 bytes,
/// not `.` or `..`, not starting with `-`, and made only of `A-Za-z0-9._-`.
pub open spec fn is_portable_filename(s: Seq<char>) -> bool {
    &&& 0 < s.len()
    &&& byte_len(s) <= 255
    &&& !is_reserved_name(s)
    &&& s[0] != '-'
    &&& forall|i: int| 0 <= i < s.len() ==> is_portable_char(#[trigger] s[i])
}

/// A string made of portable characters is ASCII, so its UTF-8 encoding has
/// one byte per character.
pub proof fn lemma_portable_byte_len(s: Seq<char>)
    requires
        forall|i: int| 0 <= i < s.len() ==> is_portable_char(#[trigger] s[i]),
    ensures
        byte_len(s) == s.len(),
{
    assert(vstd::utf8::is_ascii_chars(s));
    vstd::utf8::is_ascii_chars_encode_utf8(s);
}

/// Validation reports no rejection exactly for the strings that keep every
/// rule of a portable filename.
pub proof fn lemma_no_rejection_iff_portable(s: Seq<char>)
    ensures
        rejection_of(s) is None <==> is_portable_filename(s),
{
}

/// A portable filename is ASCII, has one byte per character, and so is at
/// most 255 characters long.
pub proof fn lemma_portable_filename_is_short_ascii(s: Seq<char>)
    requires
        is_portable_filename(s),
    ensures
        vstd::utf8::is_ascii_chars(s),
        byte_len(s) == s.len(),
        s.len() <= 255,
{
    lemma_portable_byte_len(s);
}

/// Checks `s` against the rules, in the order that [`rejection_of`] gives.
fn check(s: &str) -> (r: Result<(), InvalidFilename>)
    ensures
        match r {
            Ok(()) => rejection_of(s@) is None,
            Err(e) => rejection_of(s@) == Some(e.kind()),
        },
{
    if s.is_empty() {
        return Err(InvalidFilename::from_kind(Rejection::Empty));
    }
    if s.as_bytes().len() > 255 {
        return Err(InvalidFilename::from_kind(Rejection::TooLong));
    }
    if is_reserved(s) {
        return Err(InvalidFilename::from_kind(Rejection::Reserved));
    }
    // Validate each character, handling the leading hyphen rule specially.
    let mut first = true;
    for c in it: s.chars()
        invariant
            first == (it.index() == 0),
            it.seq() == s@,
            0 < s@.len(),
            byte_len(s@) <= 255,
            !is_reserved_name(s@),
            !first ==> s@[0] != '-',
            forall|j: int| 0 <= j < it.index() ==> is_portable_char(#[trigger] s@[j]),
    {
        if first && c == '-' {
            return Err(InvalidFilename::from_kind(Rejection::LeadingHyphen));
        }
        if !is_portable(c) {
            return Err(InvalidFilename::from_kind(Rejection::NonPortable));
        }
        first = false;
    }
    Ok(())
}

/// A validated POSIX portable filename.
///
/// Guaranteed to be:
/// - Non-empty
/// - Not `.` or `..`
/// - Composed only of `A-Za-z0-9._-`
/// - Not starting with `-`
/// - At most 255 bytes long
///
/// Construct via [`PortableFilename::new`], [`FromStr`](std::str::FromStr), or [`TryFrom`].
#[derive(Debug, PartialEq, Eq, Ord, Hash)]
pub struct PortableFilename(String);

impl View for PortableFilename {
    type V = Seq<char>;

    closed spec fn view(&self) -> Seq<char> {
        self.0@
    }
}

impl PortableFilename {
    /// Maximum allowed length in **bytes** (POSIX filesystem limit).
    pub const MAX_LEN: usize = 255;

    #[verifier::type_invariant]
    spec fn holds_portable_name(self) -> bool {
        is_portable_filename(self.0@)
    }

    /// Validate and construct a new portable filename.
    ///
    /// # Errors
    ///
    /// Returns [`InvalidFilename`] if the input:
    /// - Is empty
    /// - Exceeds 255 bytes
    /// - Is `.` or `..`
    /// - Starts with `-`
    /// - Contains characters outside `A-Za-z0-9._-`
    ///
    /// When several rules are broken, the error names the first in that order.
    pub fn new(s: &str) -> (r: Result<Self, InvalidFilename>)
        ensures
            r is Ok <==> is_portable_filename(s@),
            match r {
                Ok(name) => name@ == s@,
                Err(e) => rejection_of(s@) == Some(e.kind()),
            },
    {
        check(s)?;
        Ok(PortableFilename(s.to_owned()))
    }

    /// Validates `s` and takes it over without copying.
    pub(crate) fn from_string(s: String) -> (r: Result<Self, InvalidFilename>)
        ensures
            r is Ok <==> is_portable_filename(s@),
            match r {
                Ok(name) => name@ == s@,
                Err(e) => rejection_of(s@) == Some(e.kind()),
            },
    {
        check(s.as_str())?;
        Ok(PortableFilename(s))
    }

    /// Returns the filename as a string slice.
    #[must_use]
    pub fn as_str(&self) -> (r: &str)
        ensures
            r@ == self@,
            is_portable_filename(r@),
    {
        proof {
            use_type_invariant(self);
        }
        self.0.as_str()
    }

    /// Consumes self and returns the inner `String`.
    #[must_use]
    pub fn into_inner(self) -> (r: String)
        ensures
            r@ == self@,
            is_portable_filename(r@),
    {
        proof {
            use_type_invariant(&self);
        }
        self.0
    }
}

impl Clone for PortableFilename {
    fn clone(&self) -> (r: Self)
        ensures
            r@ == self@,
    {
        proof {
            use_type_invariant(self);
        }
        PortableFilename(self.0.clone())
    }
}

impl AsRef<str> for PortableFilename {
    fn as_ref(&self) -> (r: &str)
        ensures
            str::view(r) == self@,
            is_portable_filename(self@),
    {
        proof {
            use_type_invariant(self);
        }
        self.0.as_str()
    }
}

impl std::ops::Deref for PortableFilename {
    type Target = str;

    fn deref(&self) -> (r: &str)
        ensures
            r@ == self@,
            is_portable_filename(r@),
    {
        proof {
            use_type_invariant(self);
        }
        self.0.as_str()
    }
}

impl std::borrow::Borrow<str> for PortableFilename {
    fn borrow(&self) -> (r: &str)
        ensures
            str::view(r) == self@,
            is_portable_filename(self@),
    {
        proof {
            use_type_invariant(self);
        }
        self.0.as_str()
    }
}

/// Implements parsing from a string slice via the `FromStr` trait.
impl std::str::FromStr for PortableFilename {
    type Err = InvalidFilename;

    fn from_str(s: &str) -> (r: Result<Self, Self::Err>)
        ensures
            r is Ok <==> is_portable_filename(s@),
            match r {
                Ok(name) => name@ == s@,
                Err(e) => rejection_of(s@) == Some(e.kind()),
            },
    {
        Self::new(s)
    }
}

/// Implements conversion from a `String` via the `TryFrom` trait.
impl TryFrom<String> for PortableFilename {
    type Error = InvalidFilename;

    fn try_from(s: String) -> (r: Result<Self, Self::Error>)
        ensures
            r is Ok <==> is_portable_filename(s@),
            match r {
                Ok(name) => name@ == s@,
                Err(e) => rejection_of(s@) == Some(e.kind()),
            },
    {
        Self::from_string(s)
    }
}

/// What `try_from` returns is stated in its own `ensures`, over the view of
/// its argument; this impl makes no claim through the generic `TryFrom`
/// specification.
impl vstd::std_specs::convert::TryFromSpecImpl<String> for PortableFilename {
    open spec fn obeys_try_from_spec() -> bool {
        false
    }

    open spec fn try_from_spec(s: String) -> Result<Self, InvalidFilename> {
        arbitrary()
    }
}

impl<'a> vstd::std_specs::convert::TryFromSpecImpl<&'a str> for PortableFilename {
    open spec fn obeys_try_from_spec() -> bool {
        false
    }

    open spec fn try_from_spec(s: &'a str) -> Result<Self, InvalidFilename> {
        arbitrary()
    }
}

/// Implements conversion from a string slice via the `TryFrom` trait.
impl<'a> TryFrom<&'a str> for PortableFilename {
    type Error = InvalidFilename;

    fn try_from(s: &'a str) -> (r: Result<Self, Self::Error>)
        ensures
            r is Ok <==> is_portable_filename(s@),
            match r {
                Ok(name) => name@ == s@,
                Err(e) => rejection_of(s@) == Some(e.kind()),
            },
    {
        Self::new(s)
    }
}

impl From<PortableFilename> for String {
    fn from(name: PortableFilename) -> (r: String)
        ensures
            r@ == name@,
            is_portable_filename(r@),
    {
        proof {
            use_type_invariant(&name);
        }
        name.0
    }
}

/// Converting to `String` hands back the filename's own string.
impl vstd::std_specs::convert::FromSpecImpl<PortableFilename> for String {
    open spec fn obeys_from_spec() -> bool {
        true
    }

    closed spec fn from_spec(name: PortableFilename) -> String {
        name.0
    }
}

/// `std::path::Path`, carried through opaquely.
#[verifier::external_type_specification]
#[verifier::external_body]
pub struct ExPath(std::path::Path);

/// `std::path::PathBuf`, carried through opaquely.
#[verifier::external_type_specification]
#[verifier::external_body]
pub struct ExPathBuf(std::path::PathBuf);

impl AsRef<std::path::Path> for PortableFilename {
    /// `std::path::Path::new` on the filename's string. Trusted, with nothing
    /// claimed of the path: that it has the filename as its only component is
    /// what std documents, but `Path` has no view here to state it over.
    #[verifier::external_body]
    fn as_ref(&self) -> &std::path::Path {
        std::path::Path::new(&self.0)
    }
}

/// The path that `PathBuf::from` makes of a string with the view `s`.
pub uninterp spec fn path_buf_of(s: Seq<char>) -> std::path::PathBuf;

impl From<PortableFilename> for std::path::PathBuf {
    /// `PathBuf::from` on the filename's string. Trusted: std builds the path
    /// from the string alone, without copying or changing it, so the result
    /// is named by [`path_buf_of`] applied to the filename's view.
    #[verifier::external_body]
    fn from(name: PortableFilename) -> (r: std::path::PathBuf)
        ensures
            r == path_buf_of(name@),
    {
        std::path::PathBuf::from(name.0)
    }
}

} // verus!
