//! The password of an administrator.
//!
//! A password is acceptable if, without the white space around it, it is more
//! than 12 and fewer than 129 characters long, where a character is what a
//! reader takes for one: an extended grapheme cluster.

use vstd::prelude::*;
use unicode_segmentation::UnicodeSegmentation;

verus! {

/// A password has to be longer than this many characters.
pub const MIN_LENGTH_EXCLUSIVE: usize = 12;

/// A password has to be shorter than this many characters.
pub const MAX_LENGTH_EXCLUSIVE: usize = 129;

/// A text without the white space at its start and end, as `str::trim` gives it.
pub uninterp spec fn trimmed(s: Seq<char>) -> Seq<char>;

/// The number of extended grapheme clusters of a text, as the iterator of
/// `UnicodeSegmentation::graphemes` counts them.
pub uninterp spec fn grapheme_count(s: Seq<char>) -> nat;

/// Calls `str::trim`, which drops the leading and trailing characters that
/// Unicode classes as white space. The contract only gives the result its name.
#[verifier::external_body]
fn trim(s: &str) -> (r: &str)
    ensures
        r@ == trimmed(s@),
{
    s.trim()
}

/// Calls `UnicodeSegmentation::graphemes` for the extended grapheme clusters of
/// the text and counts what its iterator yields. The segmentation follows the
/// Unicode tables; the contract only gives the count its name.
#[verifier::external_body]
fn count_graphemes(s: &str) -> (n: usize)
    ensures
        n == grapheme_count(s@),
{
    s.graphemes(true).count()
}

/// Whether a password of this many characters is acceptable.
pub open spec fn acceptable_length(length: nat) -> bool {
    MIN_LENGTH_EXCLUSIVE < length < MAX_LENGTH_EXCLUSIVE
}

/// Whether a password of this many characters is acceptable: more than 12 and
/// fewer than 129.
pub fn is_acceptable_length(length: usize) -> (r: bool)
    ensures
        r == acceptable_length(length as nat),
{
    MIN_LENGTH_EXCLUSIVE < length && length < MAX_LENGTH_EXCLUSIVE
}

/// An acceptable password.
pub struct AdminPassword(String);

impl View for AdminPassword {
    type V = Seq<char>;

    closed spec fn view(&self) -> Seq<char> {
        self.0@
    }
}

impl AdminPassword {
    /// Takes the password if it is acceptable. It is kept as given, with the
    /// white space around it.
    pub fn new(password: String) -> (r: Result<AdminPassword, ()>)
        ensures
            r is Ok <==> acceptable_length(grapheme_count(trimmed(password@))),
            r matches Ok(accepted) ==> accepted@ == password@,
    {
        let length = count_graphemes(trim(password.as_str()));
        if is_acceptable_length(length) {
            Ok(AdminPassword(password))
        } else {
            Err(())
        }
    }
}

impl AsRef<String> for AdminPassword {
    fn as_ref(&self) -> (password: &String)
        ensures
            password@ == self@,
    {
        &self.0
    }
}

} // verus!
