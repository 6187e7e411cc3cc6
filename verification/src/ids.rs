//! Session identifiers: 128-bit values with a canonical hyphenated text.

use crate::text::is_line;
use crate::text::is_space;
use crate::text::trim;
use crate::text::trim_end;
use crate::text::trim_start;
use vstd::prelude::*;

verus! {

/// The identity of one conversation. It is assigned once and never changes.
#[derive(PartialEq, Eq, Structural, Debug, Clone, Copy, Hash)]
pub struct Uuid {
    pub value: u128,
}

/// The text that the `uuid` crate prints for the identifier with this
/// numeric value (`Uuid::from_u128(value).to_string()`).
pub uninterp spec fn uuid_text(value: u128) -> Seq<char>;

/// The numeric value of the identifier that the `uuid` crate reads from a
/// text (`Uuid::parse_str`), if it accepts the text.
pub uninterp spec fn uuid_parsed(text: Seq<char>) -> Option<u128>;

/// The characters of the printed form: lower-case hexadecimal digits and
/// hyphens.
pub open spec fn is_uuid_char(c: char) -> bool {
    ('0' <= c && c <= '9') || ('a' <= c && c <= 'f') || c == '-'
}

/// What holds of the printed form of every identifier: 36 hexadecimal digits
/// and hyphens, which read back as the same identifier.
pub open spec fn uuid_prints_well(value: u128) -> bool {
    &&& uuid_text(value).len() == 36
    &&& forall|i: int| 0 <= i < 36 ==> is_uuid_char(#[trigger] uuid_text(value)[i])
    &&& uuid_parsed(uuid_text(value)) == Some(value)
}

/// Calls `uuid::Uuid::from_u128(value).to_string()`. The printed form is the
/// hyphenated lower-case one, and `Uuid::parse_str` reads it back.
#[verifier::external_body]
fn uuid_to_string(value: u128) -> (text: String)
    ensures
        text@ == uuid_text(value),
        text@.len() == 36,
        forall|i: int| 0 <= i < 36 ==> is_uuid_char(#[trigger] text@[i]),
        uuid_parsed(text@) == Some(value),
{
    uuid::Uuid::from_u128(value).to_string()
}

/// Calls `uuid::Uuid::parse_str`, which accepts the simple, hyphenated, URN
/// and braced forms, and hands back the numeric value.
#[verifier::external_body]
fn uuid_from_str(text: &str) -> (value: Option<u128>)
    ensures
        value == uuid_parsed(text@),
{
    match uuid::Uuid::parse_str(text) {
        Ok(id) => Some(id.as_u128()),
        Err(_) => None,
    }
}

/// Whether the value is that of a version-4 identifier: its version field
/// holds 4 and its variant field marks the RFC 4122 layout.
pub open spec fn is_version_4(value: u128) -> bool {
    value & 0x0000_0000_0000_F000_C000_0000_0000_0000u128
        == 0x0000_0000_0000_4000_8000_0000_0000_0000u128
}

/// Calls `uuid::Uuid::new_v4`, which draws 128 random bits and sets the
/// version field to 4 and the variant field to the RFC 4122 layout.
#[verifier::external_body]
fn uuid_random() -> (value: u128)
    ensures
        is_version_4(value),
{
    uuid::Uuid::new_v4().as_u128()
}

impl Uuid {
    /// The canonical text of this identifier.
    pub open spec fn text(self) -> Seq<char> {
        uuid_text(self.value)
    }

    /// A fresh random identifier of version 4.
    pub fn new_v4() -> (id: Uuid)
        ensures
            is_version_4(id.value),
    {
        Uuid { value: uuid_random() }
    }

    /// The identifier with the given numeric value.
    pub fn from_u128(value: u128) -> (id: Uuid)
        ensures
            id.value == value,
    {
        Uuid { value }
    }

    /// Reads an identifier from text; `None` where the text is not one.
    pub fn parse_str(text: &str) -> (id: Option<Uuid>)
        ensures
            id == match uuid_parsed(text@) {
                Some(value) => Some(Uuid { value }),
                None => None,
            },
    {
        match uuid_from_str(text) {
            Some(value) => Some(Uuid { value }),
            None => None,
        }
    }

    /// The canonical text: 36 characters, hyphenated, lower case.
    pub fn to_text(&self) -> (text: String)
        ensures
            text@ == self.text(),
            uuid_prints_well(self.value),
    {
        uuid_to_string(self.value)
    }
}

/// A text whose characters are all printed-form characters has no white
/// space and no line feed, so trimming leaves it as it is.
pub proof fn lemma_uuid_text_is_clean(value: u128)
    requires
        uuid_prints_well(value),
    ensures
        is_line(uuid_text(value)),
        trim(uuid_text(value)) == uuid_text(value),
        uuid_text(value).len() > 0,
        !is_space(uuid_text(value)[0]),
        !is_space(uuid_text(value).last()),
{
    let t = uuid_text(value);
    assert forall|i: int| 0 <= i < t.len() implies #[trigger] t[i] != '\n' && !is_space(t[i]) by {
        assert(is_uuid_char(t[i]));
    }
    assert(trim_start(t) == t);
    assert(trim_end(t) == t);
}

} // verus!
