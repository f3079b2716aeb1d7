//! Input validation for identifiers, titles and stored records.

use vstd::prelude::*;
use vstd::string::*;
use vstd::utf8::encode_utf8;
use crate::db::ascii_lower;
use crate::error::AppError;
use crate::records::{Manuscript, Scene};
use crate::text::{all_white, decimal, is_blank_text, push_decimal};

verus! {

pub open spec fn is_hex_digit(c: u8) -> bool {
    (0x30 <= c <= 0x39) || (0x61 <= c <= 0x66) || (0x41 <= c <= 0x46)
}

/// Thirty-two hexadecimal digits.
pub open spec fn simple_uuid(b: Seq<u8>) -> bool {
    b.len() == 32 && forall|i: int| 0 <= i < 32 ==> is_hex_digit(#[trigger] b[i])
}

/// Thirty-six characters: hyphens at positions 8, 13, 18 and 23,
/// hexadecimal digits everywhere else.
pub open spec fn hyphenated_uuid(b: Seq<u8>) -> bool {
    b.len() == 36 && forall|i: int|
        0 <= i < 36 ==> if i == 8 || i == 13 || i == 18 || i == 23 {
            #[trigger] b[i] == 0x2d
        } else {
            is_hex_digit(b[i])
        }
}

/// `urn:uuid:` in lower case.
pub open spec fn urn_prefix() -> Seq<u8> {
    seq![0x75u8, 0x72u8, 0x6eu8, 0x3au8, 0x75u8, 0x75u8, 0x69u8, 0x64u8, 0x3au8]
}

/// The texts the uuid crate reads as a UUID: the simple form, the hyphenated
/// form, the hyphenated form in braces, or after `urn:uuid:` in any case.
pub open spec fn uuid_text(b: Seq<u8>) -> bool {
    simple_uuid(b) || hyphenated_uuid(b) || (b.len() == 38 && b[0] == 0x7b && b[37] == 0x7d
        && hyphenated_uuid(b.subrange(1, 37))) || (b.len() == 45 && (forall|i: int|
        0 <= i < 9 ==> ascii_lower(#[trigger] b[i]) == urn_prefix()[i]) && hyphenated_uuid(b.skip(9)))
}

/// Relies on uuid::Uuid::parse_str: it accepts exactly the UUID texts above
/// (its `try_parse` dispatches on the length, then checks the hyphens and
/// hexadecimal digits).
#[verifier::external_body]
fn parses_as_uuid(s: &str) -> (r: bool)
    ensures
        r == uuid_text(s.spec_bytes()),
{
    uuid::Uuid::parse_str(s).is_ok()
}

/// The validation failure `message` on `field` holding `value`.
pub open spec fn is_field_error(e: AppError, message: Seq<char>, field: Seq<char>, value: Seq<char>) -> bool {
    e matches AppError::Validation { message: m, field: f, value: v, .. } && m@ == message
        && f is Some && f->0@ == field && v is Some && v->0@ == value
}

/// What is wrong with an input, if anything: the message, the field and the
/// value that the validation error records.
pub type Problem = Option<(Seq<char>, Seq<char>, Seq<char>)>;

/// `r` is what a check owes for `problem`: success when there is none, else
/// the validation error that describes it.
pub open spec fn reports<T>(r: Result<T, AppError>, problem: Problem) -> bool {
    match problem {
        None => r is Ok,
        Some((message, field, value)) => r is Err && is_field_error(r->Err_0, message, field, value),
    }
}

/// An identifier must be non-empty, then read as a UUID.
pub open spec fn id_problem(id: Seq<char>, is_uuid: bool, field: Seq<char>, empty_message: Seq<char>, format_message: Seq<char>) -> Problem {
    if id.len() == 0 {
        Some((empty_message, field, id))
    } else if !is_uuid {
        Some((format_message, field, id))
    } else {
        None
    }
}

pub open spec fn manuscript_id_problem(id: Seq<char>) -> Problem {
    id_problem(id, uuid_text(encode_utf8(id)), "manuscript_id"@, "Manuscript ID cannot be empty"@, "Invalid manuscript ID format"@)
}

pub open spec fn scene_id_problem(id: Seq<char>) -> Problem {
    id_problem(id, uuid_text(encode_utf8(id)), "scene_id"@, "Scene ID cannot be empty"@, "Invalid scene ID format"@)
}

/// A title must be non-empty and at most 255 bytes long; a long one is
/// recorded by its length, "<n> chars".
pub open spec fn title_problem(title: Seq<char>) -> Problem {
    if title.len() == 0 {
        Some(("Title cannot be empty"@, "title"@, title))
    } else if encode_utf8(title).len() > MAX_TITLE_BYTES {
        Some(("Title cannot be longer than 255 characters"@, "title"@, decimal(encode_utf8(title).len()) + " chars"@))
    } else {
        None
    }
}

/// A text longer than `limit` bytes is refused with `message` on `field`,
/// recorded by its length.
pub open spec fn size_problem(text: Seq<char>, limit: nat, message: Seq<char>, field: Seq<char>) -> Problem {
    if encode_utf8(text).len() > limit {
        Some((message, field, decimal(encode_utf8(text).len()) + " chars"@))
    } else {
        None
    }
}

/// Checks an identifier given whether it reads as a UUID: it must be
/// non-empty, then well formed. Failures name `field` and hold the identifier.
pub fn check_identifier(
    id: &str,
    is_uuid: bool,
    field: &str,
    empty_message: &str,
    format_message: &str,
) -> (r: Result<(), AppError>)
    ensures
        reports(r, id_problem(id@, is_uuid, field@, empty_message@, format_message@)),
{
    if id.is_empty() {
        return Err(AppError::validation_field(empty_message, field, id));
    }
    if !is_uuid {
        return Err(AppError::validation_field(format_message, field, id));
    }
    Ok(())
}

/// A manuscript identifier must be a non-empty UUID.
pub fn validate_manuscript_id(id: &str) -> (r: Result<(), AppError>)
    ensures
        reports(r, manuscript_id_problem(id@)),
{
    let ok = parses_as_uuid(id);
    check_identifier(id, ok, "manuscript_id", "Manuscript ID cannot be empty", "Invalid manuscript ID format")
}

/// A scene identifier must be a non-empty UUID.
pub fn validate_scene_id(id: &str) -> (r: Result<(), AppError>)
    ensures
        reports(r, scene_id_problem(id@)),
{
    let ok = parses_as_uuid(id);
    check_identifier(id, ok, "scene_id", "Scene ID cannot be empty", "Invalid scene ID format")
}

/// Longest title accepted, in bytes.
pub const MAX_TITLE_BYTES: usize = 255;

/// A title must be non-empty and at most 255 bytes long; the failure for a
/// long title records its length as "<n> chars".
pub fn validate_title(title: &str) -> (r: Result<(), AppError>)
    ensures
        reports(r, title_problem(title@)),
{
    if title.is_empty() {
        return Err(AppError::validation_field("Title cannot be empty", "title", title));
    }
    let n = title.as_bytes().len();
    if n > MAX_TITLE_BYTES {
        let mut v = String::new();
        push_decimal(&mut v, n as u64);
        v.append(" chars");
        return Err(
            AppError::validation_field("Title cannot be longer than 255 characters", "title", v.as_str()),
        );
    }
    Ok(())
}

/// The same check as `validate_title`, under the name the manuscript
/// commands use.
pub fn validate_manuscript_title(title: &str) -> (r: Result<(), AppError>)
    ensures
        reports(r, title_problem(title@)),
{
    validate_title(title)
}

/// A stored manuscript's title must not be blank and must be at most 500
/// bytes long; the error records the title.
pub open spec fn manuscript_problem(title: Seq<char>) -> Problem {
    if all_white(title) {
        Some(("Manuscript title cannot be empty"@, "title"@, title))
    } else if encode_utf8(title).len() > 500 {
        Some(("Manuscript title too long (max 500 characters)"@, "title"@, title))
    } else {
        None
    }
}

/// A stored scene's text must not be blank and must be at most 100,000 bytes
/// long; the error records which of the two failed.
pub open spec fn scene_problem(text: Seq<char>) -> Problem {
    if all_white(text) {
        Some(("Scene content cannot be empty"@, "raw_text"@, "empty"@))
    } else if encode_utf8(text).len() > 100_000 {
        Some(("Scene content too long (max 100,000 characters)"@, "raw_text"@, "too_long"@))
    } else {
        None
    }
}

/// A stored manuscript needs a title that is not blank and at most 500 bytes.
pub fn validate_manuscript(manuscript: &Manuscript) -> (r: Result<(), AppError>)
    ensures
        reports(r, manuscript_problem(manuscript.title@)),
{
    let title = manuscript.title.as_str();
    if is_blank_text(title) {
        return Err(AppError::validation_field("Manuscript title cannot be empty", "title", title));
    }
    if title.as_bytes().len() > 500 {
        return Err(
            AppError::validation_field("Manuscript title too long (max 500 characters)", "title", title),
        );
    }
    Ok(())
}

/// A stored scene needs text that is not blank and at most 100,000 bytes.
pub fn validate_scene(scene: &Scene) -> (r: Result<(), AppError>)
    ensures
        reports(r, scene_problem(scene.raw_text@)),
{
    let text = scene.raw_text.as_str();
    if is_blank_text(text) {
        return Err(AppError::validation_field("Scene content cannot be empty", "raw_text", "empty"));
    }
    if text.as_bytes().len() > 100_000 {
        return Err(
            AppError::validation_field(
                "Scene content too long (max 100,000 characters)",
                "raw_text",
                "too_long",
            ),
        );
    }
    Ok(())
}

} // verus!
