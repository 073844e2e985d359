//! Matching a failed query against the error that a step expects.
use crate::text::{contains_text, occurs_at, text_contains};
use vstd::prelude::*;

verus! {

/// `tonic::Code`, the status code of a gRPC reply. To the verifier its values
/// are opaque: all that is used of them is whether two are the same.
#[verifier::external_type_specification]
#[verifier::external_body]
pub struct ExCode(tonic::Code);

/// Compares two status codes with `tonic::Code`'s own `==`.
///
/// `Code` is an enum without fields and its `==` is derived, so it holds of two
/// codes exactly when they are the same code. This is taken on trust.
#[verifier::external_body]
pub(crate) fn same_code(a: &tonic::Code, b: &tonic::Code) -> (same: bool)
    ensures
        same == (*a == *b),
{
    a == b
}

/// An error with `code` and `message` is the one expected: the code is exactly
/// the expected code, and the expected text stands somewhere in the message.
pub open spec fn is_expected_error(
    expected_code: tonic::Code,
    expected_message: Seq<char>,
    code: tonic::Code,
    message: Seq<char>,
) -> bool {
    code == expected_code && contains_text(message, expected_message)
}

/// Tells whether an error with `code` and `message` is the expected one.
pub fn error_matches(
    expected_code: &tonic::Code,
    expected_message: &str,
    code: &tonic::Code,
    message: &str,
) -> (matched: bool)
    ensures
        matched == is_expected_error(*expected_code, expected_message@, *code, message@),
{
    same_code(code, expected_code) && text_contains(message, expected_message)
}

/// With the right code, a message is accepted whatever text surrounds the
/// expected text in it.
pub proof fn lemma_surrounded_message_matches(
    code: tonic::Code,
    expected_message: Seq<char>,
    before: Seq<char>,
    after: Seq<char>,
)
    ensures
        is_expected_error(code, expected_message, code, before + expected_message + after),
{
    let message = before + expected_message + after;
    let at = before.len() as int;
    assert(message.subrange(at, at + expected_message.len()) =~= expected_message);
    assert(occurs_at(message, expected_message, at));
}

/// Even with the right code, a message that does not hold the expected text is
/// refused; and no message makes up for another code.
pub proof fn lemma_wrong_error_refused(
    expected_code: tonic::Code,
    expected_message: Seq<char>,
    code: tonic::Code,
    message: Seq<char>,
)
    requires
        code != expected_code || !contains_text(message, expected_message),
    ensures
        !is_expected_error(expected_code, expected_message, code, message),
{
}

} // verus!
