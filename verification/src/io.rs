//! What is made of the lines that the user types at a prompt.

use crate::error::VaultError;
use vstd::prelude::*;

verus! {

/// Whether a character is whitespace: what `char::is_whitespace` returns.
pub uninterp spec fn is_whitespace(c: char) -> bool;

/// `s` without its leading whitespace.
pub open spec fn trimmed_start(s: Seq<char>) -> Seq<char>
    decreases s.len(),
{
    if s.len() > 0 && is_whitespace(s.first()) {
        trimmed_start(s.drop_first())
    } else {
        s
    }
}

/// `s` without its trailing whitespace.
pub open spec fn trimmed_end(s: Seq<char>) -> Seq<char>
    decreases s.len(),
{
    if s.len() > 0 && is_whitespace(s.last()) {
        trimmed_end(s.drop_last())
    } else {
        s
    }
}

/// `s` without its leading and trailing whitespace.
pub open spec fn trimmed(s: Seq<char>) -> Seq<char> {
    trimmed_end(trimmed_start(s))
}

/// Calls `str::trim`.
///
/// Claimed: the result is the line without its leading and trailing
/// whitespace, whitespace being what `char::is_whitespace` accepts; so it
/// neither begins nor ends with whitespace.
#[verifier::external_body]
fn trim(line: &str) -> (inner: &str)
    ensures
        inner@ == trimmed(line@),
        inner@.len() > 0 ==> !is_whitespace(inner@.first()) && !is_whitespace(inner@.last()),
{
    line.trim()
}

/// What is made of an answer once the whitespace around it is gone.
pub open spec fn accepted_answer(answer: Seq<char>) -> Result<Seq<char>, VaultError> {
    if answer.len() == 0 {
        Err(VaultError::EmptyInput)
    } else {
        Ok(answer)
    }
}

/// Refuses an answer that holds nothing.
pub fn accept_answer(answer: &str) -> (outcome: Result<String, VaultError>)
    ensures
        match outcome {
            Ok(accepted) => accepted_answer(answer@) == Ok::<Seq<char>, VaultError>(accepted@),
            Err(error) => accepted_answer(answer@) == Err::<Seq<char>, VaultError>(error),
        },
{
    if answer.is_empty() {
        return Err(VaultError::EmptyInput);
    }
    Ok(answer.to_owned())
}

/// What `prompt_input` makes of a line.
pub open spec fn prompted_input(line: Seq<char>) -> Result<Seq<char>, VaultError> {
    accepted_answer(trimmed(line))
}

/// The answer that a line of input holds: the line without the whitespace
/// around it. A line that holds nothing else is refused.
pub fn prompt_input(line: &str) -> (outcome: Result<String, VaultError>)
    ensures
        match outcome {
            Ok(answer) => prompted_input(line@) == Ok::<Seq<char>, VaultError>(answer@),
            Err(error) => prompted_input(line@) == Err::<Seq<char>, VaultError>(error),
        },
{
    accept_answer(trim(line))
}

/// What is made of the answer to a prompt and of the answer to its
/// repetition. Without `verify` the repetition is not looked at.
pub open spec fn accepted_password(
    password: Result<Seq<char>, VaultError>,
    repeated: Result<Seq<char>, VaultError>,
    verify: bool,
) -> Result<Seq<char>, VaultError> {
    if password.is_err() || (verify && repeated.is_err()) {
        Err(VaultError::EmptyInput)
    } else if verify && password.unwrap() != repeated.unwrap() {
        Err(VaultError::PasswordMismatch)
    } else {
        Ok(password.unwrap())
    }
}

/// The text of an answer, or the reason for which there is none.
pub open spec fn answer_text(answer: Result<String, VaultError>) -> Result<Seq<char>, VaultError> {
    match answer {
        Ok(text) => Ok(text@),
        Err(error) => Err(error),
    }
}

/// Decides on a password from the answer to a prompt and the answer to
/// its repetition. A missing answer is refused as empty input, whatever was
/// wrong with it; with `verify`, two answers that differ are a mismatch.
pub fn accept_password(
    password: Result<String, VaultError>,
    repeated: Result<String, VaultError>,
    verify: bool,
) -> (outcome: Result<String, VaultError>)
    ensures
        answer_text(outcome) == accepted_password(
            answer_text(password),
            answer_text(repeated),
            verify,
        ),
{
    match (password, repeated) {
        (Ok(final_password), Ok(repeated_password)) => {
            if verify && final_password != repeated_password {
                return Err(VaultError::PasswordMismatch);
            }
            Ok(final_password)
        },
        (Ok(final_password), Err(_)) => {
            if verify {
                return Err(VaultError::EmptyInput);
            }
            Ok(final_password)
        },
        _ => Err(VaultError::EmptyInput),
    }
}

/// What `prompt_password` makes of the line typed at the prompt and of the
/// line typed at its repetition.
pub open spec fn prompted_password(line: Seq<char>, line_again: Seq<char>, verify: bool) -> Result<
    Seq<char>,
    VaultError,
> {
    accepted_password(prompted_input(line), prompted_input(line_again), verify)
}

/// The password that the user typed. With `verify` the user was asked
/// twice, and both answers must be there and be the same; without it
/// `line_again` is not looked at.
pub fn prompt_password(line: &str, line_again: &str, verify: bool) -> (outcome: Result<
    String,
    VaultError,
>)
    ensures
        answer_text(outcome) == prompted_password(line@, line_again@, verify),
{
    let password = prompt_input(line);
    let mut password_verify: Result<String, VaultError> = Ok(String::new());
    if verify {
        password_verify = prompt_input(line_again);
    }
    accept_password(password, password_verify, verify)
}

/// A line is refused as empty exactly when it holds nothing but whitespace.
pub proof fn lemma_empty_input_is_all_whitespace(line: Seq<char>)
    ensures
        prompted_input(line).is_err() <==> forall|i: int|
            0 <= i < line.len() ==> is_whitespace(#[trigger] line[i]),
{
    lemma_trimmed_start(line);
    lemma_trimmed_end(trimmed_start(line));
}

/// `trimmed_start` drops a prefix of whitespace and stops at what is none.
proof fn lemma_trimmed_start(s: Seq<char>)
    ensures
        trimmed_start(s).len() <= s.len(),
        trimmed_start(s) == s.subrange(s.len() - trimmed_start(s).len(), s.len() as int),
        forall|i: int|
            0 <= i < s.len() - trimmed_start(s).len() ==> is_whitespace(#[trigger] s[i]),
        trimmed_start(s).len() > 0 ==> !is_whitespace(trimmed_start(s).first()),
    decreases s.len(),
{
    if s.len() > 0 && is_whitespace(s.first()) {
        let rest = s.drop_first();
        lemma_trimmed_start(rest);
        let kept = trimmed_start(rest);
        assert(kept =~= s.subrange(s.len() - kept.len(), s.len() as int));
        assert forall|i: int| 0 <= i < s.len() - kept.len() implies is_whitespace(
            #[trigger] s[i],
        ) by {
            if i > 0 {
                assert(s[i] == rest[i - 1]);
            }
        }
    } else {
        assert(s =~= s.subrange(0, s.len() as int));
    }
}

/// `trimmed_end` drops a suffix of whitespace and stops at what is none.
proof fn lemma_trimmed_end(s: Seq<char>)
    ensures
        trimmed_end(s).len() <= s.len(),
        trimmed_end(s) == s.subrange(0, trimmed_end(s).len() as int),
        forall|i: int| trimmed_end(s).len() <= i < s.len() ==> is_whitespace(#[trigger] s[i]),
        trimmed_end(s).len() > 0 ==> !is_whitespace(trimmed_end(s).last()),
    decreases s.len(),
{
    if s.len() > 0 && is_whitespace(s.last()) {
        let rest = s.drop_last();
        lemma_trimmed_end(rest);
        let kept = trimmed_end(rest);
        assert(kept =~= s.subrange(0, kept.len() as int));
        assert forall|i: int| kept.len() <= i < s.len() implies is_whitespace(#[trigger] s[i]) by {
            if i < rest.len() {
                assert(s[i] == rest[i]);
            }
        }
    } else {
        assert(s =~= s.subrange(0, s.len() as int));
    }
}

} // verus!
