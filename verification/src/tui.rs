//! What the operator types: a line made of key presses, and a one-letter
//! answer checked against the letters that a question allows.

use crate::text::chars_of;
use vstd::prelude::*;
use vstd::string::*;

verus! {

/// Whether `c` is a lowercase letter as the Unicode tables have it: what
/// `char::is_lowercase` returns for `c`.
pub uninterp spec fn char_is_lowercase(c: char) -> bool;

/// `char::is_lowercase` of the standard library: its result is a function of
/// the character alone, which is given the name `char_is_lowercase`.
#[verifier::external_body]
fn is_lowercase(c: char) -> (lower: bool)
    ensures
        lower == char_is_lowercase(c),
{
    c.is_lowercase()
}

/// `String::push` of the standard library: the character is appended to the
/// end of the string.
#[verifier::external_body]
fn push_char(line: &mut String, c: char)
    ensures
        final(line)@ == old(line)@.push(c),
{
    line.push(c)
}

/// `c` with an ASCII capital letter turned into its small letter.
pub open spec fn ascii_lower_spec(c: char) -> char {
    if 'A' <= c && c <= 'Z' {
        ((c as u32) + 32) as char
    } else {
        c
    }
}

/// `c` with an ASCII capital letter turned into its small letter.
pub fn ascii_lower(c: char) -> (lower: char)
    ensures
        lower == ascii_lower_spec(c),
{
    if c >= 'A' && c <= 'Z' {
        ((c as u8) + 32) as char
    } else {
        c
    }
}

/// A key that the operator pressed, or what else the terminal reported.
#[derive(Debug, Clone, Copy, PartialEq, Eq, Structural)]
pub enum PromptEvent {
    /// The enter key.
    Enter,
    /// A key that stands for a character.
    Char(char),
    /// Any other key.
    OtherKey,
    /// Something that is no key press.
    NotAKey,
}

/// Takes one event into the line that the operator types, and says whether
/// the line is complete: a character is appended, the enter key and what is
/// no key press end the line, any other key is passed over.
pub fn prompt(line: &mut String, event: PromptEvent) -> (done: bool)
    ensures
        match event {
            PromptEvent::Char(c) => !done && final(line)@ == old(line)@.push(c),
            PromptEvent::OtherKey => !done && final(line)@ == old(line)@,
            _ => done && final(line)@ == old(line)@,
        },
{
    match event {
        PromptEvent::Enter => true,
        PromptEvent::Char(c) => {
            push_char(line, c);
            false
        },
        PromptEvent::OtherKey => false,
        PromptEvent::NotAKey => true,
    }
}

/// Why an answer was not taken.
#[derive(Debug, Clone, Copy, PartialEq, Eq, Structural)]
pub enum PromptError {
    /// The answer is none of the letters that the question allows, or it is
    /// empty and the question has no default.
    NoValidAnswer,
    /// The answer is more than one letter, or a letter outside ASCII.
    AnswerTooLong,
}

/// The characters of `chars` that are no lowercase letters, in order.
pub open spec fn uppers_of(chars: Seq<char>) -> Seq<char>
    decreases chars.len(),
{
    if chars.len() == 0 {
        Seq::empty()
    } else if char_is_lowercase(chars.last()) {
        uppers_of(chars.drop_last())
    } else {
        uppers_of(chars.drop_last()).push(chars.last())
    }
}

/// Whether `c` is an ASCII character, which UTF-8 writes in one byte.
pub open spec fn is_one_byte(c: char) -> bool {
    (c as u32) < 128
}

/// Whether `chars` can stand as the letters of a question: at most one of
/// them is no lowercase letter, and that one is an ASCII character.
pub open spec fn choices_ok(chars: Seq<char>) -> bool {
    uppers_of(chars).len() == 0 || (uppers_of(chars).len() == 1 && is_one_byte(
        uppers_of(chars)[0],
    ))
}

/// Whether the answer `c` is among the letters `chars`, capitals counted as
/// their small letters.
pub open spec fn allows(chars: Seq<char>, c: char) -> bool {
    exists|i: int| 0 <= i < chars.len() && ascii_lower_spec(#[trigger] chars[i]) == c
}

/// What the answer `input` to a question with the letters `chars` comes to,
/// where `uppers` are the letters that are no lowercase letters. Capitals in
/// the answer count as their small letters. An empty answer stands for the
/// default, which is the one letter of `uppers` as a small letter; an answer
/// of one ASCII character is taken where the letters allow it.
pub open spec fn answer_spec(input: Seq<char>, chars: Seq<char>, uppers: Seq<char>) -> Result<
    char,
    PromptError,
> {
    if input.len() == 0 {
        if uppers.len() == 1 {
            Ok(ascii_lower_spec(uppers[0]))
        } else {
            Err(PromptError::NoValidAnswer)
        }
    } else if input.len() > 1 || !is_one_byte(input[0]) {
        Err(PromptError::AnswerTooLong)
    } else if allows(chars, ascii_lower_spec(input[0])) {
        Ok(ascii_lower_spec(input[0]))
    } else {
        Err(PromptError::NoValidAnswer)
    }
}

/// What the answer `input` to a question with the letters `chars` comes to:
/// `answer_spec` with the letters of `chars` that are no lowercase letters.
pub open spec fn prompt_char_spec(input: Seq<char>, chars: Seq<char>) -> Result<char, PromptError> {
    answer_spec(input, chars, uppers_of(chars))
}

/// The characters of `chars` that are no lowercase letters, in order.
fn collect_uppers(chars: &Vec<char>) -> (uppers: Vec<char>)
    ensures
        uppers@ == uppers_of(chars@),
{
    let mut uppers: Vec<char> = Vec::new();
    let mut i: usize = 0;
    assert(chars@.subrange(0, 0) =~= Seq::<char>::empty());
    while i < chars.len()
        invariant
            i <= chars.len(),
            uppers@ == uppers_of(chars@.subrange(0, i as int)),
        decreases chars.len() - i,
    {
        assert(chars@.subrange(0, i + 1).drop_last() =~= chars@.subrange(0, i as int));
        if !is_lowercase(chars[i]) {
            uppers.push(chars[i]);
        }
        i = i + 1;
    }
    assert(chars@.subrange(0, i as int) =~= chars@);
    uppers
}

/// Whether `chars` can stand as the letters of a question.
pub fn check_choices(chars: &str) -> (ok: bool)
    ensures
        ok == choices_ok(chars@),
{
    let letters = chars_of(chars);
    let uppers = collect_uppers(&letters);
    uppers.len() == 0 || (uppers.len() == 1 && (uppers[0] as u32) < 128)
}

/// What the answer `input` to a question with the letters `chars` comes to,
/// where `uppers` are the letters that are no lowercase letters.
pub fn choose_answer(input: &str, chars: &str, uppers: &Vec<char>) -> (result: Result<
    char,
    PromptError,
>)
    requires
        uppers@.len() <= 1,
        uppers@.len() == 1 ==> is_one_byte(uppers@[0]),
    ensures
        result == answer_spec(input@, chars@, uppers@),
{
    let letters = chars_of(chars);
    let answer = chars_of(input);
    if answer.len() == 0 {
        return if uppers.len() == 1 {
            Ok(ascii_lower(uppers[0]))
        } else {
            Err(PromptError::NoValidAnswer)
        };
    }
    if answer.len() > 1 || (answer[0] as u32) >= 128 {
        return Err(PromptError::AnswerTooLong);
    }
    let answer_char = ascii_lower(answer[0]);
    let mut i: usize = 0;
    while i < letters.len()
        invariant
            i <= letters.len(),
            letters@ == chars@,
            input@.len() == 1,
            is_one_byte(input@[0]),
            answer_char == ascii_lower_spec(input@[0]),
            forall|k: int| 0 <= k < i ==> ascii_lower_spec(#[trigger] letters[k]) != answer_char,
        decreases letters.len() - i,
    {
        if ascii_lower(letters[i]) == answer_char {
            assert(ascii_lower_spec(chars@[i as int]) == answer_char);
            return Ok(answer_char);
        }
        i = i + 1;
    }
    Err(PromptError::NoValidAnswer)
}

/// What the answer `input` to a question with the letters `chars` comes to.
pub fn prompt_char_impl(input: &str, chars: &str) -> (result: Result<char, PromptError>)
    requires
        choices_ok(chars@),
    ensures
        result == prompt_char_spec(input@, chars@),
{
    let letters = chars_of(chars);
    let uppers = collect_uppers(&letters);
    choose_answer(input, chars, &uppers)
}

/// What the answer `input` to a question with the letters `chars` comes to,
/// or `None` where `chars` cannot stand as the letters of a question.
pub fn prompt_char(input: &str, chars: &str) -> (result: Option<Result<char, PromptError>>)
    ensures
        result == if choices_ok(chars@) {
            Some(prompt_char_spec(input@, chars@))
        } else {
            None
        },
{
    if check_choices(chars) {
        Some(prompt_char_impl(input, chars))
    } else {
        None
    }
}

} // verus!
