use take_slicer::tui::{
    ascii_lower, check_choices, choose_answer, prompt, prompt_char, prompt_char_impl, PromptError,
    PromptEvent,
};

#[test]
fn ascii_lower_turns_capitals_only() {
    assert_eq!(ascii_lower('A'), 'a');
    assert_eq!(ascii_lower('Z'), 'z');
    assert_eq!(ascii_lower('q'), 'q');
    assert_eq!(ascii_lower('@'), '@');
    assert_eq!(ascii_lower('['), '[');
    assert_eq!(ascii_lower('É'), 'É');
    assert_eq!(ascii_lower('7'), '7');
}

#[test]
fn prompt_collects_characters_until_enter() {
    let mut line = String::new();
    assert!(!prompt(&mut line, PromptEvent::Char('0')));
    assert!(!prompt(&mut line, PromptEvent::OtherKey));
    assert!(!prompt(&mut line, PromptEvent::Char('1')));
    assert!(!prompt(&mut line, PromptEvent::Char('é')));
    assert_eq!(line, "01é");
    assert!(prompt(&mut line, PromptEvent::Enter));
    assert_eq!(line, "01é");
}

#[test]
fn prompt_ends_on_what_is_no_key() {
    let mut line = String::from("ab");
    assert!(prompt(&mut line, PromptEvent::NotAKey));
    assert_eq!(line, "ab");
}

#[test]
fn choices_allow_one_capital_at_most() {
    assert!(check_choices("yn"));
    assert!(check_choices("Yn"));
    assert!(check_choices("yN"));
    assert!(check_choices(""));
    assert!(check_choices("éyn"));
    assert!(check_choices("y/n".replace('/', "").as_str()));
    assert!(!check_choices("YN"));
    assert!(!check_choices("Y/n"));
    assert!(!check_choices("Éyn"));
    assert!(check_choices("y1"));
    assert!(!check_choices("y12"));
}

#[test]
fn an_empty_answer_stands_for_the_default() {
    assert_eq!(prompt_char_impl("", "Yn"), Ok('y'));
    assert_eq!(prompt_char_impl("", "yN"), Ok('n'));
    assert_eq!(prompt_char_impl("", "yn"), Err(PromptError::NoValidAnswer));
    assert_eq!(prompt_char_impl("", "y1"), Ok('1'));
}

#[test]
fn an_answer_is_taken_where_the_letters_allow_it() {
    assert_eq!(prompt_char_impl("y", "Yn"), Ok('y'));
    assert_eq!(prompt_char_impl("Y", "Yn"), Ok('y'));
    assert_eq!(prompt_char_impl("n", "Yn"), Ok('n'));
    assert_eq!(prompt_char_impl("N", "Yn"), Ok('n'));
    assert_eq!(prompt_char_impl("x", "Yn"), Err(PromptError::NoValidAnswer));
    assert_eq!(prompt_char_impl("y", ""), Err(PromptError::NoValidAnswer));
}

#[test]
fn an_answer_of_more_than_one_byte_is_too_long() {
    assert_eq!(prompt_char_impl("yes", "Yn"), Err(PromptError::AnswerTooLong));
    assert_eq!(prompt_char_impl("yn", "Yn"), Err(PromptError::AnswerTooLong));
    assert_eq!(prompt_char_impl("é", "yné"), Err(PromptError::AnswerTooLong));
}

#[test]
fn prompt_char_refuses_letters_that_cannot_stand() {
    assert_eq!(prompt_char("y", "YN"), None);
    assert_eq!(prompt_char("", "Éyn"), None);
    assert_eq!(prompt_char("y", "Yn"), Some(Ok('y')));
    assert_eq!(prompt_char("", "Yn"), Some(Ok('y')));
    assert_eq!(prompt_char("maybe", "yn"), Some(Err(PromptError::AnswerTooLong)));
    assert_eq!(prompt_char("q", "yn"), Some(Err(PromptError::NoValidAnswer)));
}

#[test]
fn choose_answer_goes_by_the_capitals_it_is_given() {
    assert_eq!(choose_answer("", "Yn", &vec!['Y']), Ok('y'));
    assert_eq!(choose_answer("", "Yn", &vec![]), Err(PromptError::NoValidAnswer));
    assert_eq!(choose_answer("", "yn", &vec!['N']), Ok('n'));
    assert_eq!(choose_answer("N", "Yn", &vec!['Y']), Ok('n'));
    assert_eq!(choose_answer("y", "Yn", &vec!['Y']), Ok('y'));
    assert_eq!(choose_answer("x", "Yn", &vec!['Y']), Err(PromptError::NoValidAnswer));
    assert_eq!(choose_answer("no", "Yn", &vec!['Y']), Err(PromptError::AnswerTooLong));
    assert_eq!(choose_answer("é", "yé", &vec![]), Err(PromptError::AnswerTooLong));
}
