use wordler::Command;
use wordler::ErrorKind;
use wordler::Game;
use wordler::Guess;
use wordler::GuessChar;
use wordler::Reply;
use wordler::State;
use wordler::compare;
use wordler::error::Error;
use wordler::text::chars_of;
use wordler::text::str_eq;
use wordler::words::split_lines;

#[test]
fn test_wordle() {
    let mut wordle = Game::from(String::from("fudge"));

    assert_eq!(
        wordle.guess(String::from("reads")).unwrap(),
        Guess {
            inner: vec![
                GuessChar::Absent,
                GuessChar::OutOfPlace,
                GuessChar::Absent,
                GuessChar::OutOfPlace,
                GuessChar::Absent,
            ]
        }
    );
    assert_eq!(
        wordle.guess(String::from("lodge")).unwrap(),
        Guess {
            inner: vec![
                GuessChar::Absent,
                GuessChar::Absent,
                GuessChar::Correct,
                GuessChar::Correct,
                GuessChar::Correct,
            ]
        }
    );
}

#[test]
fn test_doubles() {
    let mut wordle = Game::from(String::from("sassy"));

    assert_eq!(
        wordle.guess(String::from("space")).unwrap(),
        Guess {
            inner: vec![
                GuessChar::Correct,
                GuessChar::Absent,
                GuessChar::OutOfPlace,
                GuessChar::Absent,
                GuessChar::Absent,
            ]
        }
    );
}

#[test]
fn test_out_of_bounds() {
    let mut wordle = Game::from(String::from("fudge"));

    assert!(wordle.guess(String::from("lodging")).is_err());
    assert!(wordle.guess(String::from("lol")).is_err());
}

#[test]
fn self_compare_is_winning() {
    let secret = chars_of("fudge");
    let result = compare(&secret, &secret);
    assert_eq!(result.inner, vec![GuessChar::Correct; 5]);
    assert!(result.correct());
}

#[test]
fn winning_result_is_unique_to_the_secret() {
    let secret = chars_of("fudge");
    let near = chars_of("fudgy");
    assert!(!compare(&secret, &near).correct());
}

#[test]
fn correct_iff_positional_match() {
    let secret = chars_of("fudge");
    let guess = chars_of("fount");
    let result = compare(&secret, &guess);
    assert_eq!(result.inner[0], GuessChar::Correct);
    assert_eq!(result.inner[1], GuessChar::Absent);
    assert_eq!(result.inner[2], GuessChar::OutOfPlace);
    assert_eq!(result.inner[3], GuessChar::Absent);
    assert_eq!(result.inner[4], GuessChar::Absent);
}

#[test]
fn repeated_letter_is_classified_independently() {
    // The secret holds a single 'd', matched in place by the guess's
    // middle 'd'; the two other 'd's are still marked out-of-place.
    let secret = chars_of("fudge");
    let guess = chars_of("daddy");
    let result = compare(&secret, &guess);
    assert_eq!(result.inner[0], GuessChar::OutOfPlace);
    assert_eq!(result.inner[2], GuessChar::Correct);
    assert_eq!(result.inner[3], GuessChar::OutOfPlace);
}

#[test]
fn positions_beyond_secret_are_out_of_bounds() {
    let secret = chars_of("fudge");
    let guess = chars_of("lodging");
    let result = compare(&secret, &guess);
    assert_eq!(result.inner.len(), 7);
    assert_eq!(result.inner[5], GuessChar::OutOfBounds);
    assert_eq!(result.inner[6], GuessChar::OutOfBounds);
    assert_eq!(result.render(), "⬛⬛🟩🟩⬛❌❌");
}

#[test]
fn short_guess_is_truncated_comparison() {
    let secret = chars_of("fudge");
    let guess = chars_of("fun");
    let result = compare(&secret, &guess);
    assert_eq!(
        result.inner,
        vec![GuessChar::Correct, GuessChar::Correct, GuessChar::Absent]
    );
}

#[test]
fn empty_guess_compares_to_nothing() {
    let secret = chars_of("fudge");
    let guess: Vec<char> = Vec::new();
    assert_eq!(compare(&secret, &guess).inner.len(), 0);
    assert_eq!(compare(&secret, &guess).render(), "");
}

#[test]
fn render_scenario_one() {
    let mut wordle = Game::from(String::from("fudge"));
    assert_eq!(
        wordle.guess(String::from("reads")).unwrap().render(),
        "⬛🟨⬛🟨⬛"
    );
}

#[test]
fn render_scenario_two() {
    let mut wordle = Game::from(String::from("fudge"));
    assert_eq!(
        wordle.guess(String::from("lodge")).unwrap().render(),
        "⬛⬛🟩🟩🟩"
    );
}

#[test]
fn render_scenario_three() {
    let mut wordle = Game::from(String::from("sassy"));
    assert_eq!(
        wordle.guess(String::from("space")).unwrap().render(),
        "🟩⬛🟨⬛⬛"
    );
}

#[test]
fn strict_length_errors() {
    let mut wordle = Game::from(String::from("fudge"));
    let short = wordle.guess(String::from("lol")).unwrap_err();
    assert_eq!(short.kind, ErrorKind::GuessTooShort);
    let long = wordle.guess(String::from("lodging")).unwrap_err();
    assert_eq!(long.kind, ErrorKind::GuessTooLong);
    // Rejected guesses of the wrong length mark no letters.
    let unused = wordle.letters();
    assert_eq!(unused.len(), 26);
}

#[test]
fn error_retryability() {
    assert!(Error::from(ErrorKind::GuessTooShort).retryable());
    assert!(Error::from(ErrorKind::GuessTooLong).retryable());
    assert!(Error::from(ErrorKind::InvalidCommand).retryable());
    assert!(!Error::from(ErrorKind::IoError(String::from("broken pipe"))).retryable());
}

#[test]
fn error_messages() {
    assert_eq!(
        Error::from(ErrorKind::GuessTooShort).message(),
        "guess too short, guesses must be 5 letters."
    );
    assert_eq!(
        Error::from(ErrorKind::GuessTooLong).message(),
        "guess too long, guesses must be 5 letters."
    );
    assert_eq!(
        Error::from(ErrorKind::InvalidCommand).message(),
        "unknown command. use /help to list all available commands"
    );
    assert_eq!(
        Error::from(ErrorKind::IoError(String::from("broken pipe"))).message(),
        "io error: broken pipe"
    );
}

#[test]
fn letters_start_complete_and_sorted() {
    let wordle = Game::from(String::from("fudge"));
    let unused = wordle.letters();
    let alphabet: Vec<char> = ('a'..='z').collect();
    assert_eq!(unused, alphabet);
}

#[test]
fn letters_exclude_guessed() {
    let mut wordle = Game::from(String::from("fudge"));
    wordle.guess(String::from("reads")).unwrap();
    let unused = wordle.letters();
    for c in ['r', 'e', 'a', 'd', 's'] {
        assert!(!unused.contains(&c));
    }
    for c in ['b', 'c', 'f', 'z'] {
        assert!(unused.contains(&c));
    }
    for pair in unused.windows(2) {
        assert!(pair[0] < pair[1]);
    }
}

#[test]
fn letters_exclude_rejected_but_length_valid_guess() {
    // A five-character guess passes length validation even when the
    // comparison later fails against a short secret; its letters count
    // as tried.
    let mut wordle = Game::from(String::from("hi"));
    assert!(wordle.guess(String::from("abcde")).is_err());
    let unused = wordle.letters();
    for c in ['a', 'b', 'c', 'd', 'e'] {
        assert!(!unused.contains(&c));
    }
    assert!(unused.contains(&'f'));
}

#[test]
fn command_parsing() {
    assert_eq!(Command::from_str("/help").unwrap(), Command::Help);
    assert_eq!(Command::from_str("/letters").unwrap(), Command::Letters);
    assert_eq!(Command::from_str("/exit").unwrap(), Command::Exit);
    assert_eq!(
        Command::from_str("/bogus").unwrap_err().kind,
        ErrorKind::InvalidCommand
    );
    assert_eq!(
        Command::from_str("crane").unwrap(),
        Command::Guess(String::from("crane"))
    );
    assert_eq!(
        Command::from_str("").unwrap(),
        Command::Guess(String::from(""))
    );
}

#[test]
fn winning_guess_ends_the_session() {
    let mut wordle = Game::from(String::from("fudge"));
    assert_eq!(wordle.state, State::Playing);
    let reply = wordle.eval(Command::Guess(String::from("fudge")));
    match reply {
        Reply::Winning(g) => assert!(g.correct()),
        other => panic!("expected a winning reply, got {:?}", other),
    }
    assert_eq!(wordle.state, State::Won);
}

#[test]
fn losing_guess_keeps_playing() {
    let mut wordle = Game::from(String::from("fudge"));
    let reply = wordle.eval(Command::Guess(String::from("reads")));
    assert!(matches!(reply, Reply::Report(_)));
    assert_eq!(wordle.state, State::Playing);
}

#[test]
fn exit_terminates_the_session() {
    let mut wordle = Game::from(String::from("fudge"));
    let reply = wordle.eval(Command::Exit);
    assert_eq!(reply, Reply::Exit);
    assert_eq!(wordle.state, State::Terminated);
}

#[test]
fn help_and_letters_change_no_state() {
    let mut wordle = Game::from(String::from("fudge"));
    assert_eq!(wordle.eval(Command::Help), Reply::Help);
    assert_eq!(wordle.state, State::Playing);
    let reply = wordle.eval(Command::Letters);
    assert!(matches!(reply, Reply::Letters(_)));
    assert_eq!(wordle.state, State::Playing);
}

#[test]
fn invalid_command_is_rejected_in_eval_path() {
    let err = Command::from_str("/restart").unwrap_err();
    assert!(err.retryable());
}

#[test]
fn help_text_lists_the_commands() {
    let wordle = Game::from(String::from("fudge"));
    let text = wordle.help();
    assert!(text.contains("/help"));
    assert!(text.contains("/letters"));
    assert!(text.contains("/exit"));
}

#[test]
fn selected_word_comes_from_the_dictionary() {
    let words = ["apple", "grape", "mango"];
    let wordle = Game::from(String::from("apple\ngrape\nmango"));
    let picked: String = wordle.word.iter().collect();
    assert!(words.contains(&picked.as_str()));
}

#[test]
fn empty_dictionary_falls_back() {
    let wordle = Game::from(String::from(""));
    let picked: String = wordle.word.iter().collect();
    assert_eq!(picked, "fudge");
}

#[test]
fn split_lines_matches_line_semantics() {
    let text = chars_of("a\nbc\r\n\nd");
    let lines = split_lines(&text);
    assert_eq!(
        lines,
        vec![chars_of("a"), chars_of("bc"), chars_of(""), chars_of("d")]
    );
    assert_eq!(split_lines(&chars_of("")), Vec::<Vec<char>>::new());
    assert_eq!(split_lines(&chars_of("x\n")), vec![chars_of("x")]);
}

#[test]
fn string_helpers_round_trip() {
    assert_eq!(chars_of("crane"), vec!['c', 'r', 'a', 'n', 'e']);
    assert!(str_eq("crane", "crane"));
    assert!(!str_eq("crane", "crate"));
    assert!(!str_eq("crane", "cranes"));
}
