use guessing_game::game::evaluate_guess;
use guessing_game::game::greeting;
use guessing_game::game::guess_report;
use guessing_game::game::play_script;
use guessing_game::game::process_line;
use guessing_game::game::prompt;
use guessing_game::game::reply_message;
use guessing_game::game::Game;
use guessing_game::game::Outcome;
use guessing_game::game::Reply;
use guessing_game::game::Status;

#[test]
fn three_way_comparison() {
    assert_eq!(evaluate_guess(10, 42), Outcome::TooSmall);
    assert_eq!(evaluate_guess(90, 42), Outcome::TooBig);
    assert_eq!(evaluate_guess(42, 42), Outcome::Win);
}

#[test]
fn boundary_guesses_compare_normally() {
    assert_eq!(evaluate_guess(1, 1), Outcome::Win);
    assert_eq!(evaluate_guess(100, 100), Outcome::Win);
    assert_eq!(evaluate_guess(1, 100), Outcome::TooSmall);
    assert_eq!(evaluate_guess(100, 1), Outcome::TooBig);
    assert_eq!(process_line(100, "100").reply, Reply::Win);
    assert_eq!(process_line(1, " 1 ").reply, Reply::Win);
}

#[test]
fn feedback_wording() {
    assert_eq!(reply_message(Reply::TooSmall), "Too small!");
    assert_eq!(reply_message(Reply::TooBig), "Too big!");
    assert_eq!(reply_message(Reply::Win), "You win!");
    assert_eq!(reply_message(Reply::Invalid), "Please enter a valid number.");
    assert_eq!(greeting(), "Guess a number!");
    assert_eq!(prompt(), "Please input your guess:");
    assert_eq!(guess_report(42), "You guessed: 42");
    assert_eq!(guess_report(7), "You guessed: 7");
}

#[test]
fn invalid_line_keeps_playing() {
    let res = process_line(42, "abc");
    assert_eq!(res.guess, None);
    assert_eq!(res.reply, Reply::Invalid);

    let mut game = Game::new(42);
    let res = game.submit("abc");
    assert_eq!(res.reply, Reply::Invalid);
    assert_eq!(game.status, Status::Playing);
    assert_eq!(game.secret, 42);
}

#[test]
fn scripted_session_for_secret_42() {
    let lines: Vec<String> = vec![
        "10".to_string(),
        "90".to_string(),
        "abc".to_string(),
        "42".to_string(),
    ];
    let replies = play_script(42, &lines);
    assert_eq!(
        replies,
        vec![Reply::TooSmall, Reply::TooBig, Reply::Invalid, Reply::Win]
    );
    let messages: Vec<String> = replies.iter().map(|r| reply_message(*r)).collect();
    assert_eq!(
        messages,
        vec![
            "Too small!".to_string(),
            "Too big!".to_string(),
            "Please enter a valid number.".to_string(),
            "You win!".to_string(),
        ]
    );
}

#[test]
fn script_stops_at_first_win() {
    let lines: Vec<String> = vec![
        "42".to_string(),
        "10".to_string(),
        "90".to_string(),
    ];
    let replies = play_script(42, &lines);
    assert_eq!(replies, vec![Reply::Win]);
}

#[test]
fn every_secret_is_guessable() {
    let mut secret: u32 = 1;
    while secret <= 100 {
        let lines: Vec<String> = vec![format!("{secret}")];
        let replies = play_script(secret, &lines);
        assert_eq!(replies.len(), 1);
        assert_eq!(*replies.last().unwrap(), Reply::Win);
        assert_eq!(reply_message(*replies.last().unwrap()), "You win!");
        secret += 1;
    }
}

#[test]
fn repeated_wrong_guesses_repeat_feedback() {
    let lines: Vec<String> = vec!["7".to_string(), "7".to_string(), "7".to_string()];
    let replies = play_script(42, &lines);
    assert_eq!(replies, vec![Reply::TooSmall, Reply::TooSmall, Reply::TooSmall]);

    let mut game = Game::new(42);
    let first = game.submit(" 7 ");
    let second = game.submit(" 7 ");
    assert_eq!(first.reply, second.reply);
    assert_eq!(game.status, Status::Playing);
    assert_eq!(game.secret, 42);
}

#[test]
fn submissions_drive_the_game_to_won() {
    let mut game = Game::new(42);
    assert_eq!(game.submit("10").reply, Reply::TooSmall);
    assert_eq!(game.status, Status::Playing);
    assert_eq!(game.submit("90").reply, Reply::TooBig);
    assert_eq!(game.status, Status::Playing);
    let res = game.submit("42");
    assert_eq!(res.guess, Some(42));
    assert_eq!(res.reply, Reply::Win);
    assert_eq!(game.status, Status::Won);
}

#[test]
fn random_secret_stays_in_range() {
    let mut round: u32 = 0;
    while round < 200 {
        let game = Game::with_random_secret();
        assert!(1 <= game.secret && game.secret <= 100);
        assert_eq!(game.status, Status::Playing);
        round += 1;
    }
}
