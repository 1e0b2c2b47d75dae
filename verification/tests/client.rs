use game_net::client::{
    check_guesses, credential_ok, finalize_score, game_data_reply, has_room, login_reply,
    online_players_reply, pad_name, parse_guesses, parse_referral, player_badge, score_guesses,
    Badge, GuessError, GuessKind,
};
use game_net::server::{PlayerDb, ScoreOutcome};
use game_net::structures::{MatchScore, PacketTypes, Player, StatusAnswerPlayer};
use game_net::text::{chars_of, parse_i64, parse_u32, split_chars, trim_chars, u32_to_decimal};

fn chars(s: &str) -> Vec<char> {
    s.chars().collect()
}

fn player(name: &str, token: &str, password: &str, score: i64, is_admin: bool, referral: i64) -> Player {
    Player {
        name: name.to_string(),
        auth_token: token.to_string(),
        password: password.to_string(),
        score,
        is_admin,
        referral,
    }
}

fn zero_score() -> MatchScore {
    MatchScore { hits: 0, specials: 0, misses: 0, score: 0 }
}

#[test]
fn guesses_five_numbers_in_range() {
    assert_eq!(parse_guesses("1 2 3 4 5", 1, 10), Ok(vec![1, 2, 3, 4, 5]));
    assert_eq!(parse_guesses("  9 1 1 1 9 \n", 1, 10), Ok(vec![9, 1, 1, 1, 9]));
    assert_eq!(parse_guesses("+3 2 3 4 5", 1, 10), Ok(vec![3, 2, 3, 4, 5]));
}

#[test]
fn guesses_wrong_count() {
    assert_eq!(parse_guesses("1 2 3 4", 1, 10), Err(GuessError::WrongCount));
    assert_eq!(parse_guesses("1 2 3 4 5 6", 1, 10), Err(GuessError::WrongCount));
    assert_eq!(parse_guesses("1  2 3 4 5", 1, 10), Err(GuessError::WrongCount));
    assert_eq!(parse_guesses("", 1, 10), Err(GuessError::WrongCount));
}

#[test]
fn guesses_not_a_number() {
    assert_eq!(parse_guesses("1 2 x 4 5", 1, 10), Err(GuessError::NotANumber));
    assert_eq!(parse_guesses("1 2 -3 4 5", 1, 10), Err(GuessError::NotANumber));
    assert_eq!(parse_guesses("1 x 3 4 99", 1, 10), Err(GuessError::NotANumber));
}

#[test]
fn guesses_out_of_range() {
    assert_eq!(parse_guesses("1 2 3 4 10", 1, 10), Err(GuessError::OutOfRange));
    assert_eq!(parse_guesses("0 2 3 4 5", 1, 10), Err(GuessError::OutOfRange));
    assert_eq!(parse_guesses("1 99 x 4 5", 1, 10), Err(GuessError::OutOfRange));
}

#[test]
fn score_each_kind_of_guess() {
    let guesses = vec![5, 2, 3, 7, 1];
    let rolls = vec![5, 4, 9, 8, 1];
    let mut m = zero_score();
    let kinds = score_guesses(&guesses, &rolls, &mut m);
    assert_eq!(
        kinds,
        vec![GuessKind::Hit, GuessKind::Special, GuessKind::Special, GuessKind::Miss, GuessKind::Hit]
    );
    assert_eq!((m.hits, m.specials, m.misses, m.score), (2, 2, 1, 261));
}

#[test]
fn score_one_never_special() {
    let mut m = MatchScore { hits: 1, specials: 0, misses: 0, score: 111 };
    let kinds = score_guesses(&vec![1, 1], &vec![4, 7], &mut m);
    assert_eq!(kinds, vec![GuessKind::Miss, GuessKind::Miss]);
    assert_eq!((m.hits, m.specials, m.misses, m.score), (1, 0, 2, 65));
}

#[test]
fn check_guesses_draws_in_range_and_scores_them() {
    let guesses = vec![1, 2, 3, 4, 5];
    let mut m = zero_score();
    let (rolls, kinds) = check_guesses(&guesses, 1, 10, &mut m);
    assert_eq!(rolls.len(), 5);
    assert!(rolls.iter().all(|r| 1 <= *r && *r < 10));
    let mut again = zero_score();
    let expected = score_guesses(&guesses, &rolls, &mut again);
    assert_eq!(kinds, expected);
    assert_eq!((m.hits, m.specials, m.misses, m.score), (again.hits, again.specials, again.misses, again.score));
    assert_eq!(m.hits + m.specials + m.misses, 5);
}

#[test]
fn check_guesses_single_number_range_always_hits() {
    let mut m = zero_score();
    let (rolls, kinds) = check_guesses(&vec![4, 4, 4], 4, 5, &mut m);
    assert_eq!(rolls, vec![4, 4, 4]);
    assert_eq!(kinds, vec![GuessKind::Hit; 3]);
    assert_eq!(m.score, 333);
}

#[test]
fn finalize_makes_score_even() {
    let mut m = MatchScore { hits: 2, specials: 2, misses: 1, score: 261 };
    finalize_score(&mut m);
    assert_eq!(m.score, 262);
    let mut m = MatchScore { hits: 0, specials: 0, misses: 1, score: -23 };
    finalize_score(&mut m);
    assert_eq!(m.score, -22);
    let mut m = MatchScore { hits: 0, specials: 0, misses: 0, score: 260 };
    finalize_score(&mut m);
    assert_eq!(m.score, 260);
}

#[test]
fn honest_score_is_recorded_by_server() {
    let mut db = PlayerDb::new();
    db.insert(player("Kiddo", "12", "Kiddo9000", -1051, false, 0));
    let mut m = zero_score();
    score_guesses(&vec![5, 2, 3, 7, 1], &vec![5, 4, 9, 8, 1], &mut m);
    finalize_score(&mut m);
    let me = player("Kiddo", "12", "", 0, false, 0);
    assert_eq!(db.record_score(&me, &m), ScoreOutcome::NewHighscore);
    assert_eq!(db.get(0).score, 262);
}

#[test]
fn record_score_outcomes() {
    let mut db = PlayerDb::new();
    db.insert(player("Mr.T", "77", "IPityTheFools", 936, false, 0));
    let good = MatchScore { hits: 10, specials: 0, misses: 0, score: 1110 };
    let fake = MatchScore { hits: 10, specials: 0, misses: 0, score: 1111 };
    let too_many_hits = MatchScore { hits: 51, specials: 0, misses: 0, score: 5662 };
    let low = MatchScore { hits: 0, specials: 1, misses: 0, score: 32 };
    assert_eq!(db.record_score(&player("Nobody", "77", "", 0, false, 0), &good), ScoreOutcome::UnknownPlayer);
    assert_eq!(db.record_score(&player("Mr.T", "77", "", 0, false, 0), &fake), ScoreOutcome::Fake);
    assert_eq!(db.record_score(&player("Mr.T", "77", "", 0, false, 0), &too_many_hits), ScoreOutcome::Fake);
    assert_eq!(db.record_score(&player("Mr.T", "78", "", 0, false, 0), &good), ScoreOutcome::WrongToken);
    assert_eq!(db.record_score(&player("Mr.T", "77", "", 0, false, 0), &low), ScoreOutcome::NotHigher);
    assert_eq!(db.get(0).score, 936);
    assert_eq!(db.record_score(&player("Mr.T", "77", "", 0, false, 0), &good), ScoreOutcome::NewHighscore);
    assert_eq!(db.get(0).score, 1110);
    assert_eq!(db.record_score(&player("Mr.T", "77", "", 0, false, 0), &good), ScoreOutcome::NotHigher);
}

#[test]
fn credential_lengths_in_bytes() {
    assert!(!credential_ok(&"ab".to_string()));
    assert!(credential_ok(&"abc".to_string()));
    assert!(credential_ok(&"0123456789abcdef".to_string()));
    assert!(!credential_ok(&"0123456789abcdefg".to_string()));
    assert!(credential_ok(&"éa".to_string()));
    assert!(!credential_ok(&"ééééééééé".to_string()));
}

#[test]
fn referral_codes() {
    assert_eq!(parse_referral("  42\n"), 42);
    assert_eq!(parse_referral("-5"), -5);
    assert_eq!(parse_referral("abc"), 0);
    assert_eq!(parse_referral(""), 0);
    assert_eq!(parse_referral("9223372036854775808"), 0);
    assert_eq!(parse_referral("-9223372036854775808"), i64::MIN);
}

#[test]
fn numbers_as_std_parses_them() {
    assert_eq!(parse_u32(&chars("4294967295")), Some(u32::MAX));
    assert_eq!(parse_u32(&chars("4294967296")), None);
    assert_eq!(parse_u32(&chars("+7")), Some(7));
    assert_eq!(parse_u32(&chars("007")), Some(7));
    assert_eq!(parse_u32(&chars("+")), None);
    assert_eq!(parse_u32(&chars("")), None);
    assert_eq!(parse_u32(&chars("-0")), None);
    assert_eq!(parse_i64(&chars("-12")), Some(-12));
    assert_eq!(parse_i64(&chars("+12")), Some(12));
    assert_eq!(parse_i64(&chars("9223372036854775807")), Some(i64::MAX));
    assert_eq!(parse_i64(&chars("-")), None);
    assert_eq!(parse_i64(&chars("1 2")), None);
}

#[test]
fn decimal_text_of_numbers() {
    assert_eq!(u32_to_decimal(0), "0");
    assert_eq!(u32_to_decimal(9999999), "9999999");
    assert_eq!(u32_to_decimal(u32::MAX), "4294967295");
    assert_eq!(u32_to_decimal(1050), "1050");
}

#[test]
fn trim_and_split_as_std() {
    assert_eq!(chars_of("ab c"), chars("ab c"));
    assert_eq!(trim_chars(&chars(" \t a b \n")), chars("a b"));
    assert_eq!(trim_chars(&chars("   ")), chars(""));
    assert_eq!(
        split_chars(&chars(" a  b"), ' '),
        vec![chars(""), chars("a"), chars(""), chars("b")]
    );
    assert_eq!(split_chars(&chars(""), ' '), vec![chars("")]);
}

#[test]
fn names_padded_for_ranking() {
    assert_eq!(pad_name(&"Kiddo".to_string()), format!("Kiddo{}-", " ".repeat(11)));
    assert_eq!(pad_name(&"0123456789abcde".to_string()), "0123456789abcde -");
    assert_eq!(pad_name(&"".to_string()), format!("{}-", " ".repeat(16)));
}

#[test]
fn badges_in_ranking() {
    assert_eq!(player_badge(&player("@OLEG", "", "", 4321, true, 0)), Badge::Admin);
    assert_eq!(player_badge(&player("a", "", "", 4321, false, 0)), Badge::AllFlags);
    assert_eq!(player_badge(&player("a", "", "", 2776, false, 0)), Badge::ThreeFlags);
    assert_eq!(player_badge(&player("a", "", "", 2777, false, 0)), Badge::NoBadge);
}

#[test]
fn replies_pick_the_first_answer_of_their_kind() {
    let packets = vec![
        PacketTypes::Nothing,
        PacketTypes::AnswerGameData { motd: "hi".to_string(), low: 1, high: 10, games: 5 },
        PacketTypes::AnswerPlayer { status: StatusAnswerPlayer::Denied, player: player("", "", "", 0, false, 0) },
        PacketTypes::AnswerPlayer { status: StatusAnswerPlayer::OkLogin, player: player("x", "1", "", 3, false, 0) },
        PacketTypes::AnswerOnlinePlayers { players: vec![player("y", "", "p", 9, true, 0)] },
    ];
    let (status, p) = login_reply(&packets).unwrap();
    assert_eq!(status, StatusAnswerPlayer::Denied);
    assert_eq!(p.name, "");
    assert_eq!(game_data_reply(&packets), Some(("hi".to_string(), 1, 10, 5)));
    let players = online_players_reply(&packets).unwrap();
    assert_eq!(players.len(), 1);
    assert_eq!((players[0].name.as_str(), players[0].score, players[0].is_admin), ("y", 9, true));
    let none = vec![PacketTypes::AskForOnlinePlayers { sequence_p: 3 }];
    assert!(login_reply(&none).is_none());
    assert!(game_data_reply(&none).is_none());
    assert!(online_players_reply(&none).is_none());
}

#[test]
fn room_for_more_guesses() {
    assert!(has_room(&zero_score(), 5));
    let full = MatchScore { hits: u32::MAX - 4, specials: 0, misses: 0, score: 0 };
    assert!(has_room(&full, 4));
    assert!(!has_room(&full, 5));
    let high = MatchScore { hits: 0, specials: 0, misses: 0, score: i64::MAX - 111 };
    assert!(has_room(&high, 1));
    assert!(!has_room(&high, 2));
    let low = MatchScore { hits: 0, specials: 0, misses: 0, score: i64::MIN + 23 };
    assert!(has_room(&low, 1));
    assert!(!has_room(&low, 2));
}

#[test]
fn unicode_whitespace_is_trimmed() {
    assert_eq!(trim_chars(&chars("\n")), chars(""));
    assert_eq!(trim_chars(&chars("\u{3000}7\u{a0}\u{2028}")), chars("7"));
    assert_eq!(parse_referral("\u{2003}42\u{85}"), 42);
    assert_eq!(trim_chars(&chars("\u{200b}x")), chars("\u{200b}x"));
}
