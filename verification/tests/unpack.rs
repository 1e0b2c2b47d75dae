use game_net::structures::{Color, MatchScore, PacketTypes, StatusAnswerPlayer};
use game_net::unpack::{data_kind, packet_from_fields, DataKind, PacketFields, PlayerFields};

fn fields(name: Option<&str>, token: Option<&str>, password: Option<&str>, score: i64) -> PlayerFields {
    PlayerFields {
        name: name.map(|s| s.to_string()),
        auth_token: token.map(|s| s.to_string()),
        password: password.map(|s| s.to_string()),
        score,
        is_admin: false,
        referral: 0,
    }
}

#[test]
fn tags_name_the_messages() {
    assert_eq!(data_kind(0), DataKind::Unknown);
    assert_eq!(data_kind(1), DataKind::AskForPlayer);
    assert_eq!(data_kind(2), DataKind::AskForGameData);
    assert_eq!(data_kind(3), DataKind::AskForOnlinePlayers);
    assert_eq!(data_kind(4), DataKind::AnswerGameData);
    assert_eq!(data_kind(5), DataKind::AnswerPlayer);
    assert_eq!(data_kind(6), DataKind::AnswerOnlinePlayers);
    assert_eq!(data_kind(7), DataKind::SendGameScore);
    assert_eq!(data_kind(8), DataKind::Message);
    assert_eq!(data_kind(9), DataKind::Unknown);
    assert_eq!(data_kind(255), DataKind::Unknown);
}

#[test]
fn login_request_fields() {
    let f = PacketFields::AskForPlayer {
        name: Some("angelo".to_string()),
        password: Some("abc".to_string()),
        referral: -4,
    };
    assert!(f.is_complete());
    match packet_from_fields(f) {
        PacketTypes::AskForPlayer { name, password, referral } => {
            assert_eq!((name.as_str(), password.as_str(), referral), ("angelo", "abc", -4));
        },
        other => panic!("unexpected {:?}", other),
    }
    let missing = PacketFields::AskForPlayer { name: None, password: Some("abc".to_string()), referral: 0 };
    assert!(!missing.is_complete());
}

#[test]
fn absent_player_strings_read_as_empty() {
    let f = PacketFields::AskForGameData { player: Some(fields(Some("Kiddo"), None, None, -1051)) };
    assert!(f.is_complete());
    match packet_from_fields(f) {
        PacketTypes::AskForGameData { player } => {
            assert_eq!(player.name, "Kiddo");
            assert_eq!(player.auth_token, "");
            assert_eq!(player.password, "");
            assert_eq!(player.score, -1051);
        },
        other => panic!("unexpected {:?}", other),
    }
    assert!(!PacketFields::AskForGameData { player: None }.is_complete());
    assert!(!PacketFields::AskForGameData { player: Some(fields(None, Some("1"), None, 0)) }.is_complete());
}

#[test]
fn answer_player_status_codes() {
    let f = PacketFields::AnswerPlayer { status: 2, player: Some(fields(Some(""), None, None, 0)) };
    assert!(f.is_complete());
    match packet_from_fields(f) {
        PacketTypes::AnswerPlayer { status, player } => {
            assert_eq!(status, StatusAnswerPlayer::Denied);
            assert_eq!(player.name, "");
        },
        other => panic!("unexpected {:?}", other),
    }
    let bad = PacketFields::AnswerPlayer { status: 4, player: Some(fields(Some("a"), None, None, 0)) };
    assert!(!bad.is_complete());
}

#[test]
fn game_data_and_online_players() {
    let f = PacketFields::AnswerGameData { motd: None, low: 1, high: 10, games: 5 };
    match packet_from_fields(f) {
        PacketTypes::AnswerGameData { motd, low, high, games } => {
            assert_eq!((motd.as_str(), low, high, games), ("", 1, 10, 5));
        },
        other => panic!("unexpected {:?}", other),
    }
    let f = PacketFields::AnswerOnlinePlayers {
        players: Some(vec![
            fields(Some("a"), None, Some("pa"), 5),
            fields(Some("b"), None, None, 3),
            fields(Some("c"), Some("t"), None, -1),
        ]),
    };
    assert!(f.is_complete());
    match packet_from_fields(f) {
        PacketTypes::AnswerOnlinePlayers { players } => {
            let names: Vec<&str> = players.iter().map(|p| p.name.as_str()).collect();
            assert_eq!(names, vec!["a", "b", "c"]);
            assert_eq!(players[0].password, "pa");
            assert_eq!(players[2].auth_token, "t");
            assert_eq!(players[2].score, -1);
        },
        other => panic!("unexpected {:?}", other),
    }
    assert!(!PacketFields::AnswerOnlinePlayers { players: None }.is_complete());
    let unnamed = PacketFields::AnswerOnlinePlayers {
        players: Some(vec![fields(Some("a"), None, None, 0), fields(None, None, None, 0)]),
    };
    assert!(!unnamed.is_complete());
    assert!(PacketFields::AnswerOnlinePlayers { players: Some(Vec::new()) }.is_complete());
}

#[test]
fn score_and_message_fields() {
    let f = PacketFields::SendGameScore {
        player: Some(fields(Some("Mr.T"), Some("77"), None, 0)),
        game_result: Some(MatchScore { hits: 10, specials: 0, misses: 0, score: 1110 }),
        score_message: None,
    };
    assert!(f.is_complete());
    match packet_from_fields(f) {
        PacketTypes::SendGameScore { player, game_result, score_message } => {
            assert_eq!((player.name.as_str(), player.auth_token.as_str()), ("Mr.T", "77"));
            assert_eq!((game_result.hits, game_result.score), (10, 1110));
            assert_eq!(score_message, "");
        },
        other => panic!("unexpected {:?}", other),
    }
    let no_result = PacketFields::SendGameScore {
        player: Some(fields(Some("Mr.T"), None, None, 0)),
        game_result: None,
        score_message: None,
    };
    assert!(!no_result.is_complete());
    let f = PacketFields::Message {
        text: Some("hello".to_string()),
        color: 1,
        from: Some(fields(Some("x"), None, None, 0)),
    };
    assert!(f.is_complete());
    match packet_from_fields(f) {
        PacketTypes::Message { text, color, from } => {
            assert_eq!(text, "hello");
            assert_eq!(color, Color::Green);
            assert_eq!(from.name, "x");
        },
        other => panic!("unexpected {:?}", other),
    }
    let bad_color = PacketFields::Message {
        text: Some("hello".to_string()),
        color: 3,
        from: Some(fields(Some("x"), None, None, 0)),
    };
    assert!(!bad_color.is_complete());
}

#[test]
fn unknown_tag_gives_nothing() {
    assert!(PacketFields::Unknown.is_complete());
    assert!(matches!(packet_from_fields(PacketFields::Unknown), PacketTypes::Nothing));
    let f = PacketFields::AskForOnlinePlayers { sequence: 42 };
    assert!(matches!(packet_from_fields(f), PacketTypes::AskForOnlinePlayers { sequence_p: 42 }));
}

#[test]
fn wire_numbers_of_colors_and_statuses() {
    for c in [Color::Red, Color::Green, Color::Blue] {
        assert_eq!(Color::from_code(c.to_code()), Some(c));
    }
    assert_eq!(Color::Blue.to_code(), 2);
    assert_eq!(Color::from_code(3), None);
    for s in [
        StatusAnswerPlayer::OkNew,
        StatusAnswerPlayer::OkLogin,
        StatusAnswerPlayer::Denied,
        StatusAnswerPlayer::Failure,
    ] {
        assert_eq!(StatusAnswerPlayer::from_code(s.to_code()), Some(s));
    }
    assert_eq!(StatusAnswerPlayer::Failure.to_code(), 3);
    assert_eq!(StatusAnswerPlayer::from_code(4), None);
}
