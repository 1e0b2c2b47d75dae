use game_net::framing::{parse_packets_stream_sync, prepare_data, unpack_payload};
use game_net::unpack::{data_kind, packet_from_fields, DataKind, PacketFields};
use game_net::serialization::{
    answer_game_data, answer_online_players, answer_player, ask_for_game_data,
    ask_for_online_players, ask_for_player, message, send_game_score,
};
use game_net::server::{
    answer_onlineplayers, ask_for_player_handle, default_players, handle_packets, send_game_data,
    PlayerDb,
};
use game_net::structures::{Color, MatchScore, PacketTypes, Player, StatusAnswerPlayer};

fn u16_at(b: &[u8], p: usize) -> u16 {
    u16::from_le_bytes([b[p], b[p + 1]])
}

fn u32_at(b: &[u8], p: usize) -> u32 {
    u32::from_le_bytes([b[p], b[p + 1], b[p + 2], b[p + 3]])
}

fn i64_at(b: &[u8], p: usize) -> i64 {
    let mut a = [0u8; 8];
    a.copy_from_slice(&b[p..p + 8]);
    i64::from_le_bytes(a)
}

#[derive(Clone, Copy)]
struct Table<'a> {
    buf: &'a [u8],
    pos: usize,
}

fn root(buf: &[u8]) -> Table<'_> {
    Table { buf, pos: u32_at(buf, 0) as usize }
}

impl<'a> Table<'a> {
    fn field(&self, slot: usize) -> Option<usize> {
        let soff = u32_at(self.buf, self.pos) as i32 as i64;
        let vt = (self.pos as i64 - soff) as usize;
        let vt_len = u16_at(self.buf, vt) as usize;
        if slot >= vt_len {
            return None;
        }
        let o = u16_at(self.buf, vt + slot) as usize;
        if o == 0 {
            None
        } else {
            Some(self.pos + o)
        }
    }

    fn u8(&self, slot: usize) -> u8 {
        self.field(slot).map(|p| self.buf[p]).unwrap_or(0)
    }

    fn flag(&self, slot: usize) -> bool {
        self.u8(slot) != 0
    }

    fn u32(&self, slot: usize) -> u32 {
        self.field(slot).map(|p| u32_at(self.buf, p)).unwrap_or(0)
    }

    fn i64(&self, slot: usize) -> i64 {
        self.field(slot).map(|p| i64_at(self.buf, p)).unwrap_or(0)
    }

    fn table(&self, slot: usize) -> Option<Table<'a>> {
        self.field(slot).map(|p| Table { buf: self.buf, pos: p + u32_at(self.buf, p) as usize })
    }

    fn string(&self, slot: usize) -> Option<String> {
        self.field(slot).map(|p| {
            let q = p + u32_at(self.buf, p) as usize;
            let len = u32_at(self.buf, q) as usize;
            assert_eq!(self.buf[q + 4 + len], 0);
            String::from_utf8(self.buf[q + 4..q + 4 + len].to_vec()).unwrap()
        })
    }

    fn tables(&self, slot: usize) -> Vec<Table<'a>> {
        match self.field(slot) {
            None => Vec::new(),
            Some(p) => {
                let q = p + u32_at(self.buf, p) as usize;
                let n = u32_at(self.buf, q) as usize;
                (0..n)
                    .map(|i| {
                        let e = q + 4 + 4 * i;
                        Table { buf: self.buf, pos: e + u32_at(self.buf, e) as usize }
                    })
                    .collect()
            }
        }
    }
}

fn player(name: &str, token: &str, password: &str, score: i64, is_admin: bool, referral: i64) -> Player {
    Player {
        name: name.to_string(),
        auth_token: token.to_string(),
        password: password.to_string(),
        score,
        is_admin,
        referral,
    }
}

#[test]
fn ask_for_player_fields() {
    let b = ask_for_player(&"angelo".to_string(), &"abc".to_string(), 7);
    let g = root(&b);
    assert_eq!(g.u8(4), 1);
    let t = g.table(6).unwrap();
    assert_eq!(t.string(4).unwrap(), "angelo");
    assert_eq!(t.string(6).unwrap(), "abc");
    assert_eq!(t.i64(8), 7);
}

#[test]
fn ask_for_player_zero_referral_is_left_out() {
    let b = ask_for_player(&"angelo".to_string(), &"abc".to_string(), 0);
    let t = root(&b).table(6).unwrap();
    assert!(t.field(8).is_none());
    assert_eq!(t.i64(8), 0);
}

#[test]
fn ask_for_game_data_holds_player_name_token_referral() {
    let p = player("Kiddo", "123", "secret", 55, true, 9);
    let b = ask_for_game_data(&p);
    let g = root(&b);
    assert_eq!(g.u8(4), 2);
    let pl = g.table(6).unwrap().table(4).unwrap();
    assert_eq!(pl.string(4).unwrap(), "Kiddo");
    assert_eq!(pl.string(6).unwrap(), "123");
    assert_eq!(pl.i64(14), 9);
    assert!(pl.string(8).is_none());
    assert_eq!(pl.i64(10), 0);
    assert!(!pl.flag(12));
}

#[test]
fn ask_for_online_players_sequence() {
    let b = ask_for_online_players(4242);
    let g = root(&b);
    assert_eq!(g.u8(4), 3);
    assert_eq!(g.table(6).unwrap().u32(4), 4242);
}

#[test]
fn answer_player_status_and_player() {
    let p = player("Mr.T", "77", "IPityTheFools", 936, false, 0);
    let b = answer_player(&p, &StatusAnswerPlayer::Denied);
    let g = root(&b);
    assert_eq!(g.u8(4), 5);
    let t = g.table(6).unwrap();
    assert_eq!(t.u8(6), 2);
    let pl = t.table(4).unwrap();
    assert_eq!(pl.string(4).unwrap(), "Mr.T");
    assert_eq!(pl.string(6).unwrap(), "77");
    let ok_new = answer_player(&p, &StatusAnswerPlayer::OkNew);
    assert!(root(&ok_new).table(6).unwrap().field(6).is_none());
}

#[test]
fn answer_game_data_fields() {
    let b = answer_game_data("hello".to_string(), 1, 10, 5);
    let g = root(&b);
    assert_eq!(g.u8(4), 4);
    let t = g.table(6).unwrap();
    assert_eq!(t.string(4).unwrap(), "hello");
    assert_eq!((t.u32(6), t.u32(8), t.u32(10)), (1, 10, 5));
}

#[test]
fn answer_online_players_fields() {
    let players = vec![
        player("a", "tok", "pw1", 10, true, 5),
        player("bb", "tok2", "pw2", -3, false, 6),
    ];
    let b = answer_online_players(&players);
    let g = root(&b);
    assert_eq!(g.u8(4), 6);
    let list = g.table(6).unwrap().tables(4);
    assert_eq!(list.len(), 2);
    assert_eq!(list[0].string(4).unwrap(), "a");
    assert_eq!(list[0].string(8).unwrap(), "pw1");
    assert_eq!(list[0].i64(10), 10);
    assert!(list[0].flag(12));
    assert!(list[0].string(6).is_none());
    assert_eq!(list[0].i64(14), 0);
    assert_eq!(list[1].string(4).unwrap(), "bb");
    assert_eq!(list[1].i64(10), -3);
    assert!(!list[1].flag(12));
}

#[test]
fn message_fields() {
    let p = player("Hulk Hogan", "1", "Brotthar", 873, false, 0);
    let b = message(&p, "hi there".to_string(), Color::Blue);
    let g = root(&b);
    assert_eq!(g.u8(4), 8);
    let t = g.table(6).unwrap();
    assert_eq!(t.string(4).unwrap(), "hi there");
    assert_eq!(t.u8(6), 2);
    assert_eq!(t.table(8).unwrap().string(4).unwrap(), "Hulk Hogan");
    let red = message(&p, "x".to_string(), Color::Red);
    assert_eq!(root(&red).table(6).unwrap().u8(6), 0);
}

#[test]
fn send_game_score_fields() {
    let p = player("Highlander", "abc", "pw", 1, false, 0);
    let m = MatchScore { hits: 3, specials: 1, misses: 2, score: 318 };
    let b = send_game_score(&p, &m, "gg".to_string());
    let g = root(&b);
    assert_eq!(g.u8(4), 7);
    let t = g.table(6).unwrap();
    assert_eq!(t.table(4).unwrap().string(4).unwrap(), "Highlander");
    assert_eq!(t.table(4).unwrap().string(6).unwrap(), "abc");
    let r = t.table(6).unwrap();
    assert_eq!((r.u32(4), r.u32(6), r.u32(8), r.i64(10)), (3, 1, 2, 318));
    assert_eq!(t.string(8).unwrap(), "gg");
}

#[test]
fn send_game_data_settings() {
    let b = send_game_data();
    let t = root(&b).table(6).unwrap();
    assert_eq!(root(&b).u8(4), 4);
    assert_eq!(
        t.string(4).unwrap(),
        "Prizes in gold bars are now available to best players!"
    );
    assert_eq!((t.u32(6), t.u32(8), t.u32(10)), (1, 10, 5));
}

#[test]
fn login_handle_registers_and_logs_in() {
    let mut db = PlayerDb::new();
    let reply = ask_for_player_handle("newbie".to_string(), "pw".to_string(), 77, &mut db, 77);
    let t = root(&reply).table(6).unwrap();
    assert_eq!(t.u8(6), 0);
    let pl = t.table(4).unwrap();
    assert_eq!(pl.string(4).unwrap(), "newbie");
    let token = pl.string(6).unwrap();
    assert!(!token.is_empty() && token.len() <= 7);
    assert!(token.chars().all(|c| c.is_ascii_digit()));
    assert_eq!(token.parse::<u32>().unwrap().to_string(), token);
    assert_eq!(db.len(), 1);
    assert_eq!(db.get(0).score, -2000);
    assert_eq!(db.get(0).auth_token, token);

    let again = ask_for_player_handle("newbie".to_string(), "pw".to_string(), 0, &mut db, 77);
    let t = root(&again).table(6).unwrap();
    assert_eq!(t.u8(6), 1);
    assert_eq!(db.len(), 1);
    assert_eq!(db.get(0).auth_token, t.table(4).unwrap().string(6).unwrap());
}

#[test]
fn login_handle_refusals() {
    let mut db = default_players(999);
    let wrong = ask_for_player_handle("Kiddo".to_string(), "nope".to_string(), 0, &mut db, 999);
    let t = root(&wrong).table(6).unwrap();
    assert_eq!(t.u8(6), 2);
    assert_eq!(t.table(4).unwrap().string(4).unwrap(), "");
    let unknown = ask_for_player_handle("Stranger".to_string(), "pw".to_string(), 1, &mut db, 999);
    assert_eq!(root(&unknown).table(6).unwrap().u8(6), 3);
    let long = ask_for_player_handle("AVeryLongPlayerName".to_string(), "pw".to_string(), 999, &mut db, 999);
    assert_eq!(root(&long).table(6).unwrap().u8(6), 3);
    assert_eq!(db.len(), 6);
}

#[test]
fn admin_login_shows_server_referral() {
    let mut db = default_players(31337);
    let reply = ask_for_player_handle("@OLEG".to_string(), "StrongPassword20".to_string(), 0, &mut db, 31337);
    let pl = root(&reply).table(6).unwrap().table(4).unwrap();
    assert_eq!(pl.i64(14), 31337);
    let plain = ask_for_player_handle("Mr.T".to_string(), "IPityTheFools".to_string(), 0, &mut db, 31337);
    let pl = root(&plain).table(6).unwrap().table(4).unwrap();
    assert_eq!(pl.i64(14), 0);
}

#[test]
fn ranking_is_sorted_and_sanitized() {
    let mut db = PlayerDb::new();
    db.insert(player("low", "t1", "p", -5, false, 1));
    db.insert(player("capped", "t2", "AVeryLongPassword!", 3000, false, 2));
    db.insert(player("high", "t3", "short", 3000, false, 3));
    db.insert(player("mid", "t4", "p", 100, true, 4));
    let b = answer_onlineplayers(&db);
    let list = root(&b).table(6).unwrap().tables(4);
    let names: Vec<String> = list.iter().map(|t| t.string(4).unwrap()).collect();
    assert_eq!(names, vec!["capped", "high", "mid", "low"]);
    let scores: Vec<i64> = list.iter().map(|t| t.i64(10)).collect();
    assert_eq!(scores, vec![4321, 3000, 100, -5]);
    assert!(list.iter().all(|t| t.string(6).is_none() && t.i64(14) == 0));
}

#[test]
fn ranking_keeps_order_of_equal_scores() {
    let mut db = PlayerDb::new();
    db.insert(player("first", "", "p", 7, false, 0));
    db.insert(player("second", "", "p", 7, false, 0));
    db.insert(player("third", "", "p", 9, false, 0));
    let b = answer_onlineplayers(&db);
    let names: Vec<String> = root(&b).table(6).unwrap().tables(4).iter().map(|t| t.string(4).unwrap()).collect();
    assert_eq!(names, vec!["third", "first", "second"]);
}

#[test]
fn handle_packets_replies_in_order() {
    let mut db = default_players(5);
    let mut received = vec![
        PacketTypes::AskForOnlinePlayers { sequence_p: 1 },
        PacketTypes::Message {
            text: "x".to_string(),
            color: Color::Green,
            from: player("Kiddo", "", "", 0, false, 0),
        },
        PacketTypes::AskForGameData { player: player("Kiddo", "", "", 0, false, 0) },
        PacketTypes::Nothing,
        PacketTypes::AskForPlayer { name: "Kiddo".to_string(), password: "Kiddo9000".to_string(), referral: 0 },
    ];
    let (replies, save) = handle_packets(&mut received, 5, &mut db);
    assert!(received.is_empty());
    assert!(save);
    assert_eq!(replies.len(), 4);
    assert_eq!(root(&replies[0]).u8(4), 6);
    assert_eq!(root(&replies[0]).table(6).unwrap().tables(4).len(), 6);
    assert_eq!(root(&replies[1]).u8(4), 4);
    assert_eq!(replies[2].as_ref(), b"not supposed to recieve");
    assert_eq!(root(&replies[3]).u8(4), 5);
    assert_eq!(root(&replies[3]).table(6).unwrap().u8(6), 1);
}

#[test]
fn handle_packets_score_saves_only_high_scores() {
    let mut db = default_players(5);
    let mut login = vec![PacketTypes::AskForPlayer {
        name: "Kiddo".to_string(),
        password: "Kiddo9000".to_string(),
        referral: 0,
    }];
    let (replies, _) = handle_packets(&mut login, 5, &mut db);
    let token = root(&replies[0]).table(6).unwrap().table(4).unwrap().string(6).unwrap();
    let mut score = vec![PacketTypes::SendGameScore {
        player: player("Kiddo", &token, "", 0, false, 0),
        game_result: MatchScore { hits: 2, specials: 0, misses: 3, score: 154 },
        score_message: String::new(),
    }];
    let (replies, save) = handle_packets(&mut score, 5, &mut db);
    assert!(replies.is_empty());
    assert!(!save);
    let i = db.find(&"Kiddo".to_string()).unwrap();
    assert_eq!(db.get(i).score, 154);
}

#[test]
fn client_login_buffer_holds_name_and_password() {
    let buf = game_net::client_networking::ask_for_player(&"Kiddo".to_string(), &"Kiddo9000".to_string());
    let t = root(&buf);
    assert_eq!(t.string(4).unwrap(), "Kiddo");
    assert_eq!(t.string(6).unwrap(), "Kiddo9000");
    assert!(t.field(8).is_none());
}

fn player_fields_of(t: &Table<'_>) -> game_net::unpack::PlayerFields {
    game_net::unpack::PlayerFields {
        name: t.string(4),
        auth_token: t.string(6),
        password: t.string(8),
        score: t.i64(10),
        is_admin: t.flag(12),
        referral: t.i64(14),
    }
}

#[test]
fn message_survives_framing_and_decoding() {
    let p = player("Hulk Hogan", "1", "Brotthar", 873, false, 9);
    let encoded = message(&p, "hi there".to_string(), Color::Green);
    let mut stream = prepare_data(&encoded).to_vec();
    let n = stream.len();
    let mut packets = Vec::new();
    assert_eq!(parse_packets_stream_sync(&mut stream, n, &mut packets), Ok(()));
    let payload = unpack_payload(&packets[0]).unwrap();
    let g = root(&payload);
    assert_eq!(data_kind(g.u8(4)), DataKind::Message);
    let t = g.table(6).unwrap();
    let fields = PacketFields::Message {
        text: t.string(4),
        color: t.u8(6),
        from: t.table(8).map(|f| player_fields_of(&f)),
    };
    assert!(fields.is_complete());
    match packet_from_fields(fields) {
        PacketTypes::Message { text, color, from } => {
            assert_eq!(text, "hi there");
            assert_eq!(color, Color::Green);
            assert_eq!((from.name.as_str(), from.auth_token.as_str(), from.referral), ("Hulk Hogan", "1", 9));
            assert_eq!((from.password.as_str(), from.score), ("", 0));
        },
        other => panic!("unexpected {:?}", other),
    }
}

#[test]
fn login_with_long_name_fails_without_saving() {
    let mut db = PlayerDb::new();
    let mut long = vec![PacketTypes::AskForPlayer {
        name: "ABCDEFGHIJKLMNOPQ".to_string(),
        password: "pw".to_string(),
        referral: 7,
    }];
    let (replies, save) = handle_packets(&mut long, 7, &mut db);
    assert!(!save);
    assert_eq!(db.len(), 0);
    assert_eq!(replies.len(), 1);
    let t = root(&replies[0]).table(6).unwrap();
    assert_eq!(t.u8(6), 3);
    let mut ok = vec![PacketTypes::AskForPlayer {
        name: "ABCDEFGHIJKLMNOP".to_string(),
        password: "pw".to_string(),
        referral: 7,
    }];
    let (_, save) = handle_packets(&mut ok, 7, &mut db);
    assert!(save);
    assert_eq!(db.len(), 1);
}

#[test]
fn send_game_score_table_size_prefixed() {
    let mut fb = game_net::flatbuf::FlatBuilder::with_capacity(64);
    let m = fb.string("gg");
    let args = game_net::send_game_score_table::SendGameScoreArgs {
        player: None,
        game_result: None,
        score_message: Some(m),
    };
    let (mut fb, off) = game_net::send_game_score_table::create(fb, &args);
    game_net::send_game_score_table::finish_size_prefixed_send_game_score_buffer(&mut fb, off);
    let buf = fb.finished();
    assert_eq!(u32_at(&buf, 0) as usize, buf.len() - 4);
    let t = root(&buf[4..]);
    assert_eq!(t.string(8).unwrap(), "gg");
    assert!(t.field(4).is_none());

    let mut fb2 = game_net::flatbuf::FlatBuilder::with_capacity(64);
    let m2 = fb2.string("gg");
    let args2 = game_net::send_game_score_table::SendGameScoreArgs {
        player: None,
        game_result: None,
        score_message: Some(m2),
    };
    let (mut fb2, off2) = game_net::send_game_score_table::create(fb2, &args2);
    game_net::send_game_score_table::finish_send_game_score_buffer(&mut fb2, off2);
    let plain = fb2.finished();
    assert_eq!(&buf[4..], &plain[..]);
}

#[test]
fn login_handle_answers_any_long_name_with_failure() {
    let mut db = default_players(7);
    let before = db.len();
    let name = "x".repeat(5000);
    let reply = ask_for_player_handle(name, "pw".to_string(), 7, &mut db, 7);
    let t = root(&reply).table(6).unwrap();
    assert_eq!(t.u8(6), 3);
    assert_eq!(t.table(4).unwrap().string(4).unwrap(), "");
    assert_eq!(db.len(), before);
}
