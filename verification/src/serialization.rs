//! The FlatBuffers encoding of the game's messages.
//!
//! Every message is a table wrapped in a `GenericPacket` table, whose field 4 holds the
//! kind of the message (the union tag) and whose field 6 holds the message. The fields of
//! a table take the slots 4, 6, 8, ... in the order of the schema, and are pushed as the
//! generated code of `flatc` pushes them: the widest first, and among fields of one width
//! the last one first. A scalar equal to its default (zero, `false`) is not stored.
use vstd::prelude::*;
use crate::flatbuf::{
    accepts_field, accepts_object, builder_ops, extends, finished_bytes, is_handed_out,
    group_history_push, string_offset, table_offset, table_start_offset, vector_offset, FbOp,
    FlatBuilder, MAX_STRING_BYTES, utf8_len, is_finished, in_table, open_table_start,
    open_table_fields, lemma_all_handed_out_extends, lemma_handed_out_extends, lemma_extends_trans,
};
use crate::framing::{bytes_contents, bytes_from_vec};
use crate::send_game_score_table::{create, SendGameScoreArgs};
use crate::structures::{
    color_code, status_code, Color, MatchScore, Player, PlayerV, StatusAnswerPlayer,
};

verus! {

broadcast use group_history_push;

/// The union tag of a `GenericPacket` that carries an `AskForPlayer`.
pub const DATA_ASK_FOR_PLAYER: u8 = 1;

/// The union tag of a `GenericPacket` that carries an `AskForGameData`.
pub const DATA_ASK_FOR_GAME_DATA: u8 = 2;

/// The union tag of a `GenericPacket` that carries an `AskForOnlinePlayers`.
pub const DATA_ASK_FOR_ONLINE_PLAYERS: u8 = 3;

/// The union tag of a `GenericPacket` that carries an `AnswerGameData`.
pub const DATA_ANSWER_GAME_DATA: u8 = 4;

/// The union tag of a `GenericPacket` that carries an `AnswerPlayer`.
pub const DATA_ANSWER_PLAYER: u8 = 5;

/// The union tag of a `GenericPacket` that carries an `AnswerOnlinePlayers`.
pub const DATA_ANSWER_ONLINE_PLAYERS: u8 = 6;

/// The union tag of a `GenericPacket` that carries a `SendGameScore`.
pub const DATA_SEND_GAME_SCORE: u8 = 7;

/// The union tag of a `GenericPacket` that carries a `Message`.
pub const DATA_MESSAGE: u8 = 8;

/// The history after pushing a byte field (nothing when it is zero).
pub open spec fn slot_u8(ops: Seq<FbOp>, slot: u16, x: u8) -> Seq<FbOp> {
    if x != 0 {
        ops.push(FbOp::SlotU8(slot, x))
    } else {
        ops
    }
}

/// The history after pushing a boolean field (nothing when it is `false`).
pub open spec fn slot_bool(ops: Seq<FbOp>, slot: u16, x: bool) -> Seq<FbOp> {
    if x {
        ops.push(FbOp::SlotBool(slot, x))
    } else {
        ops
    }
}

/// The history after pushing a `u32` field (nothing when it is zero).
pub open spec fn slot_u32(ops: Seq<FbOp>, slot: u16, x: u32) -> Seq<FbOp> {
    if x != 0 {
        ops.push(FbOp::SlotU32(slot, x))
    } else {
        ops
    }
}

/// The history after pushing an `i64` field (nothing when it is zero).
pub open spec fn slot_i64(ops: Seq<FbOp>, slot: u16, x: i64) -> Seq<FbOp> {
    if x != 0 {
        ops.push(FbOp::SlotI64(slot, x))
    } else {
        ops
    }
}

/// The history after pushing an optional offset field (nothing when it is absent).
pub open spec fn slot_offset(ops: Seq<FbOp>, slot: u16, o: Option<u32>) -> Seq<FbOp> {
    match o {
        Some(off) => ops.push(FbOp::SlotOffset(slot, off)),
        None => ops,
    }
}

/// The history after pushing a string.
pub open spec fn with_string(ops: Seq<FbOp>, s: Seq<char>) -> Seq<FbOp> {
    ops.push(FbOp::String(s))
}

/// The history after closing the table that the last `start_table` opened.
pub open spec fn close_table(ops: Seq<FbOp>, start_ops: Seq<FbOp>) -> Seq<FbOp> {
    ops.push(FbOp::EndTable(table_start_offset(start_ops)))
}

/// The fields of a `Player` table: name (4), auth_token (6), password (8), score (10),
/// is_admin (12), referral (14).
pub struct PlayerArgs {
    pub name: Option<u32>,
    pub auth_token: Option<u32>,
    pub password: Option<u32>,
    pub score: i64,
    pub is_admin: bool,
    pub referral: i64,
}

/// Whether every offset among the arguments is one the history handed out.
pub open spec fn player_args_handed_out(ops: Seq<FbOp>, a: PlayerArgs) -> bool {
    &&& (a.name matches Some(o) ==> is_handed_out(ops, o))
    &&& (a.auth_token matches Some(o) ==> is_handed_out(ops, o))
    &&& (a.password matches Some(o) ==> is_handed_out(ops, o))
}

/// The history after writing a `Player` table.
pub open spec fn player_table_ops(ops: Seq<FbOp>, a: PlayerArgs) -> Seq<FbOp> {
    let o0 = ops.push(FbOp::StartTable);
    let o1 = slot_i64(o0, 14, a.referral);
    let o2 = slot_i64(o1, 10, a.score);
    let o3 = slot_offset(o2, 8, a.password);
    let o4 = slot_offset(o3, 6, a.auth_token);
    let o5 = slot_offset(o4, 4, a.name);
    let o6 = slot_bool(o5, 12, a.is_admin);
    close_table(o6, o0)
}

/// Pushes an optional offset into a slot of the open table.
fn push_opt_offset(b: &mut FlatBuilder, slot: u16, o: Option<u32>)
    requires
        accepts_field(builder_ops(*old(b)), slot),
        o matches Some(off) ==> is_handed_out(builder_ops(*old(b)), off),
    ensures
        builder_ops(*final(b)) == slot_offset(builder_ops(*old(b)), slot, o),
{
    match o {
        Some(off) => b.push_slot_offset(slot, off),
        None => {},
    }
}

/// Writes a `Player` table and returns its offset.
fn player_table(b: &mut FlatBuilder, a: &PlayerArgs) -> (off: u32)
    requires
        accepts_object(builder_ops(*old(b))),
        player_args_handed_out(builder_ops(*old(b)), *a),
    ensures
        builder_ops(*final(b)) == player_table_ops(builder_ops(*old(b)), *a),
        off == table_offset(builder_ops(*final(b))),
        extends(builder_ops(*final(b)), builder_ops(*old(b))),
{
    let ghost ops = builder_ops(*b);
    let start = b.start_table();
    b.push_slot_i64(14, a.referral, 0);
    b.push_slot_i64(10, a.score, 0);
    push_opt_offset(b, 8, a.password);
    push_opt_offset(b, 6, a.auth_token);
    push_opt_offset(b, 4, a.name);
    b.push_slot_bool(12, a.is_admin, false);
    let off = b.end_table(start);
    proof {
        let a = *a;
        let o0 = ops.push(FbOp::StartTable);
        let o1 = slot_i64(o0, 14, a.referral);
        let o2 = slot_i64(o1, 10, a.score);
        let o3 = slot_offset(o2, 8, a.password);
        let o4 = slot_offset(o3, 6, a.auth_token);
        let o5 = slot_offset(o4, 4, a.name);
        let o6 = slot_bool(o5, 12, a.is_admin);
        assert(extends(builder_ops(*b), ops)) by {
            assert(builder_ops(*b).take(ops.len() as int) =~= ops);
        }
    }
    off
}

/// The history of `pack_data`: a `GenericPacket` table that holds the message at `data`
/// and its tag, made the root of the finished buffer.
pub open spec fn pack_ops(ops: Seq<FbOp>, data: u32, tag: u8) -> Seq<FbOp> {
    let o0 = ops.push(FbOp::StartTable);
    let o1 = slot_offset(o0, 6, Some(data));
    let o2 = slot_u8(o1, 4, tag);
    let o3 = close_table(o2, o0);
    o3.push(FbOp::Finish(table_offset(o3)))
}

/// Wraps the message at `data` in a `GenericPacket` with the given tag, finishes the
/// buffer and returns its bytes.
fn pack_data(data: u32, builder: FlatBuilder, packet_type: u8) -> (res: bytes::Bytes)
    requires
        accepts_object(builder_ops(builder)),
        is_handed_out(builder_ops(builder), data),
    ensures
        bytes_contents(res) == finished_bytes(pack_ops(builder_ops(builder), data, packet_type)),
{
    let mut builder = builder;
    let start = builder.start_table();
    builder.push_slot_offset(6, data);
    builder.push_slot_u8(4, packet_type, 0);
    let root = builder.end_table(start);
    builder.finish(root);
    bytes_from_vec(builder.finished_data())
}

/// Whether every string of the player fits the builder.
pub open spec fn player_strings_fit(p: PlayerV) -> bool {
    &&& utf8_len(p.name) <= MAX_STRING_BYTES
    &&& utf8_len(p.auth_token) <= MAX_STRING_BYTES
    &&& utf8_len(p.password) <= MAX_STRING_BYTES
}

/// The history of `create_player_data`: the name and the token of the player as strings,
/// then a `Player` table with them and the referral code.
pub open spec fn player_data_ops(ops: Seq<FbOp>, p: PlayerV) -> Seq<FbOp> {
    let o1 = with_string(ops, p.name);
    let o2 = with_string(o1, p.auth_token);
    player_table_ops(
        o2,
        PlayerArgs {
            name: Some(string_offset(o1)),
            auth_token: Some(string_offset(o2)),
            password: None,
            score: 0,
            is_admin: false,
            referral: p.referral,
        },
    )
}

/// Writes the name, the token and the referral code of a player as a `Player` table,
/// and returns the builder and the table's offset.
fn create_player_data(player_p: &Player, builder: FlatBuilder) -> (res: (FlatBuilder, u32))
    requires
        accepts_object(builder_ops(builder)),
        player_strings_fit(player_p@),
    ensures
        builder_ops(res.0) == player_data_ops(builder_ops(builder), player_p@),
        res.1 == table_offset(builder_ops(res.0)),
        extends(builder_ops(res.0), builder_ops(builder)),
{
    let mut builder = builder;
    let ghost ops = builder_ops(builder);
    let fplayer_name = builder.create_string(player_p.name.as_str());
    let fplayer_token = builder.create_string(player_p.auth_token.as_str());
    let ghost ops2 = builder_ops(builder);
    let args = PlayerArgs {
        name: Some(fplayer_name),
        auth_token: Some(fplayer_token),
        password: None,
        score: 0,
        is_admin: false,
        referral: player_p.referral,
    };
    let fplayer = player_table(&mut builder, &args);
    proof {
        assert(extends(ops2, ops)) by {
            assert(ops2.take(ops.len() as int) =~= ops);
        }
        lemma_extends_trans(ops, ops2, builder_ops(builder));
    }
    (builder, fplayer)
}

/// The history of `ask_for_player`.
pub open spec fn ask_for_player_ops(name: Seq<char>, password: Seq<char>, referral: i64) -> Seq<
    FbOp,
> {
    let o1 = with_string(Seq::empty(), name);
    let o2 = with_string(o1, password);
    let o3 = o2.push(FbOp::StartTable);
    let o4 = slot_i64(o3, 8, referral);
    let o5 = slot_offset(o4, 6, Some(string_offset(o2)));
    let o6 = slot_offset(o5, 4, Some(string_offset(o1)));
    let o7 = close_table(o6, o3);
    pack_ops(o7, table_offset(o7), DATA_ASK_FOR_PLAYER)
}

/// A login request: an `AskForPlayer` with the name (4), the password (6) and the
/// referral code (8).
pub fn ask_for_player(name: &String, password: &String, referral: i64) -> (res: bytes::Bytes)
    requires
        utf8_len(name@) <= MAX_STRING_BYTES,
        utf8_len(password@) <= MAX_STRING_BYTES,
    ensures
        bytes_contents(res) == finished_bytes(ask_for_player_ops(name@, password@, referral)),
{
    let mut builder = FlatBuilder::new(512);
    let fname = builder.create_string(name.as_str());
    let fpassword = builder.create_string(password.as_str());
    let start = builder.start_table();
    builder.push_slot_i64(8, referral, 0);
    builder.push_slot_offset(6, fpassword);
    builder.push_slot_offset(4, fname);
    let afp_data = builder.end_table(start);
    pack_data(afp_data, builder, DATA_ASK_FOR_PLAYER)
}

/// The history of `ask_for_game_data`.
pub open spec fn ask_for_game_data_ops(p: PlayerV) -> Seq<FbOp> {
    let o1 = player_data_ops(Seq::empty(), p);
    let o2 = o1.push(FbOp::StartTable);
    let o3 = slot_offset(o2, 4, Some(table_offset(o1)));
    let o4 = close_table(o3, o2);
    pack_ops(o4, table_offset(o4), DATA_ASK_FOR_GAME_DATA)
}

/// A request for the game's settings: an `AskForGameData` with the player (4).
pub fn ask_for_game_data(player_p: &Player) -> (res: bytes::Bytes)
    requires
        player_strings_fit(player_p@),
    ensures
        bytes_contents(res) == finished_bytes(ask_for_game_data_ops(player_p@)),
{
    let builder = FlatBuilder::new(512);
    let (mut builder, fplayer) = create_player_data(player_p, builder);
    let start = builder.start_table();
    builder.push_slot_offset(4, fplayer);
    let fask_game_data = builder.end_table(start);
    pack_data(fask_game_data, builder, DATA_ASK_FOR_GAME_DATA)
}

/// The history of `ask_for_online_players`.
pub open spec fn ask_for_online_players_ops(sequence: u32) -> Seq<FbOp> {
    let o1 = Seq::<FbOp>::empty().push(FbOp::StartTable);
    let o2 = slot_u32(o1, 4, sequence);
    let o3 = close_table(o2, o1);
    pack_ops(o3, table_offset(o3), DATA_ASK_FOR_ONLINE_PLAYERS)
}

/// A request for the list of players: an `AskForOnlinePlayers` with a sequence number (4).
pub fn ask_for_online_players(sequence_p: u32) -> (res: bytes::Bytes)
    ensures
        bytes_contents(res) == finished_bytes(ask_for_online_players_ops(sequence_p)),
{
    let mut builder = FlatBuilder::new(512);
    let start = builder.start_table();
    builder.push_slot_u32(4, sequence_p, 0);
    let fask_online_players = builder.end_table(start);
    pack_data(fask_online_players, builder, DATA_ASK_FOR_ONLINE_PLAYERS)
}

/// The history of `answer_player`.
pub open spec fn answer_player_ops(p: PlayerV, status: StatusAnswerPlayer) -> Seq<FbOp> {
    let o1 = player_data_ops(Seq::empty(), p);
    let o2 = o1.push(FbOp::StartTable);
    let o3 = slot_offset(o2, 4, Some(table_offset(o1)));
    let o4 = slot_u8(o3, 6, status_code(status));
    let o5 = close_table(o4, o2);
    pack_ops(o5, table_offset(o5), DATA_ANSWER_PLAYER)
}

/// The answer to a login request: an `AnswerPlayer` with the player (4) and the status (6).
pub fn answer_player(player_p: &Player, status_p: &StatusAnswerPlayer) -> (res: bytes::Bytes)
    requires
        player_strings_fit(player_p@),
    ensures
        bytes_contents(res) == finished_bytes(answer_player_ops(player_p@, *status_p)),
{
    let builder = FlatBuilder::new(512);
    let (mut builder, fplayer) = create_player_data(player_p, builder);
    let status = status_p.to_code();
    let start = builder.start_table();
    builder.push_slot_offset(4, fplayer);
    builder.push_slot_u8(6, status, 0);
    let fanswer_player = builder.end_table(start);
    pack_data(fanswer_player, builder, DATA_ANSWER_PLAYER)
}

/// The history of `answer_game_data`.
pub open spec fn answer_game_data_ops(motd: Seq<char>, low: u32, high: u32, games: u32) -> Seq<
    FbOp,
> {
    let o1 = with_string(Seq::empty(), motd);
    let o2 = o1.push(FbOp::StartTable);
    let o3 = slot_u32(o2, 10, games);
    let o4 = slot_u32(o3, 8, high);
    let o5 = slot_u32(o4, 6, low);
    let o6 = slot_offset(o5, 4, Some(string_offset(o1)));
    let o7 = close_table(o6, o2);
    pack_ops(o7, table_offset(o7), DATA_ANSWER_GAME_DATA)
}

/// The game's settings: an `AnswerGameData` with the message of the day (4), the lowest
/// (6) and the bound above the highest (8) number to guess, and the number of rounds (10).
pub fn answer_game_data(motd_p: String, low_p: u32, high_p: u32, games_p: u32) -> (res:
    bytes::Bytes)
    requires
        utf8_len(motd_p@) <= MAX_STRING_BYTES,
    ensures
        bytes_contents(res) == finished_bytes(
            answer_game_data_ops(motd_p@, low_p, high_p, games_p),
        ),
{
    let mut builder = FlatBuilder::new(512);
    let message = builder.create_string(motd_p.as_str());
    let start = builder.start_table();
    builder.push_slot_u32(10, games_p, 0);
    builder.push_slot_u32(8, high_p, 0);
    builder.push_slot_u32(6, low_p, 0);
    builder.push_slot_offset(4, message);
    let fgame_data = builder.end_table(start);
    pack_data(fgame_data, builder, DATA_ANSWER_GAME_DATA)
}

/// The history after writing the players of an `AnswerOnlinePlayers` (each one as its
/// name, its password and a `Player` table with them, the score and the admin flag), and
/// the offsets of their tables.
pub open spec fn online_players_ops(ops: Seq<FbOp>, players: Seq<PlayerV>) -> (Seq<FbOp>, Seq<
    u32,
>)
    decreases players.len(),
{
    if players.len() == 0 {
        (ops, Seq::empty())
    } else {
        let prev = online_players_ops(ops, players.drop_last());
        let p = players.last();
        let o1 = with_string(prev.0, p.name);
        let o2 = with_string(o1, p.password);
        let o3 = player_table_ops(
            o2,
            PlayerArgs {
                name: Some(string_offset(o1)),
                auth_token: None,
                password: Some(string_offset(o2)),
                score: p.score,
                is_admin: p.is_admin,
                referral: 0,
            },
        );
        (o3, prev.1.push(table_offset(o3)))
    }
}

/// The history of `answer_online_players`.
pub open spec fn answer_online_players_ops(players: Seq<PlayerV>) -> Seq<FbOp> {
    let built = online_players_ops(Seq::empty(), players);
    let o1 = built.0.push(FbOp::OffsetVector(built.1));
    let o2 = o1.push(FbOp::StartTable);
    let o3 = slot_offset(o2, 4, Some(vector_offset(o1)));
    let o4 = close_table(o3, o2);
    pack_ops(o4, table_offset(o4), DATA_ANSWER_ONLINE_PLAYERS)
}

/// The views of a list of players.
pub open spec fn players_view(v: Seq<Player>) -> Seq<PlayerV> {
    v.map_values(|p: Player| p@)
}

/// The list of players: an `AnswerOnlinePlayers` with a vector (4) of `Player` tables,
/// each holding a name, a password, a score and the admin flag.
pub fn answer_online_players(players_p: &Vec<Player>) -> (res: bytes::Bytes)
    requires
        players_p@.len() < 0x1000_0000,
        forall|i: int| 0 <= i < players_p@.len() ==> player_strings_fit(#[trigger] players_p@[i]@),
    ensures
        bytes_contents(res) == finished_bytes(answer_online_players_ops(players_view(players_p@))),
{
    let mut builder = FlatBuilder::new(4096);
    let mut built_players: Vec<u32> = Vec::new();
    let ghost pv = players_view(players_p@);
    let mut i: usize = 0;
    while i < players_p.len()
        invariant
            i <= players_p@.len(),
            players_p@.len() < 0x1000_0000,
            pv == players_view(players_p@),
            forall|j: int| 0 <= j < players_p@.len() ==> player_strings_fit(#[trigger] players_p@[j]@),
            (builder_ops(builder), built_players@) == online_players_ops(
                Seq::empty(),
                pv.take(i as int),
            ),
            accepts_object(builder_ops(builder)),
            forall|j: int|
                0 <= j < built_players@.len() ==> is_handed_out(
                    builder_ops(builder),
                    #[trigger] built_players@[j],
                ),
            built_players@.len() == i,
        decreases players_p@.len() - i,
    {
        let player = &players_p[i];
        assert(player_strings_fit(players_p@[i as int]@));
        let ghost ops0 = builder_ops(builder);
        let fplayer_name = builder.create_string(player.name.as_str());
        let fplayer_password = builder.create_string(player.password.as_str());
        let ghost ops2 = builder_ops(builder);
        let args = PlayerArgs {
            name: Some(fplayer_name),
            auth_token: None,
            password: Some(fplayer_password),
            score: player.score,
            is_admin: player.is_admin,
            referral: 0,
        };
        let fplayer = player_table(&mut builder, &args);
        proof {
            assert(extends(ops2, ops0)) by {
                assert(ops2.take(ops0.len() as int) =~= ops0);
            }
            lemma_extends_trans(ops0, ops2, builder_ops(builder));
            lemma_all_handed_out_extends(ops0, builder_ops(builder), built_players@);
            assert(pv.take(i + 1).drop_last() =~= pv.take(i as int));
            assert(pv.take(i + 1).last() == player@);
        }
        built_players.push(fplayer);
        i = i + 1;
    }
    proof {
        assert(pv.take(players_p@.len() as int) =~= pv);
    }
    let flat_players = builder.create_offset_vector(&built_players);
    let start = builder.start_table();
    builder.push_slot_offset(4, flat_players);
    let fanswer_online_players = builder.end_table(start);
    pack_data(fanswer_online_players, builder, DATA_ANSWER_ONLINE_PLAYERS)
}

/// The history of `message`.
pub open spec fn message_ops(p: PlayerV, text: Seq<char>, color: Color) -> Seq<FbOp> {
    let o1 = with_string(Seq::empty(), text);
    let o2 = player_data_ops(o1, p);
    let o3 = o2.push(FbOp::StartTable);
    let o4 = slot_offset(o3, 8, Some(table_offset(o2)));
    let o5 = slot_offset(o4, 4, Some(string_offset(o1)));
    let o6 = slot_u8(o5, 6, color_code(color));
    let o7 = close_table(o6, o3);
    pack_ops(o7, table_offset(o7), DATA_MESSAGE)
}

/// A chat message: a `Message` with the text (4), the color (6) and the sender (8).
pub fn message(player_p: &Player, text: String, color_p: Color) -> (res: bytes::Bytes)
    requires
        player_strings_fit(player_p@),
        utf8_len(text@) <= MAX_STRING_BYTES,
    ensures
        bytes_contents(res) == finished_bytes(message_ops(player_p@, text@, color_p)),
{
    let mut builder = FlatBuilder::new(512);
    let fmessage = builder.create_string(text.as_str());
    let ghost ops1 = builder_ops(builder);
    let (mut builder, fplayer) = create_player_data(player_p, builder);
    proof {
        lemma_handed_out_extends(ops1, builder_ops(builder), fmessage);
    }
    let fcolor = color_p.to_code();
    let start = builder.start_table();
    builder.push_slot_offset(8, fplayer);
    builder.push_slot_offset(4, fmessage);
    builder.push_slot_u8(6, fcolor, 0);
    let fmessage_data = builder.end_table(start);
    pack_data(fmessage_data, builder, DATA_MESSAGE)
}

/// The history after writing a `GameResult` table: hits (4), specials (6), misses (8),
/// score (10).
pub open spec fn game_result_ops(ops: Seq<FbOp>, m: MatchScore) -> Seq<FbOp> {
    let o0 = ops.push(FbOp::StartTable);
    let o1 = slot_i64(o0, 10, m.score);
    let o2 = slot_u32(o1, 8, m.misses);
    let o3 = slot_u32(o2, 6, m.specials);
    let o4 = slot_u32(o3, 4, m.hits);
    close_table(o4, o0)
}

/// The history of `send_game_score`.
pub open spec fn send_game_score_ops(p: PlayerV, m: MatchScore, score_message: Seq<char>) -> Seq<
    FbOp,
> {
    let o1 = player_data_ops(Seq::empty(), p);
    let o2 = game_result_ops(o1, m);
    let o3 = with_string(o2, score_message);
    let o4 = o3.push(FbOp::StartTable);
    let o5 = slot_offset(o4, 8, Some(string_offset(o3)));
    let o6 = slot_offset(o5, 6, Some(table_offset(o2)));
    let o7 = slot_offset(o6, 4, Some(table_offset(o1)));
    let o8 = close_table(o7, o4);
    pack_ops(o8, table_offset(o8), DATA_SEND_GAME_SCORE)
}

/// The result of a match: a `SendGameScore` with the player (4), a `GameResult` table (6)
/// and a message (8).
pub fn send_game_score(player_p: &Player, match_score: &MatchScore, score_message: String) -> (res:
    bytes::Bytes)
    requires
        player_strings_fit(player_p@),
        utf8_len(score_message@) <= MAX_STRING_BYTES,
    ensures
        bytes_contents(res) == finished_bytes(
            send_game_score_ops(player_p@, *match_score, score_message@),
        ),
{
    let builder = FlatBuilder::new(512);
    let (mut builder, fplayer) = create_player_data(player_p, builder);
    let ghost ops1 = builder_ops(builder);
    let start_result = builder.start_table();
    builder.push_slot_i64(10, match_score.score, 0);
    builder.push_slot_u32(8, match_score.misses, 0);
    builder.push_slot_u32(6, match_score.specials, 0);
    builder.push_slot_u32(4, match_score.hits, 0);
    let fgame_result = builder.end_table(start_result);
    let message = builder.create_string(score_message.as_str());
    let args = SendGameScoreArgs {
        player: Some(fplayer),
        game_result: Some(fgame_result),
        score_message: Some(message),
    };
    let (builder, score) = create(builder, &args);
    pack_data(score, builder, DATA_SEND_GAME_SCORE)
}

} // verus!
