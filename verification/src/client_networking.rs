//! The client's records of a player and its matches, with the chat and score calls that
//! take them, and a login request written as a buffer of its own.
use vstd::prelude::*;
use crate::flatbuf::{
    finished_bytes, group_history_push, string_offset, table_offset, utf8_len, FbOp,
    FlatBuilder, MAX_STRING_BYTES,
};
use crate::serialization::{close_table, slot_offset, with_string};

verus! {

broadcast use group_history_push;

/// A match result as the client records it.
#[derive(Debug)]
pub struct MatchScore {
    pub hits: i32,
    pub specials: i32,
    pub misses: i32,
    pub score: i32,
}

/// A player as the client records it: a name and the results of its matches.
#[derive(Debug)]
pub struct Player {
    pub name: String,
    pub game_scores: Vec<MatchScore>,
}

/// Sends a chat message for a player; this version of the client sends nothing and
/// leaves the player as it is.
pub fn send_message(player: &Player, message: String) {
}

/// Sends the score of a player; this version of the client sends nothing and leaves the
/// player as it is.
pub fn send_score(player: &Player) {
}

/// The history of `ask_for_player`: the name and the password as strings, then an
/// `AskForPlayer` table with the password (6) and the name (4), made the root.
pub open spec fn ask_for_player_table_ops(name: Seq<char>, password: Seq<char>) -> Seq<FbOp> {
    let o1 = with_string(Seq::empty(), name);
    let o2 = with_string(o1, password);
    let o3 = o2.push(FbOp::StartTable);
    let o4 = slot_offset(o3, 6, Some(string_offset(o2)));
    let o5 = slot_offset(o4, 4, Some(string_offset(o1)));
    let o6 = close_table(o5, o3);
    o6.push(FbOp::Finish(table_offset(o6)))
}

/// A login request as a buffer of its own: an `AskForPlayer` table with the name and
/// the password as the root, not wrapped in a `GenericPacket`.
pub fn ask_for_player(name: &String, password: &String) -> (buf: Vec<u8>)
    requires
        utf8_len(name@) <= MAX_STRING_BYTES,
        utf8_len(password@) <= MAX_STRING_BYTES,
    ensures
        buf@ == finished_bytes(ask_for_player_table_ops(name@, password@)),
{
    let mut builder = FlatBuilder::new(512);
    let fname = builder.create_string(name.as_str());
    let fpassword = builder.create_string(password.as_str());
    let start = builder.start_table();
    builder.push_slot_offset(6, fpassword);
    builder.push_slot_offset(4, fname);
    let afp_packet = builder.end_table(start);
    builder.finish(afp_packet);
    builder.finished_data()
}

} // verus!
