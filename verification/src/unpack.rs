//! Turning the fields read from a received `GenericPacket` into a `PacketTypes`.
//!
//! Reading the FlatBuffers tables of a packet gives, for each message, its fields as they
//! stand in the buffer: a string or a table may be absent. This module decides which
//! message the union tag names, applies the defaults (an absent optional string reads as
//! the empty string) and maps the wire numbers of colors and login statuses to their
//! enums.
use vstd::prelude::*;
use crate::serialization::{
    players_view, DATA_ANSWER_GAME_DATA, DATA_ANSWER_ONLINE_PLAYERS, DATA_ANSWER_PLAYER,
    DATA_ASK_FOR_GAME_DATA, DATA_ASK_FOR_ONLINE_PLAYERS, DATA_ASK_FOR_PLAYER, DATA_MESSAGE,
    DATA_SEND_GAME_SCORE,
};
use crate::structures::{
    color_code, status_code, Color, MatchScore, PacketTypes, Player, PlayerV, StatusAnswerPlayer,
};

verus! {

/// The message that the union tag of a `GenericPacket` names.
#[derive(Debug, Clone, Copy, PartialEq, Eq, Structural)]
pub enum DataKind {
    AskForPlayer,
    AskForGameData,
    AskForOnlinePlayers,
    AnswerGameData,
    AnswerPlayer,
    AnswerOnlinePlayers,
    SendGameScore,
    Message,
    /// No message, or a tag that no message has.
    Unknown,
}

/// The message that a union tag names: the tags are those that the encoder writes.
pub open spec fn kind_of_tag(tag: u8) -> DataKind {
    if tag == DATA_ASK_FOR_PLAYER {
        DataKind::AskForPlayer
    } else if tag == DATA_ASK_FOR_GAME_DATA {
        DataKind::AskForGameData
    } else if tag == DATA_ASK_FOR_ONLINE_PLAYERS {
        DataKind::AskForOnlinePlayers
    } else if tag == DATA_ANSWER_GAME_DATA {
        DataKind::AnswerGameData
    } else if tag == DATA_ANSWER_PLAYER {
        DataKind::AnswerPlayer
    } else if tag == DATA_ANSWER_ONLINE_PLAYERS {
        DataKind::AnswerOnlinePlayers
    } else if tag == DATA_SEND_GAME_SCORE {
        DataKind::SendGameScore
    } else if tag == DATA_MESSAGE {
        DataKind::Message
    } else {
        DataKind::Unknown
    }
}

/// The message that the union tag of a received `GenericPacket` names.
pub fn data_kind(tag: u8) -> (k: DataKind)
    ensures
        k == kind_of_tag(tag),
{
    if tag == DATA_ASK_FOR_PLAYER {
        DataKind::AskForPlayer
    } else if tag == DATA_ASK_FOR_GAME_DATA {
        DataKind::AskForGameData
    } else if tag == DATA_ASK_FOR_ONLINE_PLAYERS {
        DataKind::AskForOnlinePlayers
    } else if tag == DATA_ANSWER_GAME_DATA {
        DataKind::AnswerGameData
    } else if tag == DATA_ANSWER_PLAYER {
        DataKind::AnswerPlayer
    } else if tag == DATA_ANSWER_ONLINE_PLAYERS {
        DataKind::AnswerOnlinePlayers
    } else if tag == DATA_SEND_GAME_SCORE {
        DataKind::SendGameScore
    } else if tag == DATA_MESSAGE {
        DataKind::Message
    } else {
        DataKind::Unknown
    }
}

/// The fields of a `Player` table as they stand in a packet; an absent string is `None`.
pub struct PlayerFields {
    pub name: Option<String>,
    pub auth_token: Option<String>,
    pub password: Option<String>,
    pub score: i64,
    pub is_admin: bool,
    pub referral: i64,
}

/// The fields of the message of a received `GenericPacket`, as they stand in the buffer:
/// an absent string or table is `None`, a color or a login status is its wire number.
pub enum PacketFields {
    AskForPlayer { name: Option<String>, password: Option<String>, referral: i64 },
    AskForGameData { player: Option<PlayerFields> },
    AskForOnlinePlayers { sequence: u32 },
    AnswerGameData { motd: Option<String>, low: u32, high: u32, games: u32 },
    AnswerPlayer { status: u8, player: Option<PlayerFields> },
    AnswerOnlinePlayers { players: Option<Vec<PlayerFields>> },
    SendGameScore {
        player: Option<PlayerFields>,
        game_result: Option<MatchScore>,
        score_message: Option<String>,
    },
    Message { text: Option<String>, color: u8, from: Option<PlayerFields> },
    /// A packet whose tag names no message.
    Unknown,
}

/// An optional string, the empty one where it is absent.
pub open spec fn or_empty(s: Option<String>) -> Seq<char> {
    match s {
        Some(s) => s@,
        None => Seq::empty(),
    }
}

/// The player that a `Player` table gives: absent strings read as empty.
pub open spec fn player_of(f: PlayerFields) -> PlayerV {
    PlayerV {
        name: or_empty(f.name),
        auth_token: or_empty(f.auth_token),
        password: or_empty(f.password),
        score: f.score,
        is_admin: f.is_admin,
        referral: f.referral,
    }
}

/// The players that a vector of `Player` tables gives.
pub open spec fn players_of(v: Seq<PlayerFields>) -> Seq<PlayerV> {
    v.map_values(|f: PlayerFields| player_of(f))
}

/// Whether a `Player` table is there and holds the name, which the schema requires.
pub open spec fn player_complete(f: Option<PlayerFields>) -> bool {
    f matches Some(pf) && pf.name is Some
}

/// Whether the fields hold what decoding takes for granted: the fields that the schema
/// requires (a login request's name and password, every player table that a message
/// holds and its name, the list of players, a match's result, a chat message's text), and
/// a login status and a color that have a wire number.
pub open spec fn fields_complete(f: PacketFields) -> bool {
    match f {
        PacketFields::AskForPlayer { name, password, .. } => name is Some && password is Some,
        PacketFields::AskForGameData { player } => player_complete(player),
        PacketFields::AnswerPlayer { status, player } => status <= 3 && player_complete(player),
        PacketFields::AnswerOnlinePlayers { players } => players matches Some(v) && forall|i: int|
            0 <= i < v@.len() ==> (#[trigger] v@[i]).name is Some,
        PacketFields::SendGameScore { player, game_result, .. } => player_complete(player)
            && game_result is Some,
        PacketFields::Message { text, color, from } => text is Some && color <= 2
            && player_complete(from),
        _ => true,
    }
}

/// Whether `p` is the packet that the fields give: each string as it stands or empty
/// where it is absent, each number as it stands, and the color and the status that
/// their wire numbers stand for.
pub open spec fn decoded_as(p: PacketTypes, f: PacketFields) -> bool {
    match f {
        PacketFields::AskForPlayer { name, password, referral } => {
            &&& p matches PacketTypes::AskForPlayer { name: n, password: w, referral: r }
            &&& n@ == or_empty(name)
            &&& w@ == or_empty(password)
            &&& r == referral
        },
        PacketFields::AskForGameData { player } => {
            &&& p matches PacketTypes::AskForGameData { player: q }
            &&& q@ == player_of(player->0)
        },
        PacketFields::AskForOnlinePlayers { sequence } => {
            &&& p matches PacketTypes::AskForOnlinePlayers { sequence_p: s }
            &&& s == sequence
        },
        PacketFields::AnswerGameData { motd, low, high, games } => {
            &&& p matches PacketTypes::AnswerGameData { motd: m, low: l, high: h, games: g }
            &&& m@ == or_empty(motd)
            &&& l == low
            &&& h == high
            &&& g == games
        },
        PacketFields::AnswerPlayer { status, player } => {
            &&& p matches PacketTypes::AnswerPlayer { status: s, player: q }
            &&& status_code(s) == status
            &&& q@ == player_of(player->0)
        },
        PacketFields::AnswerOnlinePlayers { players } => {
            &&& p matches PacketTypes::AnswerOnlinePlayers { players: ps }
            &&& players_view(ps@) == players_of(players->0@)
        },
        PacketFields::SendGameScore { player, game_result, score_message } => {
            &&& p matches PacketTypes::SendGameScore {
                player: q,
                game_result: m,
                score_message: s,
            }
            &&& q@ == player_of(player->0)
            &&& m == game_result->0
            &&& s@ == or_empty(score_message)
        },
        PacketFields::Message { text, color, from } => {
            &&& p matches PacketTypes::Message { text: t, color: c, from: q }
            &&& t@ == or_empty(text)
            &&& color_code(c) == color
            &&& q@ == player_of(from->0)
        },
        PacketFields::Unknown => p is Nothing,
    }
}

/// An optional string, or the empty string where it is absent.
fn string_or_empty(s: Option<String>) -> (r: String)
    ensures
        r@ == or_empty(s),
{
    match s {
        Some(s) => s,
        None => String::new(),
    }
}

/// The player that a `Player` table gives.
fn player_from_fields(f: PlayerFields) -> (p: Player)
    ensures
        p@ == player_of(f),
{
    Player {
        name: string_or_empty(f.name),
        auth_token: string_or_empty(f.auth_token),
        password: string_or_empty(f.password),
        score: f.score,
        is_admin: f.is_admin,
        referral: f.referral,
    }
}

/// The players that a vector of `Player` tables gives, in order.
fn players_from_fields(v: Vec<PlayerFields>) -> (ps: Vec<Player>)
    ensures
        players_view(ps@) == players_of(v@),
{
    let ghost fields = v@;
    let mut rest = v;
    let mut out: Vec<Player> = Vec::new();
    let mut taken: Vec<Player> = Vec::new();
    // The tables are taken from the back; `taken` holds them in reverse.
    while rest.len() > 0
        invariant
            rest@.len() + taken@.len() == fields.len(),
            rest@ == fields.take(rest@.len() as int),
            forall|i: int|
                0 <= i < taken@.len() ==> (#[trigger] taken@[i])@ == player_of(
                    fields[fields.len() - 1 - i],
                ),
        decreases rest@.len(),
    {
        let f = rest.pop().unwrap();
        let p = player_from_fields(f);
        taken.push(p);
    }
    while taken.len() > 0
        invariant
            out@.len() + taken@.len() == fields.len(),
            forall|i: int|
                0 <= i < taken@.len() ==> (#[trigger] taken@[i])@ == player_of(
                    fields[fields.len() - 1 - i],
                ),
            forall|i: int| 0 <= i < out@.len() ==> (#[trigger] out@[i])@ == player_of(fields[i]),
        decreases taken@.len(),
    {
        let p = taken.pop().unwrap();
        let ghost k = out@.len() as int;
        assert(p@ == player_of(fields[k]));
        out.push(p);
    }
    assert(players_view(out@) =~= players_of(fields));
    out
}

impl PacketFields {
    /// Whether the fields hold what decoding takes for granted (`fields_complete`).
    pub fn is_complete(&self) -> (b: bool)
        ensures
            b == fields_complete(*self),
    {
        match self {
            PacketFields::AskForPlayer { name, password, .. } => name.is_some()
                && password.is_some(),
            PacketFields::AskForGameData { player } => player_fields_complete(player),
            PacketFields::AnswerPlayer { status, player } => *status <= 3
                && player_fields_complete(player),
            PacketFields::AnswerOnlinePlayers { players } => match players {
                Some(v) => {
                    let mut i: usize = 0;
                    let mut all = true;
                    while i < v.len()
                        invariant
                            i <= v@.len(),
                            all == forall|j: int| 0 <= j < i ==> (#[trigger] v@[j]).name is Some,
                        decreases v@.len() - i,
                    {
                        if v[i].name.is_none() {
                            all = false;
                        }
                        i = i + 1;
                    }
                    all
                },
                None => false,
            },
            PacketFields::SendGameScore { player, game_result, .. } => player_fields_complete(
                player,
            ) && game_result.is_some(),
            PacketFields::Message { text, color, from } => text.is_some() && *color <= 2
                && player_fields_complete(from),
            _ => true,
        }
    }
}

/// Whether a `Player` table is there and holds its name.
fn player_fields_complete(f: &Option<PlayerFields>) -> (b: bool)
    ensures
        b == player_complete(*f),
{
    match f {
        Some(pf) => pf.name.is_some(),
        None => false,
    }
}

/// The packet that the fields of a received message give (`decoded_as`): absent optional
/// strings read as empty, and the wire numbers of a color and a login status become the
/// enums.
pub fn packet_from_fields(f: PacketFields) -> (p: PacketTypes)
    requires
        fields_complete(f),
    ensures
        decoded_as(p, f),
{
    match f {
        PacketFields::AskForPlayer { name, password, referral } => PacketTypes::AskForPlayer {
            name: string_or_empty(name),
            password: string_or_empty(password),
            referral,
        },
        PacketFields::AskForGameData { player } => PacketTypes::AskForGameData {
            player: player_from_fields(player.unwrap()),
        },
        PacketFields::AskForOnlinePlayers { sequence } => PacketTypes::AskForOnlinePlayers {
            sequence_p: sequence,
        },
        PacketFields::AnswerGameData { motd, low, high, games } => PacketTypes::AnswerGameData {
            motd: string_or_empty(motd),
            low,
            high,
            games,
        },
        PacketFields::AnswerPlayer { status, player } => {
            let s = StatusAnswerPlayer::from_code(status).unwrap();
            PacketTypes::AnswerPlayer { status: s, player: player_from_fields(player.unwrap()) }
        },
        PacketFields::AnswerOnlinePlayers { players } => PacketTypes::AnswerOnlinePlayers {
            players: players_from_fields(players.unwrap()),
        },
        PacketFields::SendGameScore { player, game_result, score_message } => {
            PacketTypes::SendGameScore {
                player: player_from_fields(player.unwrap()),
                game_result: game_result.unwrap(),
                score_message: string_or_empty(score_message),
            }
        },
        PacketFields::Message { text, color, from } => {
            let c = Color::from_code(color).unwrap();
            PacketTypes::Message {
                text: string_or_empty(text),
                color: c,
                from: player_from_fields(from.unwrap()),
            }
        },
        PacketFields::Unknown => PacketTypes::Nothing,
    }
}

/// Whether a decoded player carries the fields of a `Player` table: each string as it
/// stands (empty where absent), and the same score, admin flag and referral code.
pub open spec fn carries_fields(q: PlayerV, f: PlayerFields) -> bool {
    &&& q.name == (if f.name is Some {
        f.name->0@
    } else {
        Seq::<char>::empty()
    })
    &&& q.auth_token == (if f.auth_token is Some {
        f.auth_token->0@
    } else {
        Seq::<char>::empty()
    })
    &&& q.password == (if f.password is Some {
        f.password->0@
    } else {
        Seq::<char>::empty()
    })
    &&& q.score == f.score
    &&& q.is_admin == f.is_admin
    &&& q.referral == f.referral
}

/// Decoding keeps every field of every player table that a message holds: the player of
/// a game-data request, of a login answer, of a reported score and of a chat message, and
/// each player of a list, in order.
pub proof fn lemma_decoding_keeps_player_fields(p: PacketTypes, f: PacketFields)
    requires
        decoded_as(p, f),
        fields_complete(f),
    ensures
        f matches PacketFields::AskForGameData { player } ==> (p matches PacketTypes::AskForGameData {
            player: q,
        } && carries_fields(q@, player->0)),
        f matches PacketFields::AnswerPlayer { player, .. } ==> (p matches PacketTypes::AnswerPlayer {
            player: q,
            ..
        } && carries_fields(q@, player->0)),
        f matches PacketFields::SendGameScore { player, .. } ==> (p matches PacketTypes::SendGameScore {
            player: q,
            ..
        } && carries_fields(q@, player->0)),
        f matches PacketFields::Message { from, .. } ==> (p matches PacketTypes::Message {
            from: q,
            ..
        } && carries_fields(q@, from->0)),
        f matches PacketFields::AnswerOnlinePlayers { players } ==> (
        p matches PacketTypes::AnswerOnlinePlayers { players: ps } && ps@.len()
            == players->0@.len() && forall|i: int|
            0 <= i < ps@.len() ==> carries_fields(#[trigger] ps@[i]@, players->0@[i])),
{
    match f {
        PacketFields::AnswerOnlinePlayers { players } => {
            match p {
                PacketTypes::AnswerOnlinePlayers { players: ps } => {
                    let v = players->0@;
                    assert(players_view(ps@).len() == ps@.len());
                    assert(players_of(v).len() == v.len());
                    assert forall|i: int| 0 <= i < ps@.len() implies carries_fields(
                        #[trigger] ps@[i]@,
                        v[i],
                    ) by {
                        assert(players_view(ps@)[i] == ps@[i]@);
                        assert(players_of(v)[i] == player_of(v[i]));
                    }
                },
                _ => {},
            }
        },
        _ => {},
    }
}

} // verus!
