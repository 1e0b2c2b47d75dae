//! The values that the game's packets carry.
use vstd::prelude::*;

verus! {

/// The result of a match: how many guesses hit, missed in a special way, or missed,
/// and the score that they add up to.
#[derive(Debug)]
pub struct MatchScore {
    pub hits: u32,
    pub specials: u32,
    pub misses: u32,
    pub score: i64,
}

impl Default for MatchScore {
    fn default() -> (m: Self)
        ensures
            m.hits == 0 && m.specials == 0 && m.misses == 0 && m.score == 0,
    {
        MatchScore { hits: 0, specials: 0, misses: 0, score: 0 }
    }
}

/// What a `Player` holds, with its strings taken as sequences of characters.
pub struct PlayerV {
    pub name: Seq<char>,
    pub auth_token: Seq<char>,
    pub password: Seq<char>,
    pub score: i64,
    pub is_admin: bool,
    pub referral: i64,
}

/// The player with empty strings, no score and no rights.
pub open spec fn empty_player() -> PlayerV {
    PlayerV {
        name: Seq::empty(),
        auth_token: Seq::empty(),
        password: Seq::empty(),
        score: 0,
        is_admin: false,
        referral: 0,
    }
}

/// A player account as the server stores it and as packets carry it.
#[derive(Debug)]
pub struct Player {
    pub name: String,
    pub auth_token: String,
    pub password: String,
    pub score: i64,
    pub is_admin: bool,
    pub referral: i64,
}

impl View for Player {
    type V = PlayerV;

    open spec fn view(&self) -> PlayerV {
        PlayerV {
            name: self.name@,
            auth_token: self.auth_token@,
            password: self.password@,
            score: self.score,
            is_admin: self.is_admin,
            referral: self.referral,
        }
    }
}

impl Default for Player {
    fn default() -> (p: Self)
        ensures
            p@ == empty_player(),
    {
        Player {
            name: String::new(),
            auth_token: String::new(),
            password: String::new(),
            score: 0,
            is_admin: false,
            referral: 0,
        }
    }
}

impl Clone for Player {
    fn clone(&self) -> (p: Self)
        ensures
            p@ == self@,
    {
        Player {
            name: self.name.clone(),
            auth_token: self.auth_token.clone(),
            password: self.password.clone(),
            score: self.score,
            is_admin: self.is_admin,
            referral: self.referral,
        }
    }
}

/// The color of a chat message.
#[derive(Debug, Clone, Copy, PartialEq, Eq, Structural)]
pub enum Color {
    Red,
    Green,
    Blue,
}

/// How the server answered a login request.
#[derive(Debug, Clone, Copy, PartialEq, Eq, Structural)]
pub enum StatusAnswerPlayer {
    OkNew,
    OkLogin,
    Denied,
    Failure,
}

/// The number of a color on the wire.
pub open spec fn color_code(c: Color) -> u8 {
    match c {
        Color::Red => 0,
        Color::Green => 1,
        Color::Blue => 2,
    }
}

/// The number of a login status on the wire.
pub open spec fn status_code(s: StatusAnswerPlayer) -> u8 {
    match s {
        StatusAnswerPlayer::OkNew => 0,
        StatusAnswerPlayer::OkLogin => 1,
        StatusAnswerPlayer::Denied => 2,
        StatusAnswerPlayer::Failure => 3,
    }
}

/// Each color has its own wire number, and every number of a color is below 3: the
/// color that `from_code` reads for the number that `to_code` writes is the color written.
pub proof fn lemma_color_codes(a: Color, b: Color)
    ensures
        color_code(a) <= 2,
        color_code(a) == color_code(b) ==> a == b,
{
}

/// Each login status has its own wire number, and every number of a status is below 4:
/// the status that `from_code` reads for the number that `to_code` writes is the status
/// written.
pub proof fn lemma_status_codes(a: StatusAnswerPlayer, b: StatusAnswerPlayer)
    ensures
        status_code(a) <= 3,
        status_code(a) == status_code(b) ==> a == b,
{
}

impl Color {
    /// The number that stands for this color on the wire.
    pub fn to_code(&self) -> (n: u8)
        ensures
            n == color_code(*self),
    {
        match self {
            Color::Red => 0,
            Color::Green => 1,
            Color::Blue => 2,
        }
    }

    /// The color that a number stands for, if any.
    pub fn from_code(n: u8) -> (c: Option<Color>)
        ensures
            match c {
                Some(c) => color_code(c) == n,
                None => n > 2,
            },
    {
        if n == 0 {
            Some(Color::Red)
        } else if n == 1 {
            Some(Color::Green)
        } else if n == 2 {
            Some(Color::Blue)
        } else {
            None
        }
    }
}

impl StatusAnswerPlayer {
    /// The number that stands for this status on the wire.
    pub fn to_code(&self) -> (n: u8)
        ensures
            n == status_code(*self),
    {
        match self {
            StatusAnswerPlayer::OkNew => 0,
            StatusAnswerPlayer::OkLogin => 1,
            StatusAnswerPlayer::Denied => 2,
            StatusAnswerPlayer::Failure => 3,
        }
    }

    /// The status that a number stands for, if any.
    pub fn from_code(n: u8) -> (s: Option<StatusAnswerPlayer>)
        ensures
            match s {
                Some(s) => status_code(s) == n,
                None => n > 3,
            },
    {
        if n == 0 {
            Some(StatusAnswerPlayer::OkNew)
        } else if n == 1 {
            Some(StatusAnswerPlayer::OkLogin)
        } else if n == 2 {
            Some(StatusAnswerPlayer::Denied)
        } else if n == 3 {
            Some(StatusAnswerPlayer::Failure)
        } else {
            None
        }
    }
}

/// A decoded packet.
#[derive(Debug)]
pub enum PacketTypes {
    AskForPlayer { name: String, password: String, referral: i64 },
    AskForGameData { player: Player },
    AskForOnlinePlayers { sequence_p: u32 },
    AnswerPlayer { status: StatusAnswerPlayer, player: Player },
    AnswerOnlinePlayers { players: Vec<Player> },
    AnswerGameData { motd: String, low: u32, high: u32, games: u32 },
    Message { text: String, color: Color, from: Player },
    SendGameScore { player: Player, game_result: MatchScore, score_message: String },
    Nothing,
}

/// The raw packets that wait in a queue, each one a buffer of bytes.
pub type Packets = Vec<bytes::Bytes>;

} // verus!
