//! The decisions of the game server: logins and registrations, the validation of reported
//! scores, and the ranking of the players.
use vstd::prelude::*;
use vstd::multiset::Multiset;
use crate::chance::random_in;
use crate::flatbuf::{finished_bytes, lemma_utf8_len_bound, utf8_len, MAX_STRING_BYTES};
use crate::framing::{bytes_contents, bytes_from_vec, contents_of};
use vstd::slice::slice_to_vec;
use crate::serialization::{
    answer_game_data, answer_game_data_ops, answer_online_players, answer_online_players_ops,
    answer_player, answer_player_ops, player_strings_fit, players_view,
};
use crate::structures::{empty_player, MatchScore, PacketTypes, Packets, Player, PlayerV, StatusAnswerPlayer};
use crate::text::{decimal, lemma_decimal_len, u32_to_decimal};

verus! {

/// The lowest number of the game.
pub const ST_LOW: u32 = 1;

/// The bound above the highest number of the game.
pub const ST_HIGH: u32 = 10;

/// The number of rounds of a match.
pub const ST_GAMES: u32 = 5;

/// The longest name, in bytes, that the server registers.
pub const MAX_NAME_BYTES: usize = 16;

/// The score at which the server stores the players at once.
pub const SAVE_SCORE: i64 = 2776;

/// The score of a newly registered player.
pub const NEW_PLAYER_SCORE: i64 = -2000;

/// The bound above the numbers that login tokens spell.
pub const TOKEN_BOUND: u32 = 9999999;

/// The score shown in the ranking for a high score held with a long password.
pub const CAPPED_SCORE: i64 = 4321;

/// Whether no two players share a name.
pub open spec fn names_unique(s: Seq<PlayerV>) -> bool {
    forall|i: int, j: int|
        0 <= i < s.len() && 0 <= j < s.len() && i != j ==> (#[trigger] s[i]).name != (
        #[trigger] s[j]).name
}

/// Whether a list of players can be the contents of a `PlayerDb`: the names are unique
/// and every string fits a packet.
pub open spec fn db_wf(s: Seq<PlayerV>) -> bool {
    &&& names_unique(s)
    &&& forall|i: int| 0 <= i < s.len() ==> player_strings_fit(#[trigger] s[i])
}

/// Whether a player of this name is in the list.
pub open spec fn has_player(s: Seq<PlayerV>, name: Seq<char>) -> bool {
    exists|i: int| 0 <= i < s.len() && (#[trigger] s[i]).name == name
}

/// The position of the player of this name.
pub open spec fn player_index(s: Seq<PlayerV>, name: Seq<char>) -> int {
    choose|i: int| 0 <= i < s.len() && (#[trigger] s[i]).name == name
}

/// In a list with unique names, a player of a name stands at the position of that name.
pub proof fn lemma_player_index(s: Seq<PlayerV>, i: int)
    requires
        names_unique(s),
        0 <= i < s.len(),
    ensures
        has_player(s, s[i].name),
        player_index(s, s[i].name) == i,
{
    let name = s[i].name;
    assert(has_player(s, name));
    let j = player_index(s, name);
    if j != i {
        assert(s[j].name != s[i].name);
    }
}

/// The list after storing a player under its name, as `HashMap::insert` keyed by the
/// name does: it replaces a player of the same name, or comes last.
pub open spec fn insert_spec(s: Seq<PlayerV>, p: PlayerV) -> Seq<PlayerV> {
    if has_player(s, p.name) {
        s.update(player_index(s, p.name), p)
    } else {
        s.push(p)
    }
}

/// The player with a new login token.
pub open spec fn with_token(p: PlayerV, token: Seq<char>) -> PlayerV {
    PlayerV { auth_token: token, ..p }
}

/// The player that a registration makes.
pub open spec fn new_player(name: Seq<char>, password: Seq<char>, token: Seq<char>) -> PlayerV {
    PlayerV {
        name,
        password,
        auth_token: token,
        score: NEW_PLAYER_SCORE,
        is_admin: false,
        referral: 0,
    }
}

/// What a login request does to the players, which player is answered, and with which
/// status, given the server's referral code and a fresh token.
///
/// A name longer than 16 bytes fails. A known name with a wrong password is denied. A
/// known name with its password logs in: the player gets the token, and an admin is
/// shown the server's referral code. An unknown name is registered when the request
/// carries the server's referral code, and fails otherwise.
pub open spec fn login_spec(
    db: Seq<PlayerV>,
    referral_server: i64,
    name: Seq<char>,
    password: Seq<char>,
    referral: i64,
    token: Seq<char>,
) -> (Seq<PlayerV>, PlayerV, StatusAnswerPlayer) {
    if utf8_len(name) > MAX_NAME_BYTES {
        (db, empty_player(), StatusAnswerPlayer::Failure)
    } else if has_player(db, name) {
        let i = player_index(db, name);
        let p = db[i];
        if p.password != password {
            (db, empty_player(), StatusAnswerPlayer::Denied)
        } else {
            let q = with_token(p, token);
            let reply = if p.is_admin {
                PlayerV { referral: referral_server, ..q }
            } else {
                q
            };
            (db.update(i, q), reply, StatusAnswerPlayer::OkLogin)
        }
    } else if referral_server == referral {
        let q = new_player(name, password, token);
        (db.push(q), q, StatusAnswerPlayer::OkNew)
    } else {
        (db, empty_player(), StatusAnswerPlayer::Failure)
    }
}

/// The score that the server expects for the counts of a match: 111 per hit, 31 per
/// special miss, minus 23 per miss, raised to the next even number when odd.
pub open spec fn validated_score(m: MatchScore) -> int {
    let v = m.hits * 111 + m.specials * 31 - m.misses * 23;
    if v % 2 == 0 {
        v
    } else {
        v + 1
    }
}

/// Whether a reported match result is believed: its score is the expected one and it
/// has at most five hits per number of the game.
pub open spec fn score_accepted(m: MatchScore) -> bool {
    validated_score(m) == m.score && m.hits <= ST_HIGH * 5
}

/// What came of a reported match result.
#[derive(Debug, Clone, Copy, PartialEq, Eq, Structural)]
pub enum ScoreOutcome {
    /// No player has that name.
    UnknownPlayer,
    /// The counts do not give the reported score, or there are too many hits.
    Fake,
    /// The token does not match the player's.
    WrongToken,
    /// The score is not above the player's high score.
    NotHigher,
    /// The score is the player's new high score.
    NewHighscore,
}

/// What a reported match result does to the players, and what came of it.
pub open spec fn record_score_spec(db: Seq<PlayerV>, player: PlayerV, m: MatchScore) -> (Seq<
    PlayerV,
>, ScoreOutcome) {
    if !has_player(db, player.name) {
        (db, ScoreOutcome::UnknownPlayer)
    } else {
        let i = player_index(db, player.name);
        if !score_accepted(m) {
            (db, ScoreOutcome::Fake)
        } else if player.auth_token != db[i].auth_token {
            (db, ScoreOutcome::WrongToken)
        } else if db[i].score < m.score {
            (db.update(i, PlayerV { score: m.score, ..db[i] }), ScoreOutcome::NewHighscore)
        } else {
            (db, ScoreOutcome::NotHigher)
        }
    }
}

/// Whether the server stores the players after this outcome of a reported score: a new
/// high score of at least 2776.
pub open spec fn score_needs_save(o: ScoreOutcome, m: MatchScore) -> bool {
    o == ScoreOutcome::NewHighscore && m.score >= SAVE_SCORE
}

/// The players of the server, each under its own name.
pub struct PlayerDb {
    players: Vec<Player>,
}

impl View for PlayerDb {
    type V = Seq<PlayerV>;

    closed spec fn view(&self) -> Seq<PlayerV> {
        players_view(self.players@)
    }
}

impl PlayerDb {
    #[verifier::type_invariant]
    closed spec fn inv(self) -> bool {
        db_wf(players_view(self.players@))
    }

    /// Replaces the player at a position by one of the same name.
    fn set_player(&mut self, i: usize, p: Player)
        requires
            i < old(self)@.len(),
            p@.name == old(self)@[i as int].name,
            player_strings_fit(p@),
        ensures
            final(self)@ == old(self)@.update(i as int, p@),
    {
        proof {
            use_type_invariant(&*self);
        }
        let ghost s = self@;
        let mut v: Vec<Player> = Vec::new();
        std::mem::swap(&mut v, &mut self.players);
        v.set(i, p);
        assert(players_view(v@) =~= s.update(i as int, p@));
        self.players = v;
    }

    /// Appends a player whose name is not taken.
    fn push_player(&mut self, p: Player)
        requires
            !has_player(old(self)@, p@.name),
            player_strings_fit(p@),
        ensures
            final(self)@ == old(self)@.push(p@),
    {
        proof {
            use_type_invariant(&*self);
        }
        let ghost s = self@;
        let mut v: Vec<Player> = Vec::new();
        std::mem::swap(&mut v, &mut self.players);
        v.push(p);
        assert(players_view(v@) =~= s.push(p@));
        self.players = v;
    }

    /// No players.
    pub fn new() -> (db: PlayerDb)
        ensures
            db@ == Seq::<PlayerV>::empty(),
    {
        let db = PlayerDb { players: Vec::new() };
        assert(players_view(db.players@) =~= Seq::<PlayerV>::empty());
        db
    }

    /// The number of players.
    pub fn len(&self) -> (n: usize)
        ensures
            n == self@.len(),
            db_wf(self@),
    {
        proof {
            use_type_invariant(self);
        }
        self.players.len()
    }

    /// The player at a position.
    pub fn get(&self, i: usize) -> (p: &Player)
        requires
            i < self@.len(),
        ensures
            p@ == self@[i as int],
    {
        &self.players[i]
    }

    /// The players, in the order they are stored.
    pub fn players(&self) -> (v: &Vec<Player>)
        ensures
            players_view(v@) == self@,
    {
        &self.players
    }

    /// The position of the player of this name, if there is one.
    pub fn find(&self, name: &String) -> (r: Option<usize>)
        ensures
            match r {
                Some(i) => i < self@.len() && self@[i as int].name == name@ && player_index(
                    self@,
                    name@,
                ) == i,
                None => !has_player(self@, name@),
            },
    {
        proof {
            use_type_invariant(self);
        }
        let mut i: usize = 0;
        while i < self.players.len()
            invariant
                i <= self@.len(),
                self@ == players_view(self.players@),
                names_unique(self@),
                forall|k: int| 0 <= k < i ==> (#[trigger] self@[k]).name != name@,
            decreases self@.len() - i,
        {
            if self.players[i].name == *name {
                proof {
                    lemma_player_index(self@, i as int);
                }
                return Some(i);
            }
            i = i + 1;
        }
        None
    }

    /// Stores a player under its name, replacing a player of the same name.
    pub fn insert(&mut self, p: Player)
        requires
            player_strings_fit(p@),
        ensures
            final(self)@ == insert_spec(old(self)@, p@),
            db_wf(final(self)@),
    {
        proof {
            use_type_invariant(&*self);
        }
        let ghost s = self@;
        match self.find(&p.name) {
            Some(i) => {
                self.set_player(i, p);
                assert(self@ =~= s.update(i as int, p@));
            },
            None => {
                self.push_player(p);
                assert(self@ =~= s.push(p@));
            },
        }
    }

    /// Decides a login request with the given fresh token, as `login_spec` says.
    pub fn login(
        &mut self,
        name: &String,
        password: &String,
        referral: i64,
        referral_server: i64,
        token: String,
    ) -> (r: (Player, StatusAnswerPlayer))
        requires
            utf8_len(password@) <= MAX_STRING_BYTES,
            utf8_len(token@) <= MAX_STRING_BYTES,
        ensures
            (final(self)@, r.0@, r.1) == login_spec(
                old(self)@,
                referral_server,
                name@,
                password@,
                referral,
                token@,
            ),
            db_wf(final(self)@),
    {
        proof {
            use_type_invariant(&*self);
        }
        let ghost s = self@;
        let name_bytes = name.as_str().as_bytes().len();
        if name_bytes > MAX_NAME_BYTES {
            return (Player::default(), StatusAnswerPlayer::Failure);
        }
        assert(utf8_len(name@) <= MAX_NAME_BYTES);
        match self.find(name) {
            Some(i) => {
                if !(self.players[i].password == *password) {
                    return (Player::default(), StatusAnswerPlayer::Denied);
                }
                let mut p = self.players[i].clone();
                p.auth_token = token;
                let mut reply = p.clone();
                if reply.is_admin {
                    reply.referral = referral_server;
                }
                self.set_player(i, p);
                assert(self@ =~= s.update(i as int, with_token(s[i as int], token@)));
                (reply, StatusAnswerPlayer::OkLogin)
            },
            None => {
                if referral_server == referral {
                    let new_plr = Player {
                        name: name.clone(),
                        password: password.clone(),
                        auth_token: token,
                        score: NEW_PLAYER_SCORE,
                        is_admin: false,
                        referral: 0,
                    };
                    let reply = new_plr.clone();
                    proof {
                        lemma_utf8_len_bound(name@);
                    }
                    self.push_player(new_plr);
                    assert(self@ =~= s.push(reply@));
                    (reply, StatusAnswerPlayer::OkNew)
                } else {
                    (Player::default(), StatusAnswerPlayer::Failure)
                }
            },
        }
    }

    /// Records a reported match result, as `record_score_spec` says.
    pub fn record_score(&mut self, player: &Player, game_result: &MatchScore) -> (o: ScoreOutcome)
        ensures
            (final(self)@, o) == record_score_spec(old(self)@, player@, *game_result),
            db_wf(final(self)@),
    {
        proof {
            use_type_invariant(&*self);
        }
        let ghost s = self@;
        match self.find(&player.name) {
            None => ScoreOutcome::UnknownPlayer,
            Some(i) => {
                let mut validate: i64 = (game_result.hits as i64) * 111 + (
                game_result.specials as i64) * 31 - (game_result.misses as i64) * 23;
                validate = validate + if validate % 2 == 0 {
                    0
                } else {
                    1
                };
                if validate != game_result.score || game_result.hits > ST_HIGH * 5 {
                    ScoreOutcome::Fake
                } else if !(player.auth_token == self.players[i].auth_token) {
                    ScoreOutcome::WrongToken
                } else if self.players[i].score < game_result.score {
                    let mut p = self.players[i].clone();
                    p.score = game_result.score;
                    self.set_player(i, p);
                    assert(self@ =~= s.update(
                        i as int,
                        PlayerV { score: game_result.score, ..s[i as int] },
                    ));
                    ScoreOutcome::NewHighscore
                } else {
                    ScoreOutcome::NotHigher
                }
            },
        }
    }
}

/// A player's reply always fits a packet when the players, the password and the token do.
proof fn lemma_login_reply_fits(
    db: Seq<PlayerV>,
    referral_server: i64,
    name: Seq<char>,
    password: Seq<char>,
    referral: i64,
    token: Seq<char>,
)
    requires
        db_wf(db),
        utf8_len(password) <= MAX_STRING_BYTES,
        utf8_len(token) <= MAX_STRING_BYTES,
    ensures
        player_strings_fit(login_spec(db, referral_server, name, password, referral, token).1),
{
    if utf8_len(name) <= MAX_NAME_BYTES && has_player(db, name) {
        let i = player_index(db, name);
        assert(player_strings_fit(db[i]));
    }
}

/// Answers a login request: decides it with a fresh random token (the decimal digits of a
/// number below 9999999), as `login_spec` says, and encodes the answer.
pub fn ask_for_player_handle(
    name: String,
    password: String,
    referral: i64,
    players: &mut PlayerDb,
    referral_server: i64,
) -> (reply: bytes::Bytes)
    requires
        utf8_len(password@) <= MAX_STRING_BYTES,
    ensures
        exists|n: nat|
            #![trigger decimal(n)]
            n < TOKEN_BOUND && {
                let r = login_spec(
                    old(players)@,
                    referral_server,
                    name@,
                    password@,
                    referral,
                    decimal(n),
                );
                &&& final(players)@ == r.0
                &&& bytes_contents(reply) == finished_bytes(answer_player_ops(r.1, r.2))
            },
        db_wf(final(players)@),
{
    let n = random_in(0, TOKEN_BOUND);
    let val = u32_to_decimal(n);
    proof {
        lemma_decimal_len(n as nat);
        lemma_utf8_len_bound(val@);
    }
    let len = players.len();
    let ghost old_db = players@;
    let (ret_player, status) = players.login(&name, &password, referral, referral_server, val);
    proof {
        lemma_login_reply_fits(old_db, referral_server, name@, password@, referral, decimal(n as nat));
    }
    answer_player(&ret_player, &status)
}

/// Handles a reported match result, as `record_score_spec` says. Whether the players are
/// to be stored follows from the outcome (`score_needs_save`).
pub fn recieve_score(
    player: Player,
    game_result: MatchScore,
    score_message: String,
    players: &mut PlayerDb,
) -> (o: ScoreOutcome)
    ensures
        (final(players)@, o) == record_score_spec(old(players)@, player@, game_result),
        db_wf(final(players)@),
{
    players.record_score(&player, &game_result)
}

/// The message of the day.
pub fn st_motd() -> (s: String)
    ensures
        s@ == "Prizes in gold bars are now available to best players!"@,
{
    String::from_str("Prizes in gold bars are now available to best players!")
}

/// The game's settings: the message of the day, the numbers from 1 below 10, and 5 rounds.
pub fn send_game_data() -> (reply: bytes::Bytes)
    ensures
        bytes_contents(reply) == finished_bytes(
            answer_game_data_ops(
                "Prizes in gold bars are now available to best players!"@,
                ST_LOW,
                ST_HIGH,
                ST_GAMES,
            ),
        ),
{
    let motd = st_motd();
    proof {
        reveal_strlit("Prizes in gold bars are now available to best players!");
        lemma_utf8_len_bound(motd@);
    }
    answer_game_data(motd, ST_LOW, ST_HIGH, ST_GAMES)
}

/// A player as the ranking shows it: no token, no referral code, and a high score of at
/// least 2776 held with a password longer than 16 bytes shown as 4321.
pub open spec fn sanitize(p: PlayerV) -> PlayerV {
    PlayerV {
        auth_token: Seq::empty(),
        referral: 0,
        score: if p.score >= SAVE_SCORE && utf8_len(p.password) > MAX_NAME_BYTES {
            CAPPED_SCORE
        } else {
            p.score
        },
        ..p
    }
}

/// The players as the ranking shows them.
pub open spec fn sanitized(s: Seq<PlayerV>) -> Seq<PlayerV> {
    s.map_values(|p: PlayerV| sanitize(p))
}

/// A list ranked by score after inserting `p` behind every player of at least its score.
pub open spec fn insert_ranked(s: Seq<PlayerV>, p: PlayerV) -> Seq<PlayerV>
    decreases s.len(),
{
    if s.len() == 0 {
        seq![p]
    } else if s[0].score >= p.score {
        seq![s[0]] + insert_ranked(s.drop_first(), p)
    } else {
        seq![p] + s
    }
}

/// The players ordered by score, highest first, players of equal score in their order in
/// `s` (what a stable sort by descending score gives).
pub open spec fn ranked(s: Seq<PlayerV>) -> Seq<PlayerV>
    decreases s.len(),
{
    if s.len() == 0 {
        Seq::empty()
    } else {
        insert_ranked(ranked(s.drop_last()), s.last())
    }
}

/// Whether the scores of a list never rise.
pub open spec fn ranked_by_score(s: Seq<PlayerV>) -> bool {
    forall|i: int, j: int| 0 <= i <= j < s.len() ==> (#[trigger] s[i]).score >= (#[trigger] s[j]).score
}

/// The number of leading players whose score is at least `score`.
pub open spec fn first_lower(s: Seq<PlayerV>, score: i64) -> int
    decreases s.len(),
{
    if s.len() == 0 {
        0
    } else if s[0].score >= score {
        1 + first_lower(s.drop_first(), score)
    } else {
        0
    }
}

/// The position that a scan for the first lower score stops at is `first_lower`.
proof fn lemma_first_lower(s: Seq<PlayerV>, score: i64, j: int)
    requires
        0 <= j <= s.len(),
        forall|k: int| 0 <= k < j ==> (#[trigger] s[k]).score >= score,
        j == s.len() || s[j].score < score,
    ensures
        first_lower(s, score) == j,
    decreases j,
{
    if j > 0 {
        assert forall|k: int| 0 <= k < j - 1 implies (#[trigger] s.drop_first()[k]).score >= score by {
            assert(s.drop_first()[k] == s[k + 1]);
        }
        if j < s.len() {
            assert(s.drop_first()[j - 1] == s[j]);
        }
        lemma_first_lower(s.drop_first(), score, j - 1);
    }
}

/// Inserting by rank is inserting at the first lower score.
proof fn lemma_insert_ranked_at(s: Seq<PlayerV>, p: PlayerV)
    ensures
        0 <= first_lower(s, p.score) <= s.len(),
        insert_ranked(s, p) == s.insert(first_lower(s, p.score), p),
    decreases s.len(),
{
    if s.len() == 0 {
        assert(s.insert(0, p) =~= seq![p]);
    } else if s[0].score >= p.score {
        lemma_insert_ranked_at(s.drop_first(), p);
        let k = first_lower(s.drop_first(), p.score);
        assert(seq![s[0]] + s.drop_first().insert(k, p) =~= s.insert(k + 1, p));
    } else {
        assert(seq![p] + s =~= s.insert(0, p));
    }
}

/// Inserting by rank keeps a ranked list ranked.
proof fn lemma_insert_ranked_sorted(s: Seq<PlayerV>, p: PlayerV)
    requires
        ranked_by_score(s),
    ensures
        ranked_by_score(insert_ranked(s, p)),
        insert_ranked(s, p).len() == s.len() + 1,
        insert_ranked(s, p).len() > 0 && (insert_ranked(s, p)[0] == p || (s.len() > 0
            && insert_ranked(s, p)[0] == s[0])),
    decreases s.len(),
{
    if s.len() == 0 {
    } else if s[0].score >= p.score {
        let t = s.drop_first();
        assert forall|i: int, j: int| 0 <= i <= j < t.len() implies (#[trigger] t[i]).score >= (
        #[trigger] t[j]).score by {
            assert(t[i] == s[i + 1] && t[j] == s[j + 1]);
        }
        lemma_insert_ranked_sorted(t, p);
        let r = insert_ranked(t, p);
        let q = seq![s[0]] + r;
        assert forall|i: int, j: int| 0 <= i <= j < q.len() implies (#[trigger] q[i]).score >= (
        #[trigger] q[j]).score by {
            if i == 0 && j > 0 {
                assert(q[j] == r[j - 1]);
                assert(r[0].score <= s[0].score) by {
                    if t.len() > 0 {
                        assert(t[0] == s[1]);
                    }
                }
                assert(r[0].score >= r[j - 1].score);
            } else if i > 0 {
                assert(q[i] == r[i - 1] && q[j] == r[j - 1]);
            }
        }
    } else {
        let q = seq![p] + s;
        assert forall|i: int, j: int| 0 <= i <= j < q.len() implies (#[trigger] q[i]).score >= (
        #[trigger] q[j]).score by {
            if i == 0 && j > 0 {
                assert(q[j] == s[j - 1]);
                assert(s[0].score >= s[j - 1].score);
            } else if i > 0 {
                assert(q[i] == s[i - 1] && q[j] == s[j - 1]);
            }
        }
    }
}

/// Inserting by rank adds the player to the multiset of players.
proof fn lemma_insert_ranked_multiset(s: Seq<PlayerV>, p: PlayerV)
    ensures
        insert_ranked(s, p).to_multiset() == s.to_multiset().insert(p),
{
    broadcast use vstd::seq_lib::group_to_multiset_ensures;

    lemma_insert_ranked_at(s, p);
    let k = first_lower(s, p.score);
    let t = s.insert(k, p);
    assert(t.remove(k) =~= s);
    assert(t[k] == p);
    assert(t.contains(p));
    assert(t.to_multiset().count(p) > 0);
    assert(t.to_multiset() =~= t.to_multiset().remove(p).insert(p));
}

/// The ranking orders the players by score, highest first.
pub proof fn lemma_ranked_sorted(s: Seq<PlayerV>)
    ensures
        ranked_by_score(ranked(s)),
        ranked(s).len() == s.len(),
    decreases s.len(),
{
    if s.len() > 0 {
        lemma_ranked_sorted(s.drop_last());
        lemma_insert_ranked_sorted(ranked(s.drop_last()), s.last());
    }
}

/// The ranking holds exactly the players it was given.
pub proof fn lemma_ranked_permutation(s: Seq<PlayerV>)
    ensures
        ranked(s).to_multiset() == s.to_multiset(),
    decreases s.len(),
{
    broadcast use vstd::seq_lib::group_to_multiset_ensures;

    if s.len() > 0 {
        lemma_ranked_permutation(s.drop_last());
        lemma_insert_ranked_multiset(ranked(s.drop_last()), s.last());
        assert(s.drop_last().push(s.last()) =~= s);
    }
}

/// The ranking of the players, as `answer_online_players` encodes it: every player
/// sanitized, ordered by score, highest first.
pub fn answer_onlineplayers(players: &PlayerDb) -> (reply: bytes::Bytes)
    requires
        players@.len() < 0x1000_0000,
    ensures
        bytes_contents(reply) == finished_bytes(
            answer_online_players_ops(ranked(sanitized(players@))),
        ),
{
    let n = players.len();
    let ghost src = sanitized(players@);
    let mut sorted: Vec<Player> = Vec::new();
    let mut i: usize = 0;
    assert(src.take(0) =~= Seq::<PlayerV>::empty());
    assert(players_view(sorted@) =~= Seq::<PlayerV>::empty());
    while i < n
        invariant
            n == players@.len(),
            n < 0x1000_0000,
            i <= n,
            db_wf(players@),
            src == sanitized(players@),
            players_view(sorted@) == ranked(src.take(i as int)),
            sorted@.len() == i,
            forall|k: int| 0 <= k < sorted@.len() ==> player_strings_fit(#[trigger] sorted@[k]@),
        decreases n - i,
    {
        let mut p = players.get(i).clone();
        assert(player_strings_fit(players@[i as int]));
        p.referral = 0;
        p.auth_token = String::new();
        if p.score >= SAVE_SCORE && p.password.as_str().len() > MAX_NAME_BYTES {
            p.score = CAPPED_SCORE;
        }
        assert(p@ == sanitize(players@[i as int]));
        assert(p@ == src[i as int]);
        let mut j: usize = 0;
        while j < sorted.len() && sorted[j].score >= p.score
            invariant
                j <= sorted@.len(),
                forall|k: int| 0 <= k < j ==> (#[trigger] sorted@[k]).score >= p.score,
            decreases sorted@.len() - j,
        {
            j = j + 1;
        }
        let ghost before = players_view(sorted@);
        proof {
            assert forall|k: int| 0 <= k < j implies (#[trigger] before[k]).score >= p@.score by {
                assert(before[k] == sorted@[k]@);
            }
            if j < sorted@.len() {
                assert(before[j as int] == sorted@[j as int]@);
            }
            lemma_first_lower(before, p@.score, j as int);
            lemma_insert_ranked_at(before, p@);
            assert(src.take(i + 1).drop_last() =~= src.take(i as int));
        }
        let ghost pv = p@;
        let ghost old_sorted = sorted@;
        sorted.insert(j, p);
        proof {
            assert(players_view(sorted@) =~= before.insert(j as int, pv));
            assert forall|k: int| 0 <= k < sorted@.len() implies player_strings_fit(
                #[trigger] sorted@[k]@,
            ) by {
                if k < j {
                    assert(sorted@[k] == old_sorted[k]);
                } else if k > j {
                    assert(sorted@[k] == old_sorted[k - 1]);
                }
            }
        }
        i = i + 1;
    }
    assert(src.take(n as int) =~= src);
    answer_online_players(&sorted)
}

/// The bytes of the text that the server sends back for a packet that only a server
/// sends.
pub open spec fn unexpected_reply() -> Seq<u8> {
    vstd::utf8::encode_utf8("not supposed to recieve"@)
}

/// What one received packet does, given a fresh token for a login request: the players
/// after it, the reply (none for a chat message or a match result), and whether the
/// players are to be stored (after every login request whose name is not too long, and
/// after a new high score of at least 2776).
pub open spec fn packet_step(db: Seq<PlayerV>, referral_server: i64, p: PacketTypes, token: Seq<
    char,
>) -> (Seq<PlayerV>, Option<Seq<u8>>, bool) {
    match p {
        PacketTypes::AskForPlayer { name, password, referral } => {
            let r = login_spec(db, referral_server, name@, password@, referral, token);
            (r.0, Some(finished_bytes(answer_player_ops(r.1, r.2))), utf8_len(name@) <= MAX_NAME_BYTES)
        },
        PacketTypes::AskForGameData { .. } => (
            db,
            Some(
                finished_bytes(
                    answer_game_data_ops(
                        "Prizes in gold bars are now available to best players!"@,
                        ST_LOW,
                        ST_HIGH,
                        ST_GAMES,
                    ),
                ),
            ),
            false,
        ),
        PacketTypes::AskForOnlinePlayers { .. } => (
            db,
            Some(finished_bytes(answer_online_players_ops(ranked(sanitized(db))))),
            false,
        ),
        PacketTypes::Message { .. } => (db, None, false),
        PacketTypes::SendGameScore { player, game_result, .. } => {
            let r = record_score_spec(db, player@, game_result);
            (r.0, None, score_needs_save(r.1, game_result))
        },
        _ => (db, Some(unexpected_reply()), false),
    }
}

/// What a list of received packets does, in order, each login request with its token:
/// the players after them, the replies, and whether the players are to be stored.
pub open spec fn handle_spec(
    db: Seq<PlayerV>,
    referral_server: i64,
    packets: Seq<PacketTypes>,
    tokens: Seq<Seq<char>>,
) -> (Seq<PlayerV>, Seq<Seq<u8>>, bool)
    decreases packets.len(),
{
    if packets.len() == 0 {
        (db, Seq::empty(), false)
    } else {
        let prev = handle_spec(db, referral_server, packets.drop_last(), tokens.drop_last());
        let step = packet_step(prev.0, referral_server, packets.last(), tokens.last());
        (
            step.0,
            match step.1 {
                Some(r) => prev.1.push(r),
                None => prev.1,
            },
            prev.2 || step.2,
        )
    }
}

/// Whether each token is the decimal representation of a number below 9999999.
pub open spec fn valid_tokens(tokens: Seq<Seq<char>>) -> bool {
    forall|i: int|
        0 <= i < tokens.len() ==> exists|n: nat|
            #![trigger decimal(n)]
            n < TOKEN_BOUND && #[trigger] tokens[i] == decimal(n)
}

/// Whether the password of a received login request fits a packet, as it must to be
/// stored and later listed.
pub open spec fn packet_strings_fit(p: PacketTypes) -> bool {
    p matches PacketTypes::AskForPlayer { password, .. } ==> utf8_len(password@)
        <= MAX_STRING_BYTES
}

/// Handles received packets in order and empties the list. Returns the replies and
/// whether the players are to be stored; each login request gets a fresh random token.
pub fn handle_packets(
    received_packets: &mut Vec<PacketTypes>,
    referral_server: i64,
    players: &mut PlayerDb,
) -> (out: (Packets, bool))
    requires
        old(players)@.len() + old(received_packets)@.len() < 0x1000_0000,
        forall|i: int|
            0 <= i < old(received_packets)@.len() ==> packet_strings_fit(
                #[trigger] old(received_packets)@[i],
            ),
    ensures
        final(received_packets)@.len() == 0,
        db_wf(final(players)@),
        exists|tokens: Seq<Seq<char>>|
            tokens.len() == old(received_packets)@.len() && valid_tokens(tokens) && (
            #[trigger] handle_spec(
                old(players)@,
                referral_server,
                old(received_packets)@,
                tokens,
            )) == (final(players)@, contents_of(out.0@), out.1),
{
    let mut packets_to_send: Packets = Vec::new();
    let mut save = false;
    let ghost pkts = received_packets@;
    let ghost db0 = players@;
    let ghost mut tokens: Seq<Seq<char>> = Seq::empty();
    let n = received_packets.len();
    let _ = players.len();
    let mut i: usize = 0;
    proof {
        assert(pkts.take(0) =~= Seq::<PacketTypes>::empty());
        assert(contents_of(packets_to_send@) =~= Seq::<Seq<u8>>::empty());
    }
    while i < n
        invariant
            n == pkts.len(),
            pkts == received_packets@,
            i <= n,
            db0.len() + n < 0x1000_0000,
            players@.len() <= db0.len() + i,
            db_wf(players@),
            forall|k: int| 0 <= k < pkts.len() ==> packet_strings_fit(#[trigger] pkts[k]),
            tokens.len() == i,
            valid_tokens(tokens),
            handle_spec(db0, referral_server, pkts.take(i as int), tokens) == (
                players@,
                contents_of(packets_to_send@),
                save,
            ),
        decreases n - i,
    {
        let ghost db_before = players@;
        let ghost sent_before = packets_to_send@;
        let ghost save_before = save;
        let ghost mut token: Seq<char> = decimal(0);
        let packet = &received_packets[i];
        assert(packet_strings_fit(pkts[i as int]));
        let (ret, step_save): (Option<bytes::Bytes>, bool) = match packet {
            PacketTypes::AskForPlayer { name, password, referral } => {
                let r = ask_for_player_handle(
                    name.clone(),
                    password.clone(),
                    *referral,
                    players,
                    referral_server,
                );
                proof {
                    let k = choose|k: nat|
                        #![trigger decimal(k)]
                        k < TOKEN_BOUND && {
                            let q = login_spec(
                                db_before,
                                referral_server,
                                name@,
                                password@,
                                *referral,
                                decimal(k),
                            );
                            &&& players@ == q.0
                            &&& bytes_contents(r) == finished_bytes(answer_player_ops(q.1, q.2))
                        };
                    token = decimal(k);
                }
                (Some(r), name.as_str().as_bytes().len() <= MAX_NAME_BYTES)
            },
            PacketTypes::AskForGameData { .. } => (Some(send_game_data()), false),
            PacketTypes::AskForOnlinePlayers { .. } => (Some(answer_onlineplayers(players)), false),
            PacketTypes::Message { .. } => (None, false),
            PacketTypes::SendGameScore { player, game_result, score_message } => {
                let m = MatchScore {
                    hits: game_result.hits,
                    specials: game_result.specials,
                    misses: game_result.misses,
                    score: game_result.score,
                };
                let o = recieve_score(player.clone(), m, score_message.clone(), players);
                (None, o == ScoreOutcome::NewHighscore && game_result.score >= SAVE_SCORE)
            },
            _ => {
                let text = "not supposed to recieve";
                (Some(bytes_from_vec(slice_to_vec(text.as_bytes()))), false)
            },
        };
        match ret {
            Some(r) => {
                packets_to_send.push(r);
            },
            None => {},
        }
        save = save || step_save;
        proof {
            assert(pkts.take(i + 1).drop_last() =~= pkts.take(i as int));
            assert(pkts.take(i + 1).last() == pkts[i as int]);
            let new_tokens = tokens.push(token);
            assert(new_tokens.drop_last() =~= tokens);
            assert(valid_tokens(new_tokens)) by {
                assert forall|k: int| 0 <= k < new_tokens.len() implies exists|m: nat|
                    #![trigger decimal(m)]
                    m < TOKEN_BOUND && #[trigger] new_tokens[k] == decimal(m) by {
                    if k < tokens.len() {
                        assert(new_tokens[k] == tokens[k]);
                    } else {
                        assert(new_tokens[k] == token);
                    }
                }
            }
            tokens = new_tokens;
            assert(contents_of(packets_to_send@) =~= match ret {
                Some(r) => contents_of(sent_before).push(bytes_contents(r)),
                None => contents_of(sent_before),
            });
        }
        i = i + 1;
    }
    received_packets.clear();
    proof {
        assert(pkts.take(n as int) =~= pkts);
    }
    (packets_to_send, save)
}

/// An account with no token.
pub open spec fn account_spec(name: Seq<char>, password: Seq<char>, score: i64, is_admin: bool, referral: i64) -> PlayerV {
    PlayerV { name, auth_token: Seq::empty(), password, score, is_admin, referral }
}

/// Makes an account with no token.
fn account(name: &str, password: &str, score: i64, is_admin: bool, referral: i64) -> (p: Player)
    requires
        name@.len() <= 64,
        password@.len() <= 64,
    ensures
        p@ == account_spec(name@, password@, score, is_admin, referral),
        player_strings_fit(p@),
{
    proof {
        lemma_utf8_len_bound(name@);
        lemma_utf8_len_bound(password@);
        lemma_utf8_len_bound(Seq::<char>::empty());
    }
    Player {
        name: String::from_str(name),
        auth_token: String::new(),
        password: String::from_str(password),
        score,
        is_admin,
        referral,
    }
}

/// The accounts that a server starts with when it has none stored: an admin, whose
/// referral code is the server's, and five players.
pub open spec fn default_accounts(referral: i64) -> Seq<PlayerV> {
    let s0 = Seq::<PlayerV>::empty();
    let s1 = insert_spec(s0, account_spec("@OLEG"@, "StrongPassword20"@, 50_001, true, referral));
    let s2 = insert_spec(s1, account_spec("Tommy Turbo"@, "asdasdasd"@, 123, false, 0));
    let s3 = insert_spec(s2, account_spec("Kiddo"@, "Kiddo9000"@, -1051i64, false, 0));
    let s4 = insert_spec(s3, account_spec("Mr.T"@, "IPityTheFools"@, 936, false, 0));
    let s5 = insert_spec(s4, account_spec("Hulk Hogan"@, "Brotthar"@, 873, false, 0));
    insert_spec(s5, account_spec("Highlander"@, "ReallyLongPassword"@, 666, false, 0))
}

/// The players that a server starts with when it has none stored.
pub fn default_players(referral: i64) -> (db: PlayerDb)
    ensures
        db@ == default_accounts(referral),
        db_wf(db@),
{
    proof {
        reveal_strlit("@OLEG");
        reveal_strlit("StrongPassword20");
        reveal_strlit("Tommy Turbo");
        reveal_strlit("asdasdasd");
        reveal_strlit("Kiddo");
        reveal_strlit("Kiddo9000");
        reveal_strlit("Mr.T");
        reveal_strlit("IPityTheFools");
        reveal_strlit("Hulk Hogan");
        reveal_strlit("Brotthar");
        reveal_strlit("Highlander");
        reveal_strlit("ReallyLongPassword");
    }
    let mut db = PlayerDb::new();
    db.insert(account("@OLEG", "StrongPassword20", 50_001, true, referral));
    db.insert(account("Tommy Turbo", "asdasdasd", 123, false, 0));
    db.insert(account("Kiddo", "Kiddo9000", -1051, false, 0));
    db.insert(account("Mr.T", "IPityTheFools", 936, false, 0));
    db.insert(account("Hulk Hogan", "Brotthar", 873, false, 0));
    db.insert(account("Highlander", "ReallyLongPassword", 666, false, 0));
    db
}

/// A login request keeps the players well formed: names stay unique and every string
/// still fits a packet.
pub proof fn lemma_login_keeps_wf(
    db: Seq<PlayerV>,
    referral_server: i64,
    name: Seq<char>,
    password: Seq<char>,
    referral: i64,
    token: Seq<char>,
)
    requires
        db_wf(db),
        utf8_len(password) <= MAX_STRING_BYTES,
        utf8_len(token) <= MAX_STRING_BYTES,
    ensures
        db_wf(login_spec(db, referral_server, name, password, referral, token).0),
{
    let r = login_spec(db, referral_server, name, password, referral, token);
    if utf8_len(name) <= MAX_NAME_BYTES {
        if has_player(db, name) {
            let i = player_index(db, name);
            assert(player_strings_fit(db[i]));
            assert forall|a: int, b: int|
                0 <= a < r.0.len() && 0 <= b < r.0.len() && a != b implies (#[trigger] r.0[a]).name
                != (#[trigger] r.0[b]).name by {
                assert(db[a].name != db[b].name);
            }
        } else if referral_server == referral {
            assert(player_strings_fit(new_player(name, password, token)));
            assert forall|a: int, b: int|
                0 <= a < r.0.len() && 0 <= b < r.0.len() && a != b implies (#[trigger] r.0[a]).name
                != (#[trigger] r.0[b]).name by {
                if a < db.len() && b < db.len() {
                    assert(db[a].name != db[b].name);
                } else if a < db.len() {
                    assert(r.0[a] == db[a]);
                } else {
                    assert(r.0[b] == db[b]);
                }
            }
        }
    }
}

/// A login request touches only the player of its name: every other player stays where
/// it is and as it is; the player of that name, if known, keeps everything but maybe its
/// token, which becomes the fresh one; an unknown name may only be added at the end; and
/// names stay unique.
pub proof fn lemma_login_touches_only_that_player(
    db: Seq<PlayerV>,
    referral_server: i64,
    name: Seq<char>,
    password: Seq<char>,
    referral: i64,
    token: Seq<char>,
)
    requires
        names_unique(db),
    ensures
        ({
            let r = login_spec(db, referral_server, name, password, referral, token).0;
            &&& names_unique(r)
            &&& db.len() <= r.len() <= db.len() + 1
            &&& forall|k: int| 0 <= k < db.len() && db[k].name != name ==> #[trigger] r[k] == db[k]
            &&& forall|k: int|
                0 <= k < db.len() && db[k].name == name ==> (#[trigger] r[k] == db[k] || r[k]
                    == with_token(db[k], token))
            &&& r.len() == db.len() + 1 ==> !has_player(db, name) && r[db.len() as int].name
                == name
        }),
{
    let r = login_spec(db, referral_server, name, password, referral, token);
    if utf8_len(name) <= MAX_NAME_BYTES {
        if has_player(db, name) {
            let i = player_index(db, name);
            assert forall|k: int| 0 <= k < db.len() && db[k].name == name implies k == i by {
                if k != i {
                    assert(db[k].name != db[i].name);
                }
            }
            assert forall|a: int, b: int|
                0 <= a < r.0.len() && 0 <= b < r.0.len() && a != b implies (#[trigger] r.0[a]).name
                != (#[trigger] r.0[b]).name by {
                assert(db[a].name != db[b].name);
            }
        } else if referral_server == referral {
            assert forall|a: int, b: int|
                0 <= a < r.0.len() && 0 <= b < r.0.len() && a != b implies (#[trigger] r.0[a]).name
                != (#[trigger] r.0[b]).name by {
                if a < db.len() && b < db.len() {
                    assert(db[a].name != db[b].name);
                } else if a < db.len() {
                    assert(r.0[a] == db[a]);
                } else {
                    assert(r.0[b] == db[b]);
                }
            }
        }
    }
}

/// A refused login request (denied or failed) changes no player and answers with an empty
/// player.
pub proof fn lemma_refused_login_changes_nothing(
    db: Seq<PlayerV>,
    referral_server: i64,
    name: Seq<char>,
    password: Seq<char>,
    referral: i64,
    token: Seq<char>,
)
    ensures
        ({
            let r = login_spec(db, referral_server, name, password, referral, token);
            (r.2 == StatusAnswerPlayer::Denied || r.2 == StatusAnswerPlayer::Failure) ==> r.0 == db
                && r.1 == empty_player()
        }),
{
}

/// After an accepted login request (new or known player) the player of that name holds
/// the fresh token, and the answer shows the player with that token.
pub proof fn lemma_accepted_login_holds_token(
    db: Seq<PlayerV>,
    referral_server: i64,
    name: Seq<char>,
    password: Seq<char>,
    referral: i64,
    token: Seq<char>,
)
    requires
        db_wf(db),
    ensures
        ({
            let r = login_spec(db, referral_server, name, password, referral, token);
            (r.2 == StatusAnswerPlayer::OkNew || r.2 == StatusAnswerPlayer::OkLogin) ==> {
                &&& has_player(r.0, name)
                &&& r.0[player_index(r.0, name)].auth_token == token
                &&& r.0[player_index(r.0, name)].password == password
                &&& r.1.auth_token == token
                &&& r.1.name == name
            }
        }),
{
    let r = login_spec(db, referral_server, name, password, referral, token);
    if utf8_len(name) <= MAX_NAME_BYTES {
        if has_player(db, name) {
            let i = player_index(db, name);
            if db[i].password == password {
                assert(names_unique(r.0)) by {
                    assert forall|a: int, b: int|
                        0 <= a < r.0.len() && 0 <= b < r.0.len() && a != b implies (
                        #[trigger] r.0[a]).name != (#[trigger] r.0[b]).name by {
                        assert(db[a].name != db[b].name);
                    }
                }
                lemma_player_index(r.0, i);
            }
        } else if referral_server == referral {
            let k = db.len() as int;
            assert(r.0[k].name == name);
            assert(names_unique(r.0)) by {
                assert forall|a: int, b: int|
                    0 <= a < r.0.len() && 0 <= b < r.0.len() && a != b implies (
                    #[trigger] r.0[a]).name != (#[trigger] r.0[b]).name by {
                    if a < db.len() && b < db.len() {
                        assert(db[a].name != db[b].name);
                    } else if a < db.len() {
                        assert(r.0[a] == db[a]);
                    } else {
                        assert(r.0[b] == db[b]);
                    }
                }
            }
            lemma_player_index(r.0, k);
        }
    }
}

/// A player registered with a password can then log in with it: the second request is
/// accepted as a known player, with its own fresh token.
pub proof fn lemma_register_then_login(
    db: Seq<PlayerV>,
    referral_server: i64,
    name: Seq<char>,
    password: Seq<char>,
    token1: Seq<char>,
    referral2: i64,
    token2: Seq<char>,
)
    requires
        db_wf(db),
        utf8_len(name) <= MAX_NAME_BYTES,
        !has_player(db, name),
    ensures
        ({
            let r1 = login_spec(db, referral_server, name, password, referral_server, token1);
            let r2 = login_spec(r1.0, referral_server, name, password, referral2, token2);
            &&& r1.2 == StatusAnswerPlayer::OkNew
            &&& r1.0 == db.push(new_player(name, password, token1))
            &&& r2.2 == StatusAnswerPlayer::OkLogin
            &&& r2.0 == r1.0.update(db.len() as int, new_player(name, password, token2))
            &&& r2.1 == new_player(name, password, token2)
        }),
{
    let r1 = login_spec(db, referral_server, name, password, referral_server, token1);
    lemma_accepted_login_holds_token(db, referral_server, name, password, referral_server, token1);
    let k = db.len() as int;
    assert(r1.0[k].name == name);
    assert(names_unique(r1.0)) by {
        assert forall|a: int, b: int|
            0 <= a < r1.0.len() && 0 <= b < r1.0.len() && a != b implies (#[trigger] r1.0[a]).name
            != (#[trigger] r1.0[b]).name by {
            if a < db.len() && b < db.len() {
                assert(db[a].name != db[b].name);
            } else if a < db.len() {
                assert(r1.0[a] == db[a]);
            } else {
                assert(r1.0[b] == db[b]);
            }
        }
    }
    lemma_player_index(r1.0, k);
}

/// A reported result never lowers a score: it changes at most the score of the player of
/// that name, and only to a higher one; names, tokens and passwords stay.
pub proof fn lemma_record_score_monotone(db: Seq<PlayerV>, player: PlayerV, m: MatchScore)
    ensures
        ({
            let r = record_score_spec(db, player, m);
            &&& r.0.len() == db.len()
            &&& forall|k: int|
                0 <= k < db.len() ==> {
                    &&& (#[trigger] r.0[k]).score >= db[k].score
                    &&& r.0[k] == PlayerV { score: r.0[k].score, ..db[k] }
                    &&& (r.0[k] != db[k] ==> db[k].name == player.name)
                }
        }),
{
}

/// A player who logged in and reports a believable result with the token of that login,
/// above its high score, gets the result as its new high score.
pub proof fn lemma_login_then_score(
    db: Seq<PlayerV>,
    referral_server: i64,
    name: Seq<char>,
    password: Seq<char>,
    referral: i64,
    token: Seq<char>,
    m: MatchScore,
)
    requires
        db_wf(db),
        score_accepted(m),
    ensures
        ({
            let r = login_spec(db, referral_server, name, password, referral, token);
            let i = player_index(r.0, name);
            let s = record_score_spec(r.0, r.1, m);
            (r.2 == StatusAnswerPlayer::OkNew || r.2 == StatusAnswerPlayer::OkLogin) && r.0[i].score
                < m.score ==> s.1 == ScoreOutcome::NewHighscore && s.0[i].score == m.score
        }),
{
    lemma_accepted_login_holds_token(db, referral_server, name, password, referral, token);
}

/// The ranking shows no token and no referral code.
pub proof fn lemma_ranking_hides_secrets(s: Seq<PlayerV>)
    ensures
        forall|i: int|
            0 <= i < ranked(sanitized(s)).len() ==> (#[trigger] ranked(sanitized(s))[i]).auth_token
                == Seq::<char>::empty() && ranked(sanitized(s))[i].referral == 0,
{
    broadcast use vstd::seq_lib::group_to_multiset_ensures;

    let t = sanitized(s);
    let r = ranked(t);
    lemma_ranked_permutation(t);
    assert forall|i: int| 0 <= i < r.len() implies (#[trigger] r[i]).auth_token == Seq::<
        char,
    >::empty() && r[i].referral == 0 by {
        assert(r.contains(r[i]));
        assert(r.to_multiset().count(r[i]) > 0);
        assert(t.to_multiset().count(r[i]) > 0);
        assert(t.contains(r[i]));
        let j = choose|j: int| 0 <= j < t.len() && t[j] == r[i];
        assert(t[j] == sanitize(s[j]));
    }
}

/// A reported result changes the players only when its score is what its counts give
/// (111 per hit, 31 per special, minus 23 per miss), raised to the next even number when
/// odd, and it has at most 50 hits; it then raises the reporter's high score. A known
/// player's result with any other score, or with more hits, is fake and changes nothing.
pub proof fn lemma_only_exact_scores_count(db: Seq<PlayerV>, player: PlayerV, m: MatchScore)
    ensures
        ({
            let v = m.hits * 111 + m.specials * 31 - m.misses * 23;
            let expected = if v % 2 == 0 {
                v
            } else {
                v + 1
            };
            let r = record_score_spec(db, player, m);
            &&& r.1 == ScoreOutcome::NewHighscore ==> m.score == expected && m.score % 2 == 0
                && m.hits <= 50
            &&& r.0 != db ==> r.1 == ScoreOutcome::NewHighscore
            &&& (has_player(db, player.name) && (m.score != expected || m.hits > 50)) ==> r.1
                == ScoreOutcome::Fake && r.0 == db
        }),
{
}

/// A request for the online players changes no player, asks for no save, and is answered
/// with one list that holds every player once, without token or referral code, ordered
/// by score, highest first.
pub proof fn lemma_online_players_answered_with_ranking(
    db: Seq<PlayerV>,
    referral_server: i64,
    sequence: u32,
    tokens: Seq<Seq<char>>,
)
    requires
        tokens.len() == 1,
    ensures
        exists|l: Seq<PlayerV>|
            {
                &&& handle_spec(
                    db,
                    referral_server,
                    seq![PacketTypes::AskForOnlinePlayers { sequence_p: sequence }],
                    tokens,
                ) == (db, seq![finished_bytes(answer_online_players_ops(l))], false)
                &&& l.len() == db.len()
                &&& forall|i: int, j: int|
                    0 <= i <= j < l.len() ==> (#[trigger] l[i]).score >= (#[trigger] l[j]).score
                &&& forall|i: int|
                    0 <= i < l.len() ==> (#[trigger] l[i]).auth_token == Seq::<char>::empty()
                        && l[i].referral == 0
                &&& l.to_multiset() == sanitized(db).to_multiset()
            },
{
    let pk = seq![PacketTypes::AskForOnlinePlayers { sequence_p: sequence }];
    let l = ranked(sanitized(db));
    assert(pk.drop_last().len() == 0);
    assert(handle_spec(db, referral_server, pk.drop_last(), tokens.drop_last()) == (
        db,
        Seq::<Seq<u8>>::empty(),
        false,
    ));
    assert(pk.last() == PacketTypes::AskForOnlinePlayers { sequence_p: sequence });
    assert(Seq::<Seq<u8>>::empty().push(finished_bytes(answer_online_players_ops(l))) =~= seq![
        finished_bytes(answer_online_players_ops(l)),
    ]);
    lemma_ranked_sorted(sanitized(db));
    lemma_ranked_permutation(sanitized(db));
    lemma_ranking_hides_secrets(db);
    assert(sanitized(db).len() == db.len());
    assert(handle_spec(db, referral_server, pk, tokens) == (
        db,
        seq![finished_bytes(answer_online_players_ops(l))],
        false,
    ));
}

} // verus!
