//! The decisions of the game client: reading guesses, scoring them, and reading the
//! server's answers.
use vstd::prelude::*;
use crate::chance::random_in;
use crate::flatbuf::utf8_len;
use crate::server::{score_accepted, validated_score, ST_HIGH};
use crate::structures::{MatchScore, PacketTypes, Player, PlayerV, StatusAnswerPlayer};
use crate::text::{
    chars_of, parse_i64, parse_i64_spec, parse_u32, parse_u32_spec, pieces_view, split_chars,
    split_on, trim, trim_chars,
};

verus! {

/// The number of guesses in a round.
pub const GUESSES_PER_ROUND: usize = 5;

/// Points for a guess that hits.
pub const HIT_POINTS: i64 = 111;

/// Points for a guess that divides the drawn number.
pub const SPECIAL_POINTS: i64 = 31;

/// Points lost for a guess that misses.
pub const MISS_POINTS: i64 = 23;

/// Why a line of guesses was refused.
#[derive(Debug, Clone, Copy, PartialEq, Eq, Structural)]
pub enum GuessError {
    /// The line does not hold exactly five pieces separated by single spaces.
    WrongCount,
    /// A piece is not a number.
    NotANumber,
    /// A number is below the lowest or not below the bound of the game.
    OutOfRange,
}

/// The numbers of the pieces, in order, each checked against the game's range; the first
/// piece that is no number, or out of range, decides the error.
pub open spec fn numbers_spec(pieces: Seq<Seq<char>>, low: u32, high: u32) -> Result<
    Seq<u32>,
    GuessError,
>
    decreases pieces.len(),
{
    if pieces.len() == 0 {
        Ok(Seq::empty())
    } else {
        match numbers_spec(pieces.drop_last(), low, high) {
            Err(e) => Err(e),
            Ok(v) => match parse_u32_spec(pieces.last()) {
                None => Err(GuessError::NotANumber),
                Some(n) => if n < low || n >= high {
                    Err(GuessError::OutOfRange)
                } else {
                    Ok(v.push(n))
                },
            },
        }
    }
}

/// The guesses of a line: the trimmed line split at single spaces must give five pieces,
/// each a number at least `low` and below `high`.
pub open spec fn guesses_spec(line: Seq<char>, low: u32, high: u32) -> Result<Seq<u32>, GuessError> {
    let pieces = split_on(trim(line), ' ');
    if pieces.len() != GUESSES_PER_ROUND {
        Err(GuessError::WrongCount)
    } else {
        numbers_spec(pieces, low, high)
    }
}

/// Reads the five guesses of a round from a line that the player typed.
pub fn parse_guesses(line: &str, low: u32, high: u32) -> (r: Result<Vec<u32>, GuessError>)
    ensures
        match r {
            Ok(v) => guesses_spec(line@, low, high) == Ok::<Seq<u32>, GuessError>(v@),
            Err(e) => guesses_spec(line@, low, high) == Err::<Seq<u32>, GuessError>(e),
        },
{
    let chars = chars_of(line);
    let trimmed = trim_chars(&chars);
    let pieces = split_chars(&trimmed, ' ');
    let ghost pv = pieces_view(pieces@);
    if pieces.len() != GUESSES_PER_ROUND {
        return Err(GuessError::WrongCount);
    }
    let mut guesses: Vec<u32> = Vec::new();
    let mut i: usize = 0;
    assert(pv.take(0) =~= Seq::<Seq<char>>::empty());
    while i < pieces.len()
        invariant
            i <= pieces@.len(),
            pv == pieces_view(pieces@),
            pv == split_on(trim(line@), ' '),
            pv.len() == GUESSES_PER_ROUND,
            numbers_spec(pv.take(i as int), low, high) == Ok::<Seq<u32>, GuessError>(guesses@),
        decreases pieces@.len() - i,
    {
        proof {
            assert(pv.take(i + 1).drop_last() =~= pv.take(i as int));
            assert(pv.take(i + 1).last() == pieces@[i as int]@);
        }
        match parse_u32(&pieces[i]) {
            None => {
                proof {
                    lemma_numbers_err_stays(pv, i as int + 1, low, high);
                }
                return Err(GuessError::NotANumber);
            },
            Some(n) => {
                if n < low || n >= high {
                    proof {
                        lemma_numbers_err_stays(pv, i as int + 1, low, high);
                    }
                    return Err(GuessError::OutOfRange);
                }
                guesses.push(n);
            },
        }
        i = i + 1;
    }
    assert(pv.take(pieces@.len() as int) =~= pv);
    Ok(guesses)
}

/// Once a prefix of the pieces fails, the whole list fails with the same error.
proof fn lemma_numbers_err_stays(pieces: Seq<Seq<char>>, k: int, low: u32, high: u32)
    requires
        0 <= k <= pieces.len(),
        numbers_spec(pieces.take(k), low, high) is Err,
    ensures
        numbers_spec(pieces, low, high) == numbers_spec(pieces.take(k), low, high),
    decreases pieces.len() - k,
{
    if k < pieces.len() {
        assert(pieces.take(k + 1).drop_last() =~= pieces.take(k));
        lemma_numbers_err_stays(pieces, k + 1, low, high);
    } else {
        assert(pieces.take(k) =~= pieces);
    }
}

/// Every number of an accepted line of guesses is within the game's range, and there are
/// five of them.
pub proof fn lemma_guesses_in_range(line: Seq<char>, low: u32, high: u32)
    requires
        guesses_spec(line, low, high) is Ok,
    ensures
        guesses_spec(line, low, high)->Ok_0.len() == GUESSES_PER_ROUND,
        forall|i: int|
            0 <= i < guesses_spec(line, low, high)->Ok_0.len() ==> low <= (
            #[trigger] guesses_spec(line, low, high)->Ok_0[i]) < high,
{
    let pieces = split_on(trim(line), ' ');
    lemma_numbers_in_range(pieces, low, high);
}

proof fn lemma_numbers_in_range(pieces: Seq<Seq<char>>, low: u32, high: u32)
    requires
        numbers_spec(pieces, low, high) is Ok,
    ensures
        numbers_spec(pieces, low, high)->Ok_0.len() == pieces.len(),
        forall|i: int|
            0 <= i < numbers_spec(pieces, low, high)->Ok_0.len() ==> low <= (
            #[trigger] numbers_spec(pieces, low, high)->Ok_0[i]) < high,
    decreases pieces.len(),
{
    if pieces.len() > 0 {
        lemma_numbers_in_range(pieces.drop_last(), low, high);
    }
}

/// How a guess compares with the drawn number.
#[derive(Debug, Clone, Copy, PartialEq, Eq, Structural)]
pub enum GuessKind {
    /// The guess is the drawn number.
    Hit,
    /// The guess is above 1 and divides the drawn number.
    Special,
    /// Anything else.
    Miss,
}

/// How a guess compares with the drawn number.
pub open spec fn guess_kind(guess: u32, roll: u32) -> GuessKind {
    if guess == roll {
        GuessKind::Hit
    } else if guess > 1 && roll % guess == 0 {
        GuessKind::Special
    } else {
        GuessKind::Miss
    }
}

/// The points of a kind of guess.
pub open spec fn kind_points(k: GuessKind) -> int {
    match k {
        GuessKind::Hit => HIT_POINTS as int,
        GuessKind::Special => SPECIAL_POINTS as int,
        GuessKind::Miss => -(MISS_POINTS as int),
    }
}

/// The match result after scoring the first guesses against the drawn numbers.
pub open spec fn tally(m: MatchScore, guesses: Seq<u32>, rolls: Seq<u32>) -> MatchScore
    decreases guesses.len(),
{
    if guesses.len() == 0 || rolls.len() == 0 {
        m
    } else {
        let prev = tally(m, guesses.drop_last(), rolls.drop_last());
        let k = guess_kind(guesses.last(), rolls.last());
        MatchScore {
            hits: if k == GuessKind::Hit {
                (prev.hits + 1) as u32
            } else {
                prev.hits
            },
            specials: if k == GuessKind::Special {
                (prev.specials + 1) as u32
            } else {
                prev.specials
            },
            misses: if k == GuessKind::Miss {
                (prev.misses + 1) as u32
            } else {
                prev.misses
            },
            score: (prev.score + kind_points(k)) as i64,
        }
    }
}

/// Whether the counters and the score of a match result can take `n` more guesses.
pub open spec fn room_for(m: MatchScore, n: int) -> bool {
    &&& m.hits + n <= u32::MAX
    &&& m.specials + n <= u32::MAX
    &&& m.misses + n <= u32::MAX
    &&& m.score + HIT_POINTS * n <= i64::MAX
    &&& m.score - MISS_POINTS * n >= i64::MIN
}

/// Whether the counters and the score of a match result can take `n` more guesses.
pub fn has_room(m: &MatchScore, n: usize) -> (b: bool)
    ensures
        b == room_for(*m, n as int),
{
    let n64 = n as u64;
    let fits_counts = n64 <= 0xFFFF_FFFF && (m.hits as u64) + n64 <= 0xFFFF_FFFF
        && (m.specials as u64) + n64 <= 0xFFFF_FFFF && (m.misses as u64) + n64 <= 0xFFFF_FFFF;
    if !fits_counts {
        return false;
    }
    assert(n64 <= 0xFFFF_FFFF);
    assert(MISS_POINTS * n64 <= 23 * 0xFFFF_FFFF) by (nonlinear_arith)
        requires
            n64 <= 0xFFFF_FFFF,
            MISS_POINTS == 23,
    ;
    assert(HIT_POINTS * n64 <= 111 * 0xFFFF_FFFF) by (nonlinear_arith)
        requires
            n64 <= 0xFFFF_FFFF,
            HIT_POINTS == 111,
    ;
    let up = (m.score as i128) + (HIT_POINTS as i128) * (n64 as i128);
    let down = (m.score as i128) - (MISS_POINTS as i128) * (n64 as i128);
    up <= 0x7FFF_FFFF_FFFF_FFFF && down >= -0x8000_0000_0000_0000
}

/// Scoring guesses keeps the counters and the score within bounds.
proof fn lemma_tally_bounds(m: MatchScore, guesses: Seq<u32>, rolls: Seq<u32>)
    requires
        guesses.len() == rolls.len(),
        room_for(m, guesses.len() as int),
    ensures
        ({
            let t = tally(m, guesses, rolls);
            &&& m.hits <= t.hits <= m.hits + guesses.len()
            &&& m.specials <= t.specials <= m.specials + guesses.len()
            &&& m.misses <= t.misses <= m.misses + guesses.len()
            &&& m.score - MISS_POINTS * guesses.len() <= t.score <= m.score + HIT_POINTS
                * guesses.len()
        }),
    decreases guesses.len(),
{
    if guesses.len() > 0 {
        lemma_tally_bounds(m, guesses.drop_last(), rolls.drop_last());
    }
}

/// Scores guesses against the drawn numbers: each hit adds 111 points, each guess above
/// 1 that divides its number adds 31, each other guess takes 23. Returns the kind of each
/// guess.
pub fn score_guesses(guesses: &Vec<u32>, rolls: &Vec<u32>, match_score: &mut MatchScore) -> (kinds:
    Vec<GuessKind>)
    requires
        guesses@.len() == rolls@.len(),
        room_for(*old(match_score), guesses@.len() as int),
    ensures
        kinds@.len() == guesses@.len(),
        forall|i: int| 0 <= i < kinds@.len() ==> #[trigger] kinds@[i] == guess_kind(guesses@[i], rolls@[i]),
        *final(match_score) == tally(*old(match_score), guesses@, rolls@),
{
    let ghost m0 = *match_score;
    let mut kinds: Vec<GuessKind> = Vec::new();
    let mut sum: i64 = match_score.score;
    let mut i: usize = 0;
    assert(guesses@.take(0) =~= Seq::<u32>::empty());
    while i < guesses.len()
        invariant
            i <= guesses@.len(),
            guesses@.len() == rolls@.len(),
            room_for(m0, guesses@.len() as int),
            kinds@.len() == i,
            forall|k: int| 0 <= k < i ==> #[trigger] kinds@[k] == guess_kind(guesses@[k], rolls@[k]),
            ({
                let t = tally(m0, guesses@.take(i as int), rolls@.take(i as int));
                &&& match_score.hits == t.hits
                &&& match_score.specials == t.specials
                &&& match_score.misses == t.misses
                &&& sum == t.score
                &&& match_score.score == m0.score
            }),
        decreases guesses@.len() - i,
    {
        let val = guesses[i];
        let roll = rolls[i];
        proof {
            assert(guesses@.take(i + 1).drop_last() =~= guesses@.take(i as int));
            assert(rolls@.take(i + 1).drop_last() =~= rolls@.take(i as int));
            lemma_tally_bounds(m0, guesses@.take(i + 1), rolls@.take(i + 1));
            lemma_tally_bounds(m0, guesses@.take(i as int), rolls@.take(i as int));
            assert(guesses@.take(i + 1).last() == val);
            assert(rolls@.take(i + 1).last() == roll);
        }
        let kind = if val == roll {
            match_score.hits = match_score.hits + 1;
            sum = sum + HIT_POINTS;
            GuessKind::Hit
        } else if val > 1 && roll % val == 0 {
            match_score.specials = match_score.specials + 1;
            sum = sum + SPECIAL_POINTS;
            GuessKind::Special
        } else {
            match_score.misses = match_score.misses + 1;
            sum = sum - MISS_POINTS;
            GuessKind::Miss
        };
        kinds.push(kind);
        i = i + 1;
    }
    match_score.score = sum;
    assert(guesses@.take(guesses@.len() as int) =~= guesses@);
    assert(rolls@.take(rolls@.len() as int) =~= rolls@);
    kinds
}

/// Plays a round: draws one number from `low` to below `high` for each guess, and scores
/// the guesses against them. Returns the drawn numbers and the kind of each guess.
pub fn check_guesses(guesses: &Vec<u32>, low: u32, high: u32, match_score: &mut MatchScore) -> (r: (
    Vec<u32>,
    Vec<GuessKind>,
))
    requires
        low < high,
        room_for(*old(match_score), guesses@.len() as int),
    ensures
        r.0@.len() == guesses@.len(),
        forall|i: int| 0 <= i < r.0@.len() ==> low <= #[trigger] r.0@[i] < high,
        r.1@.len() == guesses@.len(),
        forall|i: int| 0 <= i < r.1@.len() ==> #[trigger] r.1@[i] == guess_kind(guesses@[i], r.0@[i]),
        *final(match_score) == tally(*old(match_score), guesses@, r.0@),
{
    let mut rolls: Vec<u32> = Vec::new();
    let mut i: usize = 0;
    while i < guesses.len()
        invariant
            i <= guesses@.len(),
            low < high,
            rolls@.len() == i,
            forall|k: int| 0 <= k < i ==> low <= #[trigger] rolls@[k] < high,
        decreases guesses@.len() - i,
    {
        let roll = random_in(low, high);
        rolls.push(roll);
        i = i + 1;
    }
    let kinds = score_guesses(guesses, &rolls, match_score);
    (rolls, kinds)
}

/// The match result with its score raised to the next even number when odd.
pub open spec fn finalized(m: MatchScore) -> MatchScore {
    MatchScore {
        score: if m.score % 2 == 0 {
            m.score
        } else {
            (m.score + 1) as i64
        },
        ..m
    }
}

/// Makes the final score of a match even, as the server expects it.
pub fn finalize_score(match_score: &mut MatchScore)
    requires
        old(match_score).score < i64::MAX,
    ensures
        *final(match_score) == finalized(*old(match_score)),
{
    match_score.score = match_score.score + if match_score.score % 2 == 0 {
        0
    } else {
        1
    };
}

/// Whether the score of a match result is what its counts give: 111 per hit, 31 per
/// special, minus 23 per miss.
pub open spec fn score_matches_counts(m: MatchScore) -> bool {
    m.score == m.hits * 111 + m.specials * 31 - m.misses * 23
}

/// Scoring guesses keeps the score equal to what the counts give.
pub proof fn lemma_tally_matches_counts(m: MatchScore, guesses: Seq<u32>, rolls: Seq<u32>)
    requires
        score_matches_counts(m),
        guesses.len() == rolls.len(),
        room_for(m, guesses.len() as int),
    ensures
        score_matches_counts(tally(m, guesses, rolls)),
    decreases guesses.len(),
{
    if guesses.len() > 0 {
        lemma_tally_matches_counts(m, guesses.drop_last(), rolls.drop_last());
        lemma_tally_bounds(m, guesses.drop_last(), rolls.drop_last());
        lemma_tally_bounds(m, guesses, rolls);
    }
}

/// A match result whose score is what its counts give, made even by `finalize_score`,
/// passes the server's check when it has at most 50 hits.
pub proof fn lemma_finalized_accepted(m: MatchScore)
    requires
        score_matches_counts(m),
        m.hits <= ST_HIGH * 5,
        m.score < i64::MAX,
    ensures
        score_accepted(finalized(m)),
        validated_score(finalized(m)) == finalized(m).score,
{
}

/// Whether a name or a password has an accepted length: 3 to 16 bytes.
pub open spec fn credential_ok_spec(s: Seq<char>) -> bool {
    3 <= utf8_len(s) <= 16
}

/// Checks the length of a name or a password typed at login.
pub fn credential_ok(s: &String) -> (ok: bool)
    ensures
        ok == credential_ok_spec(s@),
{
    let n = s.as_str().as_bytes().len();
    3 <= n && n <= 16
}

/// The referral code of a typed line: the trimmed line as a signed number, or 0.
pub open spec fn referral_spec(line: Seq<char>) -> i64 {
    match parse_i64_spec(trim(line)) {
        Some(v) => v,
        None => 0,
    }
}

/// Reads the referral code that the player typed.
pub fn parse_referral(line: &str) -> (r: i64)
    ensures
        r == referral_spec(line@),
{
    let chars = chars_of(line);
    let trimmed = trim_chars(&chars);
    match parse_i64(&trimmed) {
        Some(v) => v,
        None => 0,
    }
}

/// The status and the player of the first login answer among received packets.
pub fn login_reply(packets: &Vec<PacketTypes>) -> (r: Option<(StatusAnswerPlayer, Player)>)
    ensures
        match r {
            Some((s, p)) => exists|i: int|
                0 <= i < packets@.len() && (forall|k: int|
                    0 <= k < i ==> !(#[trigger] packets@[k] is AnswerPlayer)) && (
                #[trigger] packets@[i] matches PacketTypes::AnswerPlayer { status, player }
                    && status == s && player@ == p@),
            None => forall|k: int| 0 <= k < packets@.len() ==> !(#[trigger] packets@[k] is AnswerPlayer),
        },
{
    let mut i: usize = 0;
    while i < packets.len()
        invariant
            i <= packets@.len(),
            forall|k: int| 0 <= k < i ==> !(#[trigger] packets@[k] is AnswerPlayer),
        decreases packets@.len() - i,
    {
        match &packets[i] {
            PacketTypes::AnswerPlayer { status, player } => {
                return Some((*status, player.clone()));
            },
            _ => {},
        }
        i = i + 1;
    }
    None
}

/// The settings of the first game-data answer among received packets: the message of the
/// day, the lowest number, the bound above the highest, and the number of rounds.
pub fn game_data_reply(packets: &Vec<PacketTypes>) -> (r: Option<(String, u32, u32, u32)>)
    ensures
        match r {
            Some((m, l, h, g)) => exists|i: int|
                0 <= i < packets@.len() && (forall|k: int|
                    0 <= k < i ==> !(#[trigger] packets@[k] is AnswerGameData)) && (
                #[trigger] packets@[i] matches PacketTypes::AnswerGameData { motd, low, high, games }
                    && motd@ == m@ && low == l && high == h && games == g),
            None => forall|k: int|
                0 <= k < packets@.len() ==> !(#[trigger] packets@[k] is AnswerGameData),
        },
{
    let mut i: usize = 0;
    while i < packets.len()
        invariant
            i <= packets@.len(),
            forall|k: int| 0 <= k < i ==> !(#[trigger] packets@[k] is AnswerGameData),
        decreases packets@.len() - i,
    {
        match &packets[i] {
            PacketTypes::AnswerGameData { motd, low, high, games } => {
                return Some((motd.clone(), *low, *high, *games));
            },
            _ => {},
        }
        i = i + 1;
    }
    None
}

/// The players of the first list of players among received packets.
pub fn online_players_reply(packets: &Vec<PacketTypes>) -> (r: Option<Vec<Player>>)
    ensures
        match r {
            Some(v) => exists|i: int|
                0 <= i < packets@.len() && (forall|k: int|
                    0 <= k < i ==> !(#[trigger] packets@[k] is AnswerOnlinePlayers)) && (
                #[trigger] packets@[i] matches PacketTypes::AnswerOnlinePlayers { players }
                    && crate::serialization::players_view(players@)
                    == crate::serialization::players_view(v@)),
            None => forall|k: int|
                0 <= k < packets@.len() ==> !(#[trigger] packets@[k] is AnswerOnlinePlayers),
        },
{
    let mut i: usize = 0;
    while i < packets.len()
        invariant
            i <= packets@.len(),
            forall|k: int| 0 <= k < i ==> !(#[trigger] packets@[k] is AnswerOnlinePlayers),
        decreases packets@.len() - i,
    {
        match &packets[i] {
            PacketTypes::AnswerOnlinePlayers { players } => {
                let mut copy: Vec<Player> = Vec::new();
                let mut j: usize = 0;
                while j < players.len()
                    invariant
                        j <= players@.len(),
                        crate::serialization::players_view(copy@)
                            == crate::serialization::players_view(players@.take(j as int)),
                    decreases players@.len() - j,
                {
                    let c = players[j].clone();
                    let ghost before = copy@;
                    copy.push(c);
                    proof {
                        assert(players@.take(j + 1) =~= players@.take(j as int).push(players@[j as int]));
                        assert(copy@ =~= before.push(c));
                        assert(crate::serialization::players_view(before.push(c))
                            =~= crate::serialization::players_view(before).push(c@));
                        assert(crate::serialization::players_view(players@.take(j as int).push(players@[j as int]))
                            =~= crate::serialization::players_view(players@.take(j as int)).push(players@[j as int]@));
                    }
                    j = j + 1;
                    assert(crate::serialization::players_view(copy@)
                        =~= crate::serialization::players_view(players@.take(j as int)));
                }
                assert(players@.take(players@.len() as int) =~= players@);
                return Some(copy);
            },
            _ => {},
        }
        i = i + 1;
    }
    None
}

/// A name padded for the ranking: followed by spaces up to 16 bytes, and a dash.
pub open spec fn padded_name(name: Seq<char>) -> Seq<char> {
    name + Seq::new((16 - utf8_len(name)) as nat, |i: int| ' ') + seq!['-']
}

/// Pads a name (shorter than 16 bytes) for the ranking.
pub fn pad_name(name: &String) -> (r: String)
    requires
        utf8_len(name@) < 16,
    ensures
        r@ == padded_name(name@),
{
    let len_spce = 16 - name.as_str().len();
    let mut r = name.clone();
    let mut k: usize = 0;
    while k < len_spce - 1
        invariant
            k <= len_spce - 1,
            len_spce == 16 - utf8_len(name@),
            1 <= len_spce <= 16,
            r@ == name@ + Seq::new(k as nat, |i: int| ' '),
        decreases len_spce - 1 - k,
    {
        crate::text::push_char(&mut r, ' ');
        k = k + 1;
        assert(r@ =~= name@ + Seq::new(k as nat, |i: int| ' '));
    }
    crate::text::push_char(&mut r, ' ');
    crate::text::push_char(&mut r, '-');
    assert(r@ =~= padded_name(name@));
    r
}

/// The mark that the ranking shows beside a player.
#[derive(Debug, Clone, Copy, PartialEq, Eq, Structural)]
pub enum Badge {
    /// `[ADMIN]`.
    Admin,
    /// `[4/4 FLGS GJ!]`, for a score of 4321.
    AllFlags,
    /// `[3/4 FLGS]`, for a score of 2776.
    ThreeFlags,
    /// No mark.
    NoBadge,
}

/// The mark of a player in the ranking.
pub open spec fn badge_spec(p: PlayerV) -> Badge {
    if p.is_admin {
        Badge::Admin
    } else if p.score == 4321 {
        Badge::AllFlags
    } else if p.score == 2776 {
        Badge::ThreeFlags
    } else {
        Badge::NoBadge
    }
}

/// The mark of a player in the ranking.
pub fn player_badge(p: &Player) -> (b: Badge)
    ensures
        b == badge_spec(p@),
{
    if p.is_admin {
        Badge::Admin
    } else if p.score == 4321 {
        Badge::AllFlags
    } else if p.score == 2776 {
        Badge::ThreeFlags
    } else {
        Badge::NoBadge
    }
}

/// The match result that a fresh client reports after scoring its guesses and making
/// the score even passes the server's check, when it has at most 50 hits: what the
/// client computes, the server expects.
pub proof fn lemma_honest_score_accepted(guesses: Seq<u32>, rolls: Seq<u32>)
    requires
        guesses.len() == rolls.len(),
        guesses.len() <= 1000,
    ensures
        ({
            let m = tally(MatchScore { hits: 0, specials: 0, misses: 0, score: 0 }, guesses, rolls);
            m.hits <= ST_HIGH * 5 ==> score_accepted(finalized(m))
        }),
{
    let m0 = MatchScore { hits: 0, specials: 0, misses: 0, score: 0 };
    lemma_tally_matches_counts(m0, guesses, rolls);
    lemma_tally_bounds(m0, guesses, rolls);
    let m = tally(m0, guesses, rolls);
    if m.hits <= ST_HIGH * 5 {
        lemma_finalized_accepted(m);
    }
}

/// A guess hits exactly when it is the drawn number. Any other guess is special exactly
/// when it is above 1 and divides the drawn number, and a miss in every other case.
pub proof fn lemma_guess_kinds(g: u32, r: u32)
    ensures
        (guess_kind(g, r) == GuessKind::Hit) <==> g == r,
        (guess_kind(g, r) == GuessKind::Special) <==> (g != r && g > 1 && r % g == 0),
        (guess_kind(g, r) == GuessKind::Miss) <==> (g != r && !(g > 1 && r % g == 0)),
{
}

/// Scoring one more guess against one more drawn number: a hit adds a hit and 111
/// points; a guess above 1 that divides its number without being it adds a special and
/// 31 points; any other guess adds a miss and takes 23 points.
pub proof fn lemma_tally_one_more(m: MatchScore, guesses: Seq<u32>, rolls: Seq<u32>, g: u32, r: u32)
    requires
        guesses.len() == rolls.len(),
    ensures
        ({
            let t = tally(m, guesses, rolls);
            let u = tally(m, guesses.push(g), rolls.push(r));
            if g == r {
                u == MatchScore { hits: (t.hits + 1) as u32, score: (t.score + 111) as i64, ..t }
            } else if g > 1 && r % g == 0 {
                u == MatchScore {
                    specials: (t.specials + 1) as u32,
                    score: (t.score + 31) as i64,
                    ..t
                }
            } else {
                u == MatchScore { misses: (t.misses + 1) as u32, score: (t.score - 23) as i64, ..t }
            }
        }),
{
    assert(guesses.push(g).drop_last() =~= guesses);
    assert(rolls.push(r).drop_last() =~= rolls);
}

} // verus!
