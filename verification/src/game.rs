use vstd::prelude::*;
use rand::RngExt;
use crate::parse::decimal_of;
use crate::parse::decimal_string;
use crate::parse::lemma_decimal_round_trip;
use crate::parse::parse_guess;
use crate::parse::parse_guess_spec;
use vstd::string::StringExecFns;

verus! {

/// The three-way result of comparing a guess against the secret.
#[derive(Clone, Copy, PartialEq, Eq, Structural, Debug)]
pub enum Outcome {
    TooSmall,
    TooBig,
    Win,
}

/// Where a guess falls: below, above, or exactly on the secret.
pub open spec fn outcome_of(guess: u32, secret: u32) -> Outcome {
    if guess < secret {
        Outcome::TooSmall
    } else if guess > secret {
        Outcome::TooBig
    } else {
        Outcome::Win
    }
}

/// Compare a parsed guess against the secret.
pub fn evaluate_guess(guess: u32, secret: u32) -> (o: Outcome)
    ensures
        o == outcome_of(guess, secret),
{
    if guess < secret {
        Outcome::TooSmall
    } else if guess > secret {
        Outcome::TooBig
    } else {
        Outcome::Win
    }
}

/// The reply to one line of input: either the line was not a number, or the
/// three-way outcome of the parsed guess.
#[derive(Clone, Copy, PartialEq, Eq, Structural, Debug)]
pub enum Reply {
    Invalid,
    TooSmall,
    TooBig,
    Win,
}

/// The reply that one line of input draws against the secret.
pub open spec fn reply_of(secret: u32, line: Seq<char>) -> Reply {
    match parse_guess_spec(line) {
        Option::None => Reply::Invalid,
        Option::Some(g) => match outcome_of(g, secret) {
            Outcome::TooSmall => Reply::TooSmall,
            Outcome::TooBig => Reply::TooBig,
            Outcome::Win => Reply::Win,
        },
    }
}

/// The exact feedback line printed for a reply.
pub open spec fn message_of(r: Reply) -> Seq<char> {
    match r {
        Reply::Invalid => "Please enter a valid number."@,
        Reply::TooSmall => "Too small!"@,
        Reply::TooBig => "Too big!"@,
        Reply::Win => "You win!"@,
    }
}

/// The feedback line for a reply.
pub fn reply_message(r: Reply) -> (m: String)
    ensures
        m@ == message_of(r),
{
    match r {
        Reply::Invalid => "Please enter a valid number.".to_owned(),
        Reply::TooSmall => "Too small!".to_owned(),
        Reply::TooBig => "Too big!".to_owned(),
        Reply::Win => "You win!".to_owned(),
    }
}

/// The banner printed once at the start of a game.
pub fn greeting() -> (m: String)
    ensures
        m@ == "Guess a number!"@,
{
    "Guess a number!".to_owned()
}

/// The prompt printed before each guess is read.
pub fn prompt() -> (m: String)
    ensures
        m@ == "Please input your guess:"@,
{
    "Please input your guess:".to_owned()
}

/// The exact line reporting a parsed guess back to the player.
pub open spec fn guess_report_of(n: u32) -> Seq<char> {
    "You guessed: "@ + decimal_of(n as nat)
}

/// The line reporting a parsed guess back to the player.
pub fn guess_report(n: u32) -> (m: String)
    ensures
        m@ == guess_report_of(n),
{
    let mut m = "You guessed: ".to_owned();
    let numeral = decimal_string(n);
    m.append(numeral.as_str());
    m
}

/// The parsed guess (if the line was a number) and the reply it draws.
pub struct LineResult {
    pub guess: Option<u32>,
    pub reply: Reply,
}

/// Evaluate one line of input against the secret.
pub fn process_line(secret: u32, line: &str) -> (res: LineResult)
    ensures
        res.guess == parse_guess_spec(line@),
        res.reply == reply_of(secret, line@),
{
    match parse_guess(line) {
        Option::None => LineResult { guess: None, reply: Reply::Invalid },
        Option::Some(g) => {
            let reply = match evaluate_guess(g, secret) {
                Outcome::TooSmall => Reply::TooSmall,
                Outcome::TooBig => Reply::TooBig,
                Outcome::Win => Reply::Win,
            };
            LineResult { guess: Some(g), reply }
        },
    }
}

/// Relies on rand's `RngExt::random_range` on a thread-local generator: a
/// uniform draw within the given range, so with `1..=100` the result lies
/// between 1 and 100 inclusive.
#[verifier::external_body]
fn random_secret() -> (s: u32)
    ensures
        1 <= s <= 100,
{
    rand::rng().random_range(1..=100)
}

/// The phase of a game: still playing, or won.
#[derive(Clone, Copy, PartialEq, Eq, Structural, Debug)]
pub enum Status {
    Playing,
    Won,
}

/// One game: a fixed secret between 1 and 100, and the current phase.
pub struct Game {
    pub secret: u32,
    pub status: Status,
}

impl Game {
    /// The secret stays within its range.
    pub open spec fn wf(self) -> bool {
        1 <= self.secret <= 100
    }

    /// Start a game with the given secret.
    pub fn new(secret: u32) -> (g: Game)
        requires
            1 <= secret <= 100,
        ensures
            g.secret == secret,
            g.status == Status::Playing,
            g.wf(),
    {
        Game { secret, status: Status::Playing }
    }

    /// Start a game with a freshly drawn random secret.
    pub fn with_random_secret() -> (g: Game)
        ensures
            g.status == Status::Playing,
            g.wf(),
    {
        let secret = random_secret();
        Game::new(secret)
    }

    /// Offer one line of input as a guess. The secret never changes, and the
    /// game moves to `Won` exactly when the line parses to the secret.
    pub fn submit(&mut self, line: &str) -> (res: LineResult)
        requires
            old(self).status == Status::Playing,
        ensures
            res.guess == parse_guess_spec(line@),
            res.reply == reply_of(old(self).secret, line@),
            final(self).secret == old(self).secret,
            final(self).status == (if res.reply == Reply::Win {
                Status::Won
            } else {
                Status::Playing
            }),
    {
        let res = process_line(self.secret, line);
        if res.reply == Reply::Win {
            self.status = Status::Won;
        }
        res
    }
}

/// The replies drawn by a scripted sequence of input lines read from position
/// `i` onward: one reply per line, stopping right after the first win.
pub open spec fn replies_from(secret: u32, lines: Seq<Seq<char>>, i: int) -> Seq<Reply>
    decreases lines.len() - i,
{
    if i < 0 || i >= lines.len() {
        Seq::empty()
    } else {
        let r = reply_of(secret, lines[i]);
        if r == Reply::Win {
            seq![r]
        } else {
            seq![r] + replies_from(secret, lines, i + 1)
        }
    }
}

/// The replies of a whole scripted session.
pub open spec fn script_replies(secret: u32, lines: Seq<Seq<char>>) -> Seq<Reply> {
    replies_from(secret, lines, 0)
}

/// The character sequences of a vector of input lines.
pub open spec fn line_views(lines: Seq<String>) -> Seq<Seq<char>> {
    lines.map_values(|l: String| l@)
}

/// Play a whole scripted session: evaluate each line in order and stop right
/// after the first winning guess; later lines are never looked at.
pub fn play_script(secret: u32, lines: &Vec<String>) -> (replies: Vec<Reply>)
    ensures
        replies@ == script_replies(secret, line_views(lines@)),
{
    let ghost ls = line_views(lines@);
    let mut replies: Vec<Reply> = Vec::new();
    let mut i: usize = 0;
    while i < lines.len()
        invariant
            0 <= i <= lines.len(),
            ls == line_views(lines@),
            ls.len() == lines@.len(),
            script_replies(secret, ls) == replies@ + replies_from(secret, ls, i as int),
        decreases lines.len() - i,
    {
        let res = process_line(secret, &lines[i]);
        proof {
            assert(ls[i as int] == lines@[i as int]@);
        }
        let is_win: bool = res.reply == Reply::Win;
        let ghost prev = replies@;
        replies.push(res.reply);
        if is_win {
            proof {
                assert(replies_from(secret, ls, i as int) =~= seq![res.reply]);
                assert(prev + seq![res.reply] =~= replies@);
            }
            return replies;
        }
        proof {
            assert(replies_from(secret, ls, i as int) == seq![res.reply] + replies_from(
                secret,
                ls,
                i + 1,
            ));
            assert(prev + (seq![res.reply] + replies_from(secret, ls, i + 1)) =~= replies@
                + replies_from(secret, ls, i + 1));
        }
        i = i + 1;
    }
    proof {
        assert(replies_from(secret, ls, i as int) =~= Seq::<Reply>::empty());
        assert(replies@ + Seq::<Reply>::empty() =~= replies@);
    }
    replies
}

/// A line wins the game exactly when it parses to the secret.
pub proof fn lemma_win_iff_secret(secret: u32, line: Seq<char>)
    ensures
        reply_of(secret, line) == Reply::Win <==> parse_guess_spec(line) == Some(secret),
{
}

/// A line that does not parse as a number draws the invalid-number message,
/// and the game goes on.
pub proof fn lemma_invalid_line(secret: u32, line: Seq<char>)
    requires
        parse_guess_spec(line) is None,
    ensures
        reply_of(secret, line) == Reply::Invalid,
        message_of(reply_of(secret, line)) == "Please enter a valid number."@,
        reply_of(secret, line) != Reply::Win,
{
}

/// A guess below the secret draws "Too small!", a guess above it draws
/// "Too big!", and in both cases the game goes on.
pub proof fn lemma_wrong_guess(secret: u32, line: Seq<char>, g: u32)
    requires
        parse_guess_spec(line) == Some(g),
        g != secret,
    ensures
        g < secret ==> message_of(reply_of(secret, line)) == "Too small!"@,
        g > secret ==> message_of(reply_of(secret, line)) == "Too big!"@,
        reply_of(secret, line) != Reply::Win,
{
}

proof fn lemma_replies_from_wins(secret: u32, lines: Seq<Seq<char>>, j: int, i: int)
    requires
        0 <= j <= i < lines.len(),
        parse_guess_spec(lines[i]) == Some(secret),
    ensures
        ({
            let rs = replies_from(secret, lines, j);
            1 <= rs.len() <= i + 1 - j && rs.last() == Reply::Win
        }),
    decreases i - j,
{
    let r = reply_of(secret, lines[j]);
    if r != Reply::Win {
        assert(j != i);
        lemma_replies_from_wins(secret, lines, j + 1, i);
    }
}

/// A scripted session whose lines include the secret terminates: it draws at
/// most one reply per line up to that point, and the last reply — hence the
/// last feedback printed — is the winning one.
pub proof fn lemma_script_wins(secret: u32, lines: Seq<Seq<char>>, i: int)
    requires
        0 <= i < lines.len(),
        parse_guess_spec(lines[i]) == Some(secret),
    ensures
        ({
            let rs = script_replies(secret, lines);
            1 <= rs.len() <= i + 1 && rs.last() == Reply::Win && message_of(rs.last())
                == "You win!"@
        }),
{
    lemma_replies_from_wins(secret, lines, 0, i);
}

/// A scripted session whose last line is the secret written out in decimal
/// terminates — at the latest on that line — and the last feedback drawn is
/// the winning one.
pub proof fn lemma_script_with_secret_literal(secret: u32, lines: Seq<Seq<char>>)
    requires
        lines.len() > 0,
        lines.last() == decimal_of(secret as nat),
    ensures
        ({
            let rs = script_replies(secret, lines);
            1 <= rs.len() <= lines.len() && rs.last() == Reply::Win && message_of(rs.last())
                == "You win!"@
        }),
{
    lemma_decimal_round_trip(secret);
    lemma_script_wins(secret, lines, lines.len() - 1);
}

proof fn lemma_replies_from_repeated(secret: u32, line: Seq<char>, n: nat, j: int)
    requires
        0 <= j <= n,
        reply_of(secret, line) != Reply::Win,
    ensures
        ({
            let rs = replies_from(secret, Seq::new(n, |k: int| line), j);
            rs.len() == n - j && forall|k: int|
                0 <= k < rs.len() ==> rs[k] == reply_of(secret, line)
        }),
    decreases n - j,
{
    if j < n {
        lemma_replies_from_repeated(secret, line, n, j + 1);
    }
}

/// Repeating the same losing line leaves the game exactly where it was: every
/// repetition draws the same reply, and the session never ends on its own.
pub proof fn lemma_repeated_wrong_guess(secret: u32, line: Seq<char>, n: nat)
    requires
        reply_of(secret, line) != Reply::Win,
    ensures
        ({
            let rs = script_replies(secret, Seq::new(n, |k: int| line));
            rs.len() == n && forall|k: int|
                0 <= k < rs.len() ==> rs[k] == reply_of(secret, line)
        }),
{
    lemma_replies_from_repeated(secret, line, n, 0);
}

} // verus!
