//! The command-line front end: the listing of games and the reading of the
//! user's choice.
use vstd::prelude::*;

use crate::game::GameInfo;
use crate::text;
use crate::text::{parse_usize, push_str, trimmed, usize_to_string};

verus! {

/// The banner printed above the list of games.
pub open spec fn intro_header() -> Seq<char> {
    "----------------------------------\n|        Steam Remote Play       |\n----------------------------------"@
}

/// The line that lists game `i` under the name `name`.
pub open spec fn game_line(i: nat, name: Seq<char>) -> Seq<char> {
    "  "@ + text::decimal(i) + ". "@ + name
}

/// The lines that list the games: the banner, then one line per game with
/// its number and the name shown for it.
pub fn display_games(games: &Vec<GameInfo>) -> (res: Vec<String>)
    ensures
        res.len() == games.len() + 1,
        res[0]@ == intro_header(),
        forall|i: int|
            0 <= i < games.len() ==> #[trigger] res[i + 1]@ == game_line(
                i as nat,
                games[i]@.display_name(),
            ),
{
    let mut res: Vec<String> = Vec::new();
    res.push(
        "----------------------------------\n|        Steam Remote Play       |\n----------------------------------".to_owned(),
    );
    let mut i: usize = 0;
    while i < games.len()
        invariant
            i <= games.len(),
            res.len() == i + 1,
            res[0]@ == intro_header(),
            forall|j: int|
                0 <= j < i ==> #[trigger] res[j + 1]@ == game_line(
                    j as nat,
                    games[j]@.display_name(),
                ),
        decreases games.len() - i,
    {
        let mut line = "  ".to_owned();
        let number = usize_to_string(i);
        push_str(&mut line, number.as_str());
        push_str(&mut line, ". ");
        let name = games[i].display_name();
        push_str(&mut line, name.as_str());
        res.push(line);
        i = i + 1;
    }
    res
}

/// What a line typed at the prompt asks for.
pub enum CliCommand {
    /// `q` or `Q`: leave.
    Quit,
    /// `c` or `C`: clear the screen and list the games again.
    Clear,
    /// Neither a command nor a number.
    NotANumber,
    /// A number that is not the number of a game.
    OutOfRange,
    /// Start the game with this number.
    Launch(usize),
}

/// What the line `input` asks for when there are `game_count` games. The
/// line is trimmed; `q` and `c` are read without regard to case (no other
/// trimmed line lower-cases to them), and otherwise the line must be a
/// number below `game_count`.
pub open spec fn cli_command_spec(input: Seq<char>, game_count: nat) -> CliCommand {
    let t = text::trim(input);
    if t == seq!['q'] || t == seq!['Q'] {
        CliCommand::Quit
    } else if t == seq!['c'] || t == seq!['C'] {
        CliCommand::Clear
    } else {
        match text::parse_usize_spec(t) {
            None => CliCommand::NotANumber,
            Some(n) => if n >= game_count {
                CliCommand::OutOfRange
            } else {
                CliCommand::Launch(n)
            },
        }
    }
}

/// Law: typing the number of a listed game, with any white space around it,
/// starts that game; typing a larger number is refused as out of range.
pub proof fn listed_numbers_launch(n: usize, game_count: usize, pre: Seq<char>, post: Seq<char>)
    requires
        text::all_white(pre),
        text::all_white(post),
    ensures
        n < game_count ==> cli_command_spec(pre + text::decimal(n as nat) + post, game_count as nat)
            == CliCommand::Launch(n),
        n >= game_count ==> cli_command_spec(pre + text::decimal(n as nat) + post, game_count as nat)
            == CliCommand::OutOfRange,
{
    let d = text::decimal(n as nat);
    text::lemma_decimal_digits(n as nat);
    text::decimal_parses_back(n);
    assert(text::is_digit(d[0]));
    assert(text::is_digit(d[d.len() - 1]));
    text::lemma_trim_surrounded(pre, d, post);
    assert(d != seq!['q'] && d != seq!['Q'] && d != seq!['c'] && d != seq!['C']) by {
        if d.len() == 1 {
            assert(text::is_digit(d[0]));
        }
    }
}

/// Reads the line `input` typed at the prompt when there are `game_count`
/// games.
pub fn cli_command(input: &str, game_count: usize) -> (res: CliCommand)
    ensures
        res == cli_command_spec(input@, game_count as nat),
{
    let t = trimmed(input);
    let v = crate::text::chars_of(t.as_str());
    if v.len() == 1 && (v[0] == 'q' || v[0] == 'Q') {
        assert(t@ =~= seq![v[0]]);
        return CliCommand::Quit;
    }
    if v.len() == 1 && (v[0] == 'c' || v[0] == 'C') {
        assert(t@ =~= seq![v[0]]);
        return CliCommand::Clear;
    }
    proof {
        if v.len() == 1 {
            assert(t@ == seq![v[0]]);
        }
    }
    match parse_usize(t.as_str()) {
        None => CliCommand::NotANumber,
        Some(n) => {
            if n >= game_count {
                CliCommand::OutOfRange
            } else {
                CliCommand::Launch(n)
            }
        },
    }
}

} // verus!
