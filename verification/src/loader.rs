//! Reading the list of games: the plain-text format, the lookup in a parsed
//! TOML table, the choice of configuration file and its error messages.
use vstd::prelude::*;

use crate::game::{GameInfo, GameInfoView};
use crate::text;
use crate::text::{
    chars_of, push_str, split_chars, str_ends_with, str_eq, string_of, string_of_range, trim_bounds,
};

verus! {

/// The state of the argument splitter after reading `s`: the finished
/// arguments, the argument being read, and whether a quote is open.
pub open spec fn split_args_scan(s: Seq<char>) -> (Seq<Seq<char>>, Seq<char>, bool)
    decreases s.len(),
{
    if s.len() == 0 {
        (Seq::empty(), Seq::empty(), false)
    } else {
        let (args, cur, quoted) = split_args_scan(s.drop_last());
        let c = s.last();
        if c == '"' {
            (args, cur, !quoted)
        } else if c == ' ' && !quoted {
            if cur.len() > 0 {
                (args.push(cur), Seq::empty(), quoted)
            } else {
                (args, cur, quoted)
            }
        } else {
            (args, cur.push(c), quoted)
        }
    }
}

/// The words of a launch command: split at spaces outside double quotes,
/// with the quotes themselves dropped and empty words left out.
pub open spec fn split_args_spec(s: Seq<char>) -> Seq<Seq<char>> {
    let (args, cur, _) = split_args_scan(s);
    if cur.len() > 0 {
        args.push(cur)
    } else {
        args
    }
}

/// Splits the characters `v` of a launch command into its words.
fn split_args_chars(v: &Vec<char>) -> (res: Vec<String>)
    ensures
        res.deep_view() == split_args_spec(v@),
{
    let mut args: Vec<String> = Vec::new();
    let mut current: Vec<char> = Vec::new();
    let mut in_quotes = false;
    let n = v.len();
    let mut i: usize = 0;
    assert(v@.take(0) =~= Seq::<char>::empty());
    assert(args.deep_view() =~= Seq::<Seq<char>>::empty());
    while i < n
        invariant
            i <= n == v.len(),
            split_args_scan(v@.take(i as int)) == (args.deep_view(), current@, in_quotes),
        decreases n - i,
    {
        let c = v[i];
        assert(v@.take(i + 1).drop_last() =~= v@.take(i as int));
        if c == '"' {
            in_quotes = !in_quotes;
        } else if c == ' ' && !in_quotes {
            if current.len() > 0 {
                let ghost before = args.deep_view();
                let word = string_of(&current);
                args.push(word);
                current = Vec::new();
                assert(args.deep_view() =~= before.push(word@));
            }
        } else {
            current.push(c);
        }
        i = i + 1;
        assert(current@ =~= split_args_scan(v@.take(i as int)).1);
        assert(args.deep_view() =~= split_args_scan(v@.take(i as int)).0);
    }
    assert(v@.take(n as int) =~= v@);
    if current.len() > 0 {
        let ghost before = args.deep_view();
        let word = string_of(&current);
        args.push(word);
        assert(args.deep_view() =~= before.push(word@));
    }
    args
}

/// Splits a launch command into the program and its arguments: words are
/// separated by spaces, double quotes group words with spaces in them and
/// are removed, and empty words are dropped.
pub fn split_args(input: &str) -> (res: Vec<String>)
    ensures
        res.deep_view() == split_args_spec(input@),
{
    let v = chars_of(input);
    split_args_chars(&v)
}

/// Whether no character of `s` is a double quote.
pub open spec fn quote_free(s: Seq<char>) -> bool {
    forall|i: int| 0 <= i < s.len() ==> #[trigger] s[i] != '"'
}

/// What the splitter keeps while it reads: finished words are non-empty and
/// no word holds a double quote.
proof fn lemma_split_args_scan_words(s: Seq<char>)
    ensures
        forall|k: int|
            0 <= k < split_args_scan(s).0.len() ==> (#[trigger] split_args_scan(s).0[k]).len() > 0
                && quote_free(split_args_scan(s).0[k]),
        quote_free(split_args_scan(s).1),
    decreases s.len(),
{
    if s.len() > 0 {
        lemma_split_args_scan_words(s.drop_last());
    }
}

/// The non-empty pieces among `ps`, in order.
pub open spec fn nonempty_words(ps: Seq<Seq<char>>) -> Seq<Seq<char>>
    decreases ps.len(),
{
    if ps.len() == 0 {
        Seq::empty()
    } else {
        let rest = nonempty_words(ps.drop_last());
        if ps.last().len() > 0 {
            rest.push(ps.last())
        } else {
            rest
        }
    }
}

/// Without quotes, the splitter's state follows the pieces between spaces.
proof fn lemma_split_args_scan_unquoted(s: Seq<char>)
    requires
        quote_free(s),
    ensures
        split_args_scan(s) == (
            nonempty_words(text::split_on(s, ' ').drop_last()),
            text::split_on(s, ' ').last(),
            false,
        ),
    decreases s.len(),
{
    text::lemma_split_on_nonempty(s, ' ');
    if s.len() == 0 {
        assert(text::split_on(s, ' ').drop_last() =~= Seq::<Seq<char>>::empty());
    } else {
        let p = s.drop_last();
        assert(quote_free(p)) by {
            assert forall|i: int| 0 <= i < p.len() implies #[trigger] p[i] != '"' by {
                assert(p[i] == s[i]);
            }
        }
        lemma_split_args_scan_unquoted(p);
        text::lemma_split_on_nonempty(p, ' ');
        let parts = text::split_on(p, ' ');
        assert(s.last() == s[s.len() - 1]);
        if s.last() == ' ' {
            assert(text::split_on(s, ' ').drop_last() =~= parts);
            assert(parts =~= parts.drop_last().push(parts.last()));
        } else {
            let q = text::split_on(s, ' ');
            assert(q.drop_last() =~= parts.drop_last());
        }
    }
}

/// Law: a launch command without double quotes splits into its non-empty
/// pieces between spaces.
pub proof fn unquoted_commands_split_at_spaces(s: Seq<char>)
    requires
        quote_free(s),
    ensures
        split_args_spec(s) == nonempty_words(text::split_on(s, ' ')),
{
    lemma_split_args_scan_unquoted(s);
    text::lemma_split_on_nonempty(s, ' ');
    let parts = text::split_on(s, ' ');
    assert(parts =~= parts.drop_last().push(parts.last()));
}

/// Law: every word that `split_args` gives is non-empty and holds no double
/// quote.
pub proof fn split_args_words_are_clean(s: Seq<char>)
    ensures
        forall|k: int|
            0 <= k < split_args_spec(s).len() ==> (#[trigger] split_args_spec(s)[k]).len() > 0
                && quote_free(split_args_spec(s)[k]),
{
    lemma_split_args_scan_words(s);
}


/// Whether a line of the plain-text format describes a game: it is neither
/// blank nor a comment starting with `#`.
pub open spec fn is_game_line(line: Seq<char>) -> bool {
    let t = text::trim(line);
    t.len() > 0 && t[0] != '#'
}

/// The game that a line of the plain-text format describes: the words of the
/// part before the first `|` are the program and its arguments, and the
/// trimmed part after it, up to a second `|`, is the name.
pub open spec fn game_of_line(line: Seq<char>) -> GameInfoView {
    let parts = text::split_on(line, '|');
    let launch = split_args_spec(parts[0]);
    GameInfoView {
        path: if launch.len() > 0 {
            launch[0]
        } else {
            Seq::empty()
        },
        arguments: if launch.len() > 0 {
            launch.drop_first()
        } else {
            Seq::empty()
        },
        env_variables: Seq::empty(),
        name: if parts.len() >= 2 {
            text::trim(parts[1])
        } else {
            Seq::empty()
        },
    }
}

/// The games that the lines `ls` describe, in order.
pub open spec fn games_of_lines(ls: Seq<Seq<char>>) -> Seq<GameInfoView>
    decreases ls.len(),
{
    if ls.len() == 0 {
        Seq::empty()
    } else {
        let rest = games_of_lines(ls.drop_last());
        if is_game_line(ls.last()) {
            rest.push(game_of_line(ls.last()))
        } else {
            rest
        }
    }
}

/// The games that a plain-text configuration describes, one per line.
pub open spec fn parse_games_txt_spec(content: Seq<char>) -> Seq<GameInfoView> {
    games_of_lines(text::split_on(content, '\n'))
}

/// Whether the characters `line` describe a game.
fn line_has_game(line: &Vec<char>) -> (res: bool)
    ensures
        res == is_game_line(line@),
{
    let (a, b) = trim_bounds(line);
    a < b && line[a] != '#'
}

/// The game that the characters `line` describe.
fn game_from_line(line: &Vec<char>) -> (res: GameInfo)
    ensures
        res@ == game_of_line(line@),
{
    let parts = split_chars(line, '|');
    proof {
        text::lemma_split_on_nonempty(line@, '|');
    }
    assert(parts@[0]@ == parts.deep_view()[0]) by {
        text::lemma_chars_deep_view(&parts@[0]);
    }
    let mut launch = split_args_chars(&parts[0]);
    let ghost words = launch.deep_view();
    let path = if launch.len() > 0 {
        launch.remove(0)
    } else {
        String::new()
    };
    proof {
        if words.len() > 0 {
            assert(launch.deep_view() =~= words.drop_first());
        } else {
            assert(launch.deep_view() =~= Seq::<Seq<char>>::empty());
        }
    }
    let name = if parts.len() >= 2 {
        assert(parts@[1]@ == parts.deep_view()[1]) by {
            text::lemma_chars_deep_view(&parts@[1]);
        }
        let (a, b) = trim_bounds(&parts[1]);
        string_of_range(&parts[1], a, b)
    } else {
        String::new()
    };
    let env_variables: Vec<(String, String)> = Vec::new();
    let res = GameInfo { path, arguments: launch, env_variables, name };
    assert(res@.env_variables =~= Seq::<(Seq<char>, Seq<char>)>::empty());
    res
}

/// The games that a plain-text configuration describes. Each line that is
/// neither blank nor a `#` comment gives one game: the words before the
/// first `|` are the program and its arguments (see [`split_args`]), and the
/// trimmed text after it is the name.
pub fn parse_games_txt(content: &str) -> (res: Vec<GameInfo>)
    ensures
        res.deep_view() == parse_games_txt_spec(content@),
{
    let v = chars_of(content);
    let ls = split_chars(&v, '\n');
    let mut games: Vec<GameInfo> = Vec::new();
    let mut i: usize = 0;
    assert(ls.deep_view().take(0) =~= Seq::<Seq<char>>::empty());
    assert(games.deep_view() =~= Seq::<GameInfoView>::empty());
    while i < ls.len()
        invariant
            i <= ls.len(),
            ls.deep_view() == text::split_on(content@, '\n'),
            games.deep_view() == games_of_lines(ls.deep_view().take(i as int)),
        decreases ls.len() - i,
    {
        let line = &ls[i];
        proof {
            text::lemma_chars_deep_view(line);
            assert(ls.deep_view().take(i + 1).drop_last() =~= ls.deep_view().take(i as int));
            assert(ls.deep_view().take(i + 1).last() == line@);
        }
        if line_has_game(line) {
            let ghost before = games.deep_view();
            let g = game_from_line(line);
            games.push(g);
            assert(games.deep_view() =~= before.push(g@));
        }
        i = i + 1;
    }
    assert(ls.deep_view().take(ls.len() as int) =~= ls.deep_view());
    games
}


/// The games stored under `key` in a table of named game lists: those of the
/// first entry with that key, if there is one.
pub open spec fn table_lookup(table: Seq<(Seq<char>, Seq<GameInfoView>)>, key: Seq<char>) -> Option<
    Seq<GameInfoView>,
>
    decreases table.len(),
{
    if table.len() == 0 {
        None
    } else if table[0].0 == key {
        Some(table[0].1)
    } else {
        table_lookup(table.drop_first(), key)
    }
}

/// The games of a TOML configuration, from the result of parsing it into a
/// table of named game lists: a parse error is passed on, and otherwise the
/// games are those stored under the key `game`, which must be present.
pub fn parse_games_toml(parsed: Result<Vec<(String, Vec<GameInfo>)>, String>) -> (res: Result<
    Vec<GameInfo>,
    String,
>)
    ensures
        match parsed {
            Err(e) => res matches Err(r) && r@ == e@,
            Ok(table) => match table_lookup(table.deep_view(), "game"@) {
                Some(g) => res matches Ok(games) && games.deep_view() == g,
                None => res matches Err(r) && r@ == "Missing 'game' key in TOML file"@,
            },
        },
{
    match parsed {
        Err(e) => Err(e),
        Ok(table) => {
            let mut table = table;
            let ghost t = table.deep_view();
            let mut i: usize = 0;
            assert(t.skip(0) =~= t);
            while i < table.len()
                invariant
                    i <= table.len(),
                    table.deep_view() == t,
                    parsed matches Ok(t0) && t0.deep_view() == t,
                    table_lookup(t, "game"@) == table_lookup(t.skip(i as int), "game"@),
                decreases table.len() - i,
            {
                assert(t.skip(i as int).drop_first() =~= t.skip(i + 1));
                if str_eq(table[i].0.as_str(), "game") {
                    let entry = table.swap_remove(i);
                    return Ok(entry.1);
                }
                i = i + 1;
            }
            Err("Missing 'game' key in TOML file".to_owned())
        },
    }
}

/// The outcome of reading a configuration file.
pub enum ConfRead {
    /// The file was read; its text.
    Contents(String),
    /// The file does not exist; the error's text.
    NotFound(String),
    /// The file could not be read for another reason; the error's text.
    Failed(String),
}

/// What to do once the configuration file has been read.
pub enum ConfPlan {
    /// Parse this text as TOML.
    Toml(String),
    /// Parse this text in the plain-text format.
    Txt(String),
    /// Read the plain-text file at this path and parse it.
    ReadTxt(String),
    /// Give up with this message.
    Failed(String),
}

/// The configuration file to read first: the one given by the user, else
/// `games.toml`.
pub fn conf_file(custom_conf: &Option<String>) -> (res: String)
    ensures
        res@ == (match custom_conf {
            Some(c) => c@,
            None => "games.toml"@,
        }),
{
    match custom_conf {
        Some(c) => c.clone(),
        None => "games.toml".to_owned(),
    }
}

/// Decides how to go on once [`conf_file`] has been read. A file given by
/// the user is parsed as TOML when its name ends in `.toml` and as plain text
/// otherwise. Without one, `games.toml` is parsed; where it does not exist,
/// `games.txt` is used only if `games.toml` nevertheless exists when checked
/// again. Every failure comes with its message.
pub fn plan_config(custom_conf: &Option<String>, read: ConfRead, default_toml_exists: bool) -> (res:
    ConfPlan)
    ensures
        match custom_conf {
            Some(c) => match read {
                ConfRead::Contents(x) => if text::ends_with(c@, ".toml"@) {
                    res matches ConfPlan::Toml(y) && y@ == x@
                } else {
                    res matches ConfPlan::Txt(y) && y@ == x@
                },
                ConfRead::NotFound(e) => res matches ConfPlan::Failed(m) && m@
                    == "Could not find custom conf file: "@ + c@ + "\n"@ + e@,
                ConfRead::Failed(e) => res matches ConfPlan::Failed(m) && m@
                    == "Could not find custom conf file: "@ + c@ + "\n"@ + e@,
            },
            None => match read {
                ConfRead::Contents(x) => res matches ConfPlan::Toml(y) && y@ == x@,
                ConfRead::NotFound(e) => if default_toml_exists {
                    res matches ConfPlan::ReadTxt(p) && p@ == "games.txt"@
                } else {
                    res matches ConfPlan::Failed(m) && m@ == missing_conf_message()
                },
                ConfRead::Failed(e) => res matches ConfPlan::Failed(m) && m@ == "Error reading games.toml: "@
                    + e@,
            },
        },
{
    match custom_conf {
        Some(c) => match read {
            ConfRead::Contents(x) => {
                if str_ends_with(c.as_str(), ".toml") {
                    ConfPlan::Toml(x)
                } else {
                    ConfPlan::Txt(x)
                }
            },
            ConfRead::NotFound(e) => ConfPlan::Failed(custom_conf_error(c.as_str(), e.as_str())),
            ConfRead::Failed(e) => ConfPlan::Failed(custom_conf_error(c.as_str(), e.as_str())),
        },
        None => match read {
            ConfRead::Contents(x) => ConfPlan::Toml(x),
            ConfRead::NotFound(_) => {
                if default_toml_exists {
                    ConfPlan::ReadTxt("games.txt".to_owned())
                } else {
                    ConfPlan::Failed(
                        "No file games.txt or games.toml file was found.\nPlease Ensure a games.txt or games.toml exists and are placed in the same directory as this executable.".to_owned(),
                    )
                }
            },
            ConfRead::Failed(e) => {
                let mut m = "Error reading games.toml: ".to_owned();
                push_str(&mut m, e.as_str());
                ConfPlan::Failed(m)
            },
        },
    }
}

/// The message given when neither configuration file can be found.
pub open spec fn missing_conf_message() -> Seq<char> {
    "No file games.txt or games.toml file was found.\nPlease Ensure a games.txt or games.toml exists and are placed in the same directory as this executable."@
}

/// The message given when the configuration file named by the user cannot
/// be read.
fn custom_conf_error(path: &str, error: &str) -> (res: String)
    ensures
        res@ == "Could not find custom conf file: "@ + path@ + "\n"@ + error@,
{
    let mut m = "Could not find custom conf file: ".to_owned();
    push_str(&mut m, path);
    push_str(&mut m, "\n");
    push_str(&mut m, error);
    m
}

/// Records the configuration file named by the user. It can be set once.
pub fn set_custom_conf_path(custom_conf: &mut Option<String>, path: String)
    requires
        *old(custom_conf) is None,
    ensures
        *final(custom_conf) == Some(path),
{
    *custom_conf = Some(path);
}

/// The message given when a game cannot be started.
pub fn spawn_error_message(path: &str, error: &str) -> (res: String)
    ensures
        res@ == "Error running application: "@ + path@ + "\n"@ + error@,
{
    let mut m = "Error running application: ".to_owned();
    push_str(&mut m, path);
    push_str(&mut m, "\n");
    push_str(&mut m, error);
    m
}


/// The games of two lists of lines are those of each, in order.
proof fn lemma_games_of_lines_concat(a: Seq<Seq<char>>, b: Seq<Seq<char>>)
    ensures
        games_of_lines(a + b) == games_of_lines(a) + games_of_lines(b),
    decreases b.len(),
{
    if b.len() == 0 {
        assert(a + b =~= a);
        assert(games_of_lines(a) + games_of_lines(b) =~= games_of_lines(a));
    } else {
        assert((a + b).drop_last() =~= a + b.drop_last());
        lemma_games_of_lines_concat(a, b.drop_last());
        assert(games_of_lines(a + b) =~= games_of_lines(a) + games_of_lines(b));
    }
}

/// Law: joining two plain-text configurations with a line break gives the
/// games of the first followed by those of the second.
pub proof fn joined_configs_list_both(a: Seq<char>, b: Seq<char>)
    ensures
        parse_games_txt_spec(a.push('\n') + b) == parse_games_txt_spec(a) + parse_games_txt_spec(b),
{
    text::lemma_split_on_concat(a, b, '\n');
    lemma_games_of_lines_concat(text::split_on(a, '\n'), text::split_on(b, '\n'));
}

/// Law: a line that is neither blank nor a `#` comment gives exactly one
/// game. Its program followed by its arguments are all the words of the part
/// of the line before the first `|` (an empty path and no arguments where
/// there is no word); its name is the trimmed part after that `|`, up to the
/// next one, or empty; it sets no environment variables.
pub proof fn game_lines_give_their_game(line: Seq<char>)
    requires
        !line.contains('\n'),
        is_game_line(line),
    ensures
        ({
            let games = parse_games_txt_spec(line);
            let parts = text::split_on(line, '|');
            let words = split_args_spec(parts[0]);
            &&& games.len() == 1
            &&& words.len() > 0 ==> seq![games[0].path] + games[0].arguments == words
            &&& words.len() == 0 ==> games[0].path.len() == 0 && games[0].arguments.len() == 0
            &&& games[0].name == (if parts.len() >= 2 {
                text::trim(parts[1])
            } else {
                Seq::empty()
            })
            &&& games[0].env_variables.len() == 0
        }),
{
    lemma_split_on_single(line, '\n');
    assert(seq![line].drop_last() =~= Seq::<Seq<char>>::empty());
    assert(games_of_lines(Seq::<Seq<char>>::empty()) =~= Seq::<GameInfoView>::empty());
    assert(seq![line].last() == line);
    let g = game_of_line(line);
    assert(parse_games_txt_spec(line) =~= seq![g]);
    let words = split_args_spec(text::split_on(line, '|')[0]);
    if words.len() > 0 {
        assert(seq![g.path] + g.arguments =~= words);
    }
}

/// Law: a line that is blank or a `#` comment adds no game: appending it to
/// a configuration leaves its games unchanged.
pub proof fn comment_lines_add_no_game(a: Seq<char>, line: Seq<char>)
    requires
        !line.contains('\n'),
        !is_game_line(line),
    ensures
        parse_games_txt_spec(a.push('\n') + line) == parse_games_txt_spec(a),
{
    joined_configs_list_both(a, line);
    lemma_split_on_single(line, '\n');
    assert(seq![line].drop_last() =~= Seq::<Seq<char>>::empty());
    assert(games_of_lines(Seq::<Seq<char>>::empty()) =~= Seq::<GameInfoView>::empty());
    assert(seq![line].last() == line);
    assert(games_of_lines(seq![line]) =~= Seq::<GameInfoView>::empty());
    assert(parse_games_txt_spec(line) =~= Seq::<GameInfoView>::empty());
    assert(parse_games_txt_spec(a) + parse_games_txt_spec(line) =~= parse_games_txt_spec(a));
}

/// A text without the separator is a single piece.
proof fn lemma_split_on_single(s: Seq<char>, sep: char)
    requires
        !s.contains(sep),
    ensures
        text::split_on(s, sep) == seq![s],
    decreases s.len(),
{
    if s.len() > 0 {
        assert(!s.drop_last().contains(sep)) by {
            if s.drop_last().contains(sep) {
                let k = choose|k: int| 0 <= k < s.drop_last().len() && s.drop_last()[k] == sep;
                assert(s[k] == sep);
            }
        }
        lemma_split_on_single(s.drop_last(), sep);
        assert(s[s.len() - 1] != sep);
        assert(s.drop_last().push(s.last()) =~= s);
        let parts = seq![s.drop_last()];
        assert(parts.last() == s.drop_last());
        assert(parts.update(0, parts.last().push(s.last())) =~= seq![s]);
    } else {
        assert(s =~= Seq::<char>::empty());
    }
}

} // verus!
