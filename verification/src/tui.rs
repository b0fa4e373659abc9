//! The state of the terminal front end: which game is selected, what has
//! been typed, which screen is shown, and the text of each screen.
use vstd::prelude::*;

use crate::game::{pretty_debug, GameInfo, GameInfoView};
use crate::game;
use crate::text;
use crate::text::{
    byte_length, chars_of, count_digits, lines_of, pad_align_left, pad_align_right, pad_center,
    parse_usize, push_char, push_spaces, push_str, string_of_range, usize_to_string,
};

verus! {

/// The screen that the terminal front end shows.
#[derive(Clone, Copy, Debug, PartialEq, Eq, Structural)]
pub enum CurrentScreen {
    /// The list of games to pick from.
    SelectGame,
    /// The outcome of starting a game.
    LaunchGame,
    /// The games could not be loaded.
    LoadError,
}

impl Default for CurrentScreen {
    fn default() -> (res: CurrentScreen)
        ensures
            res == CurrentScreen::SelectGame,
    {
        CurrentScreen::SelectGame
    }
}

/// A key pressed by the user.
#[derive(Clone, Copy, Debug)]
pub enum Key {
    Esc,
    Char(char),
    Up,
    Down,
    Enter,
    Backspace,
    /// Any other key.
    Other,
}

/// The state of the terminal front end.
#[derive(Debug)]
pub struct App {
    games: Vec<GameInfo>,
    padded_titles: Vec<String>,
    index: usize,
    input_buf: String,
    current_screen: CurrentScreen,
    error: String,
    exit: bool,
}

/// What an [`App`] holds, as mathematical values.
pub struct AppView {
    pub games: Seq<GameInfoView>,
    pub padded_titles: Seq<Seq<char>>,
    pub index: nat,
    pub input_buf: Seq<char>,
    pub screen: CurrentScreen,
    pub error: Seq<char>,
    pub exit: bool,
}

impl View for App {
    type V = AppView;

    closed spec fn view(&self) -> AppView {
        AppView {
            games: self.games.deep_view(),
            padded_titles: self.padded_titles.deep_view(),
            index: self.index as nat,
            input_buf: self.input_buf@,
            screen: self.current_screen,
            error: self.error@,
            exit: self.exit,
        }
    }
}

/// The largest of the byte lengths of `ts`, or 0 for none.
pub open spec fn max_str_len(ts: Seq<Seq<char>>) -> usize
    decreases ts.len(),
{
    if ts.len() == 0 {
        0
    } else {
        let m = max_str_len(ts.drop_last());
        let l = text::str_len(ts.last());
        if l > m {
            l
        } else {
            m
        }
    }
}

/// The names shown for `games`.
pub open spec fn titles(games: Seq<GameInfoView>) -> Seq<Seq<char>> {
    games.map_values(|g: GameInfoView| g.display_name())
}

/// The names shown for `games`, each centred in the byte length of the
/// longest of them.
pub open spec fn padded_titles_of(games: Seq<GameInfoView>) -> Seq<Seq<char>> {
    let t = titles(games);
    let w = max_str_len(t);
    t.map_values(|x: Seq<char>| text::center(x, w as nat))
}

/// A key that leaves the program on every screen.
pub open spec fn is_quit_key(key: Key) -> bool {
    ||| key is Esc
    ||| key == Key::Char('q')
    ||| key == Key::Char('Q')
}

impl AppView {
    /// The state is consistent: one padded title per game, and the selected
    /// index is that of a game, or 0 when there is none.
    pub open spec fn wf(self) -> bool {
        &&& self.padded_titles.len() == self.games.len()
        &&& if self.games.len() > 0 {
            self.index < self.games.len()
        } else {
            self.index == 0
        }
    }

    /// The state of a new front end for `games`.
    pub open spec fn for_games(games: Seq<GameInfoView>) -> AppView {
        AppView {
            games,
            padded_titles: padded_titles_of(games),
            index: 0,
            input_buf: Seq::empty(),
            screen: CurrentScreen::SelectGame,
            error: Seq::empty(),
            exit: false,
        }
    }

    /// The index after moving down: the next game, from the last to the first.
    pub open spec fn index_down(self) -> nat {
        (self.index + 1) % self.games.len()
    }

    /// The index after moving up: the previous game, from the first to the last.
    pub open spec fn index_up(self) -> nat {
        if self.index == 0 {
            (self.games.len() - 1) as nat
        } else {
            (self.index - 1) as nat
        }
    }

    /// This state with `i` selected.
    pub open spec fn with_index(self, i: nat) -> AppView {
        AppView { index: i, ..self }
    }

    /// This state with the typed number `buf`.
    pub open spec fn with_input(self, buf: Seq<char>) -> AppView {
        AppView { input_buf: buf, ..self }
    }

    /// The state after the typed number has been taken into account: a
    /// number of a game selects it; a larger number selects the last game
    /// and is replaced by the number of the last game.
    pub open spec fn after_update_index(self) -> AppView {
        match text::parse_usize_spec(self.input_buf) {
            Some(n) => if n < self.games.len() {
                self.with_index(n as nat)
            } else {
                self.with_index((self.games.len() - 1) as nat).with_input(
                    text::decimal((self.games.len() - 1) as nat),
                )
            },
            None => self,
        }
    }

    /// The state after `key`, and whether it asks to start the selected game.
    pub open spec fn key_step(self, key: Key) -> (AppView, bool) {
        let v = AppView { exit: self.exit || is_quit_key(key), ..self };
        if self.screen == CurrentScreen::SelectGame {
            match key {
                Key::Up => (v.with_index(self.index_up()), false),
                Key::Down => (v.with_index(self.index_down()), false),
                Key::Enter => (v, true),
                Key::Char(c) => if c == 'w' || c == 'W' {
                    (v.with_index(self.index_up()), false)
                } else if c == 's' || c == 'S' {
                    (v.with_index(self.index_down()), false)
                } else if c == ' ' {
                    (v, true)
                } else if text::is_digit(c) {
                    (v.with_input(typed(self.input_buf, c)).after_update_index(), false)
                } else {
                    (v, false)
                },
                Key::Backspace => (v.with_input(erased(self.input_buf)).after_update_index(), false),
                _ => (v, false),
            }
        } else {
            (v, false)
        }
    }

    /// Whether `key` would make the front end look at its games: the keys
    /// that move the selection, and typing that leaves a number behind.
    /// These need at least one game.
    pub open spec fn key_needs_games(self, key: Key) -> bool {
        &&& self.screen == CurrentScreen::SelectGame
        &&& match key {
            Key::Up => true,
            Key::Down => true,
            Key::Char(c) => c == 'w' || c == 'W' || c == 's' || c == 'S' || (text::is_digit(c)
                && text::parse_usize_spec(typed(self.input_buf, c)) is Some),
            Key::Backspace => text::parse_usize_spec(erased(self.input_buf)) is Some,
            _ => false,
        }
    }
}

/// The typed number after typing `c`: at most three bytes are kept.
pub open spec fn typed(buf: Seq<char>, c: char) -> Seq<char> {
    if text::str_len(buf) < 3 {
        buf.push(c)
    } else {
        buf
    }
}

/// The typed number after a backspace.
pub open spec fn erased(buf: Seq<char>) -> Seq<char> {
    if buf.len() > 0 {
        buf.drop_last()
    } else {
        buf
    }
}

/// The largest byte length among the strings `ts`.
fn max_byte_len(ts: &Vec<String>) -> (res: usize)
    ensures
        res == max_str_len(ts.deep_view()),
{
    let mut m: usize = 0;
    let mut i: usize = 0;
    assert(ts.deep_view().take(0) =~= Seq::<Seq<char>>::empty());
    while i < ts.len()
        invariant
            i <= ts.len(),
            m == max_str_len(ts.deep_view().take(i as int)),
        decreases ts.len() - i,
    {
        assert(ts.deep_view().take(i + 1).drop_last() =~= ts.deep_view().take(i as int));
        let l = byte_length(ts[i].as_str());
        if l > m {
            m = l;
        }
        i = i + 1;
    }
    assert(ts.deep_view().take(ts.len() as int) =~= ts.deep_view());
    m
}

impl Default for App {
    fn default() -> (res: App)
        ensures
            res@ == AppView::for_games(Seq::empty()),
            res@.wf(),
    {
        let res = App {
            games: Vec::new(),
            padded_titles: Vec::new(),
            index: 0,
            input_buf: String::new(),
            current_screen: CurrentScreen::SelectGame,
            error: String::new(),
            exit: false,
        };
        assert(res@.games =~= Seq::<GameInfoView>::empty());
        assert(res@.padded_titles =~= padded_titles_of(Seq::empty()));
        res
    }
}

impl App {
    /// A front end for `games`, on the game list with the first game
    /// selected. Each game is listed under the name shown for it, centred in
    /// the byte length of the longest such name.
    pub fn from(games: Vec<GameInfo>) -> (res: App)
        ensures
            res@ == AppView::for_games(games.deep_view()),
            res@.wf(),
    {
        let mut titles_v: Vec<String> = Vec::new();
        let mut i: usize = 0;
        while i < games.len()
            invariant
                i <= games.len(),
                titles_v.deep_view() =~= titles(games.deep_view()).take(i as int),
            decreases games.len() - i,
        {
            let ghost before = titles_v.deep_view();
            let t = games[i].display_name();
            titles_v.push(t);
            assert(titles_v.deep_view() =~= before.push(t@));
            i = i + 1;
        }
        assert(titles_v.deep_view() =~= titles(games.deep_view()));
        let max_len = max_byte_len(&titles_v);
        let mut padded: Vec<String> = Vec::new();
        let mut j: usize = 0;
        while j < titles_v.len()
            invariant
                j <= titles_v.len(),
                titles_v.deep_view() == titles(games.deep_view()),
                max_len == max_str_len(titles_v.deep_view()),
                padded.deep_view() =~= padded_titles_of(games.deep_view()).take(j as int),
            decreases titles_v.len() - j,
        {
            let ghost before = padded.deep_view();
            let p = pad_center(titles_v[j].as_str(), max_len);
            padded.push(p);
            assert(padded.deep_view() =~= before.push(p@));
            j = j + 1;
        }
        let res = App {
            games,
            padded_titles: padded,
            current_screen: CurrentScreen::SelectGame,
            input_buf: String::new(),
            index: 0,
            error: String::new(),
            exit: false,
        };
        assert(res@.padded_titles =~= padded_titles_of(res@.games));
        res
    }

    /// The front end with the error `error_msg`; a non-empty error brings up
    /// the load error screen.
    pub fn error(self, error_msg: String) -> (res: App)
        ensures
            res@ == (AppView {
                error: error_msg@,
                screen: if error_msg@.len() > 0 {
                    CurrentScreen::LoadError
                } else {
                    self@.screen
                },
                ..self@
            }),
    {
        let mut app = self;
        app.error = error_msg;
        if !app.error.as_str().is_empty() {
            app.current_screen = CurrentScreen::LoadError;
        }
        app
    }

    /// Whether the user has asked to leave.
    pub fn exiting(&self) -> (res: bool)
        ensures
            res == self@.exit,
    {
        self.exit
    }

    /// The number of games.
    pub fn game_count(&self) -> (res: usize)
        ensures
            res == self@.games.len(),
    {
        self.games.len()
    }

    /// The index of the selected game.
    pub fn selected_index(&self) -> (res: usize)
        ensures
            res == self@.index,
    {
        self.index
    }

    /// The screen shown.
    pub fn current_screen(&self) -> (res: CurrentScreen)
        ensures
            res == self@.screen,
    {
        self.current_screen
    }

    /// The selected game.
    pub fn selected_game(&self) -> (res: &GameInfo)
        requires
            self@.wf(),
            self@.games.len() > 0,
        ensures
            res@ == self@.games[self@.index as int],
    {
        &self.games[self.index]
    }

    /// Records that the user asked to leave.
    pub fn exit(&mut self)
        ensures
            final(self)@ == (AppView { exit: true, ..old(self)@ }),
    {
        self.exit = true;
    }

    /// Selects the next game, or the first after the last.
    fn increment_index(&mut self)
        requires
            old(self)@.wf(),
            old(self)@.games.len() > 0,
        ensures
            final(self)@ == old(self)@.with_index(old(self)@.index_down()),
    {
        assert(self.index < self.games.len());
        let next = (self.index + 1) % self.games.len();
        self.index = next;
    }

    /// Selects the previous game, or the last before the first.
    fn decrement_index(&mut self)
        requires
            old(self)@.wf(),
            old(self)@.games.len() > 0,
        ensures
            final(self)@ == old(self)@.with_index(old(self)@.index_up()),
    {
        if self.index == 0 {
            self.index = self.games.len() - 1;
        } else {
            self.index = self.index - 1;
        }
    }

    /// Selects the game whose number has been typed; see
    /// [`AppView::after_update_index`].
    fn update_index(&mut self)
        requires
            old(self)@.wf(),
            text::parse_usize_spec(old(self)@.input_buf) is Some ==> old(self)@.games.len() > 0,
        ensures
            final(self)@ == old(self)@.after_update_index(),
    {
        if let Some(number) = parse_usize(self.input_buf.as_str()) {
            if self.games.len() > number {
                self.index = number;
            } else {
                self.index = self.games.len() - 1;
                self.input_buf = usize_to_string(self.games.len() - 1);
            }
        }
    }

    /// Removes the last character of the typed number, if any.
    fn erase_input(&mut self)
        ensures
            final(self)@ == old(self)@.with_input(erased(old(self)@.input_buf)),
    {
        let v = chars_of(self.input_buf.as_str());
        if v.len() > 0 {
            self.input_buf = string_of_range(&v, 0, v.len() - 1);
        }
    }

    /// Handles a key press: `Esc`, `q` and `Q` ask to leave; on the game list,
    /// `Up`/`w` and `Down`/`s` move the selection round the list, digits and
    /// `Backspace` edit the typed number of a game, and `Enter` or the space
    /// bar ask to start the selected game, which the result tells.
    pub fn handle_key_event(&mut self, key: Key) -> (launch: bool)
        requires
            old(self)@.wf(),
            old(self)@.key_needs_games(key) ==> old(self)@.games.len() > 0,
        ensures
            final(self)@ == old(self)@.key_step(key).0,
            launch == old(self)@.key_step(key).1,
            final(self)@.wf(),
    {
        match key {
            Key::Esc => self.exit(),
            Key::Char(c) => {
                if c == 'q' || c == 'Q' {
                    self.exit();
                }
            },
            _ => {},
        }
        match self.current_screen {
            CurrentScreen::SelectGame => match key {
                Key::Up => {
                    self.decrement_index();
                    false
                },
                Key::Down => {
                    self.increment_index();
                    false
                },
                Key::Enter => true,
                Key::Char(c) => {
                    if c == 'w' || c == 'W' {
                        self.decrement_index();
                        false
                    } else if c == 's' || c == 'S' {
                        self.increment_index();
                        false
                    } else if c == ' ' {
                        true
                    } else if '0' <= c && c <= '9' {
                        if byte_length(self.input_buf.as_str()) < 3 {
                            push_char(&mut self.input_buf, c);
                        }
                        self.update_index();
                        false
                    } else {
                        false
                    }
                },
                Key::Backspace => {
                    self.erase_input();
                    self.update_index();
                    false
                },
                _ => false,
            },
            _ => false,
        }
    }

    /// Records the outcome of starting the selected game and shows it.
    pub fn spawn_game(&mut self, outcome: Result<(), String>)
        ensures
            final(self)@ == (AppView {
                screen: CurrentScreen::LaunchGame,
                error: match outcome {
                    Ok(_) => old(self)@.error,
                    Err(e) => e@,
                },
                ..old(self)@
            }),
    {
        self.current_screen = CurrentScreen::LaunchGame;
        match outcome {
            Ok(_) => {},
            Err(e) => self.error = e,
        }
    }
}


/// How a line of text is shown.
#[derive(Clone, Copy, Debug, PartialEq, Eq, Structural)]
pub enum Tone {
    Plain,
    /// In red.
    Error,
    /// In green.
    Success,
}

/// A line of text and how it is shown.
pub struct StyledLine {
    pub text: String,
    pub tone: Tone,
}

impl View for StyledLine {
    type V = (Seq<char>, Tone);

    open spec fn view(&self) -> (Seq<char>, Tone) {
        (self.text@, self.tone)
    }
}

impl DeepView for StyledLine {
    type V = (Seq<char>, Tone);

    open spec fn deep_view(&self) -> (Seq<char>, Tone) {
        self@
    }
}

/// One row of the game list: a marker, the number of the game, its padded
/// name and a closing marker. The markers are shown in bold yellow.
pub struct TitleRow {
    pub prefix: String,
    pub number: String,
    pub title: String,
    pub suffix: String,
}

impl View for TitleRow {
    type V = (Seq<char>, Seq<char>, Seq<char>, Seq<char>);

    open spec fn view(&self) -> (Seq<char>, Seq<char>, Seq<char>, Seq<char>) {
        (self.prefix@, self.number@, self.title@, self.suffix@)
    }
}

impl DeepView for TitleRow {
    type V = (Seq<char>, Seq<char>, Seq<char>, Seq<char>);

    open spec fn deep_view(&self) -> (Seq<char>, Seq<char>, Seq<char>, Seq<char>) {
        self@
    }
}

/// The width of the game numbers in the list: that of the largest number.
pub open spec fn number_width(v: AppView) -> nat {
    text::decimal((v.games.len() - 1) as nat).len()
}

/// Row `i` of the game list: the selected game is framed by `> ` and ` <`,
/// and the number is right-aligned in [`number_width`] and followed by `. `.
pub open spec fn title_row(v: AppView, i: int) -> (Seq<char>, Seq<char>, Seq<char>, Seq<char>) {
    let selected = i == v.index;
    (
        if selected {
            "> "@
        } else {
            "  "@
        },
        text::align_right(text::decimal(i as nat), number_width(v)) + ". "@,
        v.padded_titles[i],
        if selected {
            " <"@
        } else {
            "  "@
        },
    )
}

/// The line under the game list that echoes the typed number: `>` when
/// something is typed, a space, and the number left-aligned in
/// [`number_width`].
pub open spec fn input_line_spec(v: AppView) -> Seq<char> {
    (if v.input_buf.len() == 0 {
        ""@
    } else {
        ">"@
    }) + " "@ + text::align_left(v.input_buf, number_width(v))
}

/// Line `i` of the `total` lines that describe a game, framed for display:
/// lines other than the first and the last are indented by four spaces, and
/// every line is padded with spaces to `width` bytes.
pub open spec fn framed_line(line: Seq<char>, i: int, total: int, width: usize) -> Seq<char> {
    let left = if i == 0 || i == total - 1 {
        ""@
    } else {
        "    "@
    };
    let right: nat = if text::str_len(line) <= width {
        (width - text::str_len(line)) as nat
    } else {
        0
    };
    left + line + text::spaces(right)
}

/// The message shown when a game has been started.
pub open spec fn launched_message(path: Seq<char>) -> Seq<char> {
    "Sucessfully launched application: "@ + path
}

/// The lines `ls`, each shown as an error.
pub open spec fn error_lines(ls: Seq<Seq<char>>) -> Seq<(Seq<char>, Tone)> {
    ls.map_values(|l: Seq<char>| (l, Tone::Error))
}

/// The launch screen: the lines of the description `debug` of the game,
/// framed (see [`framed_line`]) in the byte length of the longest; a line
/// `\n`; then the lines of `error` in red if there is an error, and otherwise
/// a message in green that the game at `path` was started.
pub open spec fn launch_lines_spec(debug: Seq<char>, error: Seq<char>, path: Seq<char>) -> Seq<
    (Seq<char>, Tone),
> {
    let ls = text::lines(debug);
    let width = max_str_len(ls);
    let framed = Seq::new(
        ls.len(),
        |i: int| (framed_line(ls[i], i, ls.len() as int, width), Tone::Plain),
    );
    let tail = if error.len() > 0 {
        error_lines(text::lines(error))
    } else {
        seq![(launched_message(path), Tone::Success)]
    };
    framed.push(("\n"@, Tone::Plain)) + tail
}

/// Appends the lines `ls` to `out`, each shown as an error.
fn push_error_lines(out: &mut Vec<StyledLine>, ls: &Vec<String>)
    ensures
        final(out).deep_view() == old(out).deep_view() + error_lines(ls.deep_view()),
{
    let ghost start = out.deep_view();
    let ghost lv = ls.deep_view();
    let mut i: usize = 0;
    let n = ls.len();
    while i < n
        invariant
            i <= n == ls.len(),
            ls.deep_view() == lv,
            out.deep_view() =~= start + error_lines(lv).take(i as int),
        decreases n - i,
    {
        let ghost before = out.deep_view();
        let line = StyledLine { text: ls[i].clone(), tone: Tone::Error };
        out.push(line);
        assert(out.deep_view() =~= before.push(line@));
        i = i + 1;
    }
    assert(error_lines(lv).take(n as int) =~= error_lines(lv));
}

/// The lines of the launch screen, from the description `debug` of the game,
/// the error `error` of starting it, and its path.
pub fn launch_lines(debug: &str, error: &str, path: &str) -> (res: Vec<StyledLine>)
    ensures
        res.deep_view() == launch_lines_spec(debug@, error@, path@),
{
    let ls = lines_of(debug);
    let total = ls.len();
    let width = max_byte_len(&ls);
    let mut res: Vec<StyledLine> = Vec::new();
    let ghost lv = ls.deep_view();
    let mut i: usize = 0;
    while i < total
        invariant
            i <= total == ls.len(),
            ls.deep_view() == lv,
            lv == text::lines(debug@),
            width == max_str_len(lv),
            res.deep_view() =~= Seq::new(
                i as nat,
                |k: int| (framed_line(lv[k], k, total as int, width), Tone::Plain),
            ),
        decreases total - i,
    {
        let mut text = String::new();
        if !(i == 0 || i == total - 1) {
            push_str(&mut text, "    ");
        }
        push_str(&mut text, ls[i].as_str());
        let l = byte_length(ls[i].as_str());
        let pad = if l <= width {
            width - l
        } else {
            0
        };
        push_spaces(&mut text, pad);
        proof {
            reveal_strlit("");
        }
        assert(text@ =~= framed_line(lv[i as int], i as int, total as int, width));
        let ghost before = res.deep_view();
        let line = StyledLine { text, tone: Tone::Plain };
        res.push(line);
        assert(res.deep_view() =~= before.push(line@));
        i = i + 1;
    }
    let ghost before = res.deep_view();
    let nl = StyledLine { text: "\n".to_owned(), tone: Tone::Plain };
    res.push(nl);
    assert(res.deep_view() =~= before.push(nl@));
    if !error.is_empty() {
        push_error_lines(&mut res, &lines_of(error));
    } else {
        let mut msg = "Sucessfully launched application: ".to_owned();
        push_str(&mut msg, path);
        let ghost before2 = res.deep_view();
        let ok = StyledLine { text: msg, tone: Tone::Success };
        res.push(ok);
        assert(res.deep_view() =~= before2 + seq![ok@]);
    }
    res
}

impl App {
    /// The rows of the game list.
    pub fn select_rows(&self) -> (res: Vec<TitleRow>)
        requires
            self@.wf(),
        ensures
            res.deep_view() == Seq::new(self@.games.len(), |i: int| title_row(self@, i)),
    {
        let n = self.padded_titles.len();
        let mut res: Vec<TitleRow> = Vec::new();
        let mut i: usize = 0;
        while i < n
            invariant
                self@.wf(),
                n == self.padded_titles.len() == self@.games.len(),
                i <= n,
                res.deep_view() =~= Seq::new(i as nat, |k: int| title_row(self@, k)),
            decreases n - i,
        {
            let width = count_digits(self.games.len() - 1);
            let selected = i == self.index;
            let mut number = pad_align_right(usize_to_string(i).as_str(), width);
            push_str(&mut number, ". ");
            let row = TitleRow {
                prefix: if selected {
                    "> ".to_owned()
                } else {
                    "  ".to_owned()
                },
                number,
                title: self.padded_titles[i].clone(),
                suffix: if selected {
                    " <".to_owned()
                } else {
                    "  ".to_owned()
                },
            };
            assert(row@ == title_row(self@, i as int));
            let ghost before = res.deep_view();
            res.push(row);
            assert(res.deep_view() =~= before.push(row@));
            i = i + 1;
        }
        res
    }

    /// The line that echoes the typed number.
    pub fn input_line(&self) -> (res: String)
        requires
            self@.wf(),
            self@.games.len() > 0,
        ensures
            res@ == input_line_spec(self@),
    {
        let width = count_digits(self.games.len() - 1);
        let mut res = if self.input_buf.as_str().is_empty() {
            "".to_owned()
        } else {
            ">".to_owned()
        };
        push_str(&mut res, " ");
        let buf = pad_align_left(self.input_buf.as_str(), width);
        push_str(&mut res, buf.as_str());
        res
    }

    /// The lines of the launch screen for the selected game.
    pub fn launch_screen(&self) -> (res: Vec<StyledLine>)
        requires
            self@.wf(),
            self@.games.len() > 0,
        ensures
            res.deep_view() == launch_lines_spec(
                game::game_debug_text(self@.games[self@.index as int]),
                self@.error,
                self@.games[self@.index as int].path,
            ),
    {
        let game = &self.games[self.index];
        let debug = pretty_debug(game);
        launch_lines(debug.as_str(), self.error.as_str(), game.path.as_str())
    }

    /// The lines of the load error screen: a line `\n`, then the lines of
    /// the error in red.
    pub fn load_error_lines(&self) -> (res: Vec<StyledLine>)
        ensures
            res.deep_view() == seq![("\n"@, Tone::Plain)] + error_lines(text::lines(self@.error)),
    {
        let mut res: Vec<StyledLine> = Vec::new();
        let nl = StyledLine { text: "\n".to_owned(), tone: Tone::Plain };
        res.push(nl);
        assert(res.deep_view() =~= seq![nl@]);
        push_error_lines(&mut res, &lines_of(self.error.as_str()));
        res
    }
}


/// Law: moving the selection down and then up, or up and then down, comes
/// back to the game that was selected.
pub proof fn moving_down_then_up_returns(v: AppView)
    requires
        v.wf(),
        v.games.len() > 0,
    ensures
        v.with_index(v.index_down()).index_up() == v.index,
        v.with_index(v.index_up()).index_down() == v.index,
{
    let n = v.games.len();
    if v.index + 1 < n {
        vstd::arithmetic::div_mod::lemma_small_mod((v.index + 1) as nat, n);
    } else {
        vstd::arithmetic::div_mod::lemma_mod_self_0(n as int);
    }
    let u = v.index_up();
    if u + 1 < n {
        vstd::arithmetic::div_mod::lemma_small_mod((u + 1) as nat, n);
    } else {
        vstd::arithmetic::div_mod::lemma_mod_self_0(n as int);
    }
}

/// Law: on every screen, `Esc`, `q` and `Q` ask to leave, and no other
/// character key changes whether the user has asked to leave.
pub proof fn quit_keys_ask_to_leave(v: AppView, c: char)
    ensures
        v.key_step(Key::Esc).0.exit,
        v.key_step(Key::Char('q')).0.exit,
        v.key_step(Key::Char('Q')).0.exit,
        c != 'q' && c != 'Q' ==> v.key_step(Key::Char(c)).0.exit == v.exit,
        v.key_step(Key::Up).0.exit == v.exit,
        v.key_step(Key::Down).0.exit == v.exit,
        v.key_step(Key::Enter).0.exit == v.exit,
        v.key_step(Key::Backspace).0.exit == v.exit,
{
}

/// Law: once a typed number has been taken into account, it is the number
/// of the selected game.
pub proof fn typed_number_matches_selection(v: AppView)
    requires
        v.wf(),
        v.games.len() > 0,
        text::parse_usize_spec(v.input_buf) is Some,
    ensures
        text::parse_usize_spec(v.after_update_index().input_buf) == Some(
            v.after_update_index().index as usize,
        ),
        v.after_update_index().index < v.games.len(),
{
    let n = text::parse_usize_spec(v.input_buf).unwrap();
    if n >= v.games.len() {
        text::decimal_parses_back((v.games.len() - 1) as usize);
    }
}

/// Law: in the game list every number takes the same width, so the names
/// line up: each number column is as long as that of the largest number,
/// plus the two characters of `. `.
pub proof fn numbers_column_is_aligned(v: AppView, i: int)
    requires
        v.wf(),
        0 <= i < v.games.len(),
    ensures
        title_row(v, i).1.len() == number_width(v) + 2,
{
    text::count_digits_bounds_numerals(i as nat, (v.games.len() - 1) as nat);
    let d = text::decimal(i as nat);
    assert(". "@.len() == 2) by {
        reveal_strlit(". ");
    }
    assert(text::align_right(d, number_width(v)).len() == number_width(v));
}

/// Law: the launch screen reports a failed launch and a successful one
/// apart. After the framed lines of the game's description and a line `\n`,
/// a failure shows exactly the lines of its error, in red, and no line is
/// shown as a success; a success shows exactly one green line naming the
/// program that was started.
pub proof fn launch_screen_reports_outcome(debug: Seq<char>, error: Seq<char>, path: Seq<char>)
    ensures
        ({
            let res = launch_lines_spec(debug, error, path);
            let d = text::lines(debug).len();
            &&& res[d as int] == ("\n"@, Tone::Plain)
            &&& forall|k: int| 0 <= k < d ==> (#[trigger] res[k]).1 == Tone::Plain
            &&& error.len() > 0 ==> {
                let el = text::lines(error);
                &&& res.len() == d + 1 + el.len()
                &&& forall|j: int| 0 <= j < el.len() ==> #[trigger] res[d + 1 + j] == (el[j], Tone::Error)
                &&& forall|k: int| 0 <= k < res.len() ==> (#[trigger] res[k]).1 != Tone::Success
            }
            &&& error.len() == 0 ==> {
                &&& res.len() == d + 2
                &&& res[d + 1int] == ("Sucessfully launched application: "@ + path, Tone::Success)
            }
        }),
{
    let res = launch_lines_spec(debug, error, path);
    let d = text::lines(debug).len();
    if error.len() > 0 {
        let el = text::lines(error);
        assert forall|k: int| 0 <= k < res.len() implies (#[trigger] res[k]).1 != Tone::Success by {
            if k > d {
                assert(res[k] == error_lines(el)[k - d - 1]);
            }
        }
    }
}

/// Law: in a new front end, each game is listed under its name, or under
/// its path when the name is empty, with only spaces added around it.
pub proof fn games_listed_under_their_names(games: Seq<GameInfoView>, i: int)
    requires
        0 <= i < games.len(),
    ensures
        exists|left: nat, right: nat|
            #[trigger] AppView::for_games(games).padded_titles[i] == text::spaces(left) + (if games[i].name.len()
                == 0 {
                games[i].path
            } else {
                games[i].name
            }) + text::spaces(right),
        AppView::for_games(games).padded_titles.len() == games.len(),
{
    let shown = if games[i].name.len() == 0 {
        games[i].path
    } else {
        games[i].name
    };
    let t = titles(games);
    let w = max_str_len(t);
    assert(t[i] == shown);
    let p = AppView::for_games(games).padded_titles[i];
    assert(p == text::center(shown, w as nat));
    if shown.len() >= w {
        assert(p =~= text::spaces(0) + shown + text::spaces(0));
    } else {
        let k = (w - shown.len()) as nat;
        assert(p == text::spaces(k / 2) + shown + text::spaces((k - k / 2) as nat));
    }
}

/// The longest byte length is at least each of them.
proof fn lemma_max_str_len_bounds(ts: Seq<Seq<char>>, i: int)
    requires
        0 <= i < ts.len(),
    ensures
        text::str_len(ts[i]) <= max_str_len(ts),
    decreases ts.len(),
{
    if i < ts.len() - 1 {
        lemma_max_str_len_bounds(ts.drop_last(), i);
    }
}

/// Law: when the names shown for the games are ASCII, every padded title
/// of the list has the same number of characters: that of the longest name.
pub proof fn ascii_titles_are_aligned(games: Seq<GameInfoView>, i: int, j: int)
    requires
        0 <= i < games.len(),
        0 <= j < games.len(),
        forall|k: int|
            0 <= k < games.len() ==> vstd::utf8::is_ascii_chars(
                #[trigger] games[k].display_name(),
            ) && games[k].display_name().len() <= usize::MAX,
    ensures
        padded_titles_of(games)[i].len() == padded_titles_of(games)[j].len(),
{
    let t = titles(games);
    let w = max_str_len(t);
    assert forall|k: int| 0 <= k < games.len() implies #[trigger] padded_titles_of(games)[k].len()
        == w by {
        assert(t[k] == games[k].display_name());
        vstd::utf8::is_ascii_chars_encode_utf8(t[k]);
        lemma_max_str_len_bounds(t, k);
        assert(text::str_len(t[k]) == t[k].len());
    }
}

} // verus!
