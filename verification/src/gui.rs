//! The state behind the graphical front end: the loaded games and what each
//! game's entry in the window shows.
use vstd::prelude::*;

use crate::game::{GameInfo, GameInfoView};

verus! {

/// What the window shows for one game: the name to display, the path of
/// the program and its arguments.
pub struct GameInformation {
    pub display_name: String,
    pub path: String,
    pub args: Vec<String>,
}

/// What a [`GameInformation`] holds, as characters.
pub struct GameInformationView {
    pub display_name: Seq<char>,
    pub path: Seq<char>,
    pub args: Seq<Seq<char>>,
}

impl View for GameInformation {
    type V = GameInformationView;

    open spec fn view(&self) -> GameInformationView {
        GameInformationView {
            display_name: self.display_name@,
            path: self.path@,
            args: self.args.deep_view(),
        }
    }
}

impl DeepView for GameInformation {
    type V = GameInformationView;

    open spec fn deep_view(&self) -> GameInformationView {
        self@
    }
}

/// What the window shows for `game`.
pub open spec fn information_of(game: GameInfoView) -> GameInformationView {
    GameInformationView {
        display_name: game.display_name(),
        path: game.path,
        args: game.arguments,
    }
}

impl GameInformation {
    /// What the window shows for `game`: its display name (the name, or the
    /// path where the name is empty), its path and its arguments.
    pub fn from(game: &GameInfo) -> (res: GameInformation)
        ensures
            res@ == information_of(game@),
    {
        let args = game.arguments.clone();
        proof {
            assert(args.deep_view() =~= game.arguments.deep_view());
        }
        GameInformation { display_name: game.display_name(), path: game.path.clone(), args }
    }
}

/// The games that the graphical front end has loaded.
pub struct GuiSlint {
    games: Vec<GameInfo>,
}

impl View for GuiSlint {
    type V = Seq<GameInfoView>;

    closed spec fn view(&self) -> Seq<GameInfoView> {
        self.games.deep_view()
    }
}

impl GuiSlint {
    /// A front end with no games loaded.
    pub fn new() -> (res: GuiSlint)
        ensures
            res@ == Seq::<GameInfoView>::empty(),
    {
        let res = GuiSlint { games: Vec::new() };
        assert(res@ =~= Seq::<GameInfoView>::empty());
        res
    }

    /// Replaces the loaded games by `new_games`, and gives what the window
    /// shows for each of them, in order.
    pub fn update_and_read(&mut self, new_games: Vec<GameInfo>) -> (res: Vec<GameInformation>)
        ensures
            final(self)@ == new_games.deep_view(),
            res.deep_view() == new_games.deep_view().map_values(
                |g: GameInfoView| information_of(g),
            ),
    {
        self.games = new_games;
        let mut res: Vec<GameInformation> = Vec::new();
        let mut i: usize = 0;
        while i < self.games.len()
            invariant
                i <= self.games.len(),
                self.games.deep_view() == new_games.deep_view(),
                res.deep_view() =~= new_games.deep_view().map_values(
                    |g: GameInfoView| information_of(g),
                ).take(i as int),
            decreases self.games.len() - i,
        {
            let ghost before = res.deep_view();
            let info = GameInformation::from(&self.games[i]);
            res.push(info);
            assert(res.deep_view() =~= before.push(info@));
            i = i + 1;
        }
        res
    }

    /// The number of the game that a request to start game `x` starts:
    /// `x` itself where it is the number of a loaded game, and none
    /// otherwise.
    pub fn launch_game(&self, x: i32) -> (res: Option<usize>)
        ensures
            res == (if 0 <= x < self@.len() {
                Some(x as usize)
            } else {
                None
            }),
    {
        if x < 0 {
            return None;
        }
        let i = x as usize;
        if i < self.games.len() {
            Some(i)
        } else {
            None
        }
    }

    /// The loaded game `i`.
    pub fn game(&self, i: usize) -> (res: &GameInfo)
        requires
            i < self@.len(),
        ensures
            res@ == self@[i as int],
    {
        &self.games[i]
    }
}

} // verus!
