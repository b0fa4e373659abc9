//! The description of one game that the launcher can start.
use vstd::prelude::*;

verus! {

/// One game: the program to run, its arguments and environment, and the
/// name to show for it.
#[derive(Debug)]
pub struct GameInfo {
    pub path: String,
    pub arguments: Vec<String>,
    pub env_variables: Vec<(String, String)>,
    pub name: String,
}

/// What a [`GameInfo`] holds, as characters.
pub struct GameInfoView {
    pub path: Seq<char>,
    pub arguments: Seq<Seq<char>>,
    pub env_variables: Seq<(Seq<char>, Seq<char>)>,
    pub name: Seq<char>,
}

impl View for GameInfo {
    type V = GameInfoView;

    open spec fn view(&self) -> GameInfoView {
        GameInfoView {
            path: self.path@,
            arguments: self.arguments.deep_view(),
            env_variables: self.env_variables.deep_view(),
            name: self.name@,
        }
    }
}

impl DeepView for GameInfo {
    type V = GameInfoView;

    open spec fn deep_view(&self) -> GameInfoView {
        self@
    }
}

impl GameInfoView {
    /// The game with no path, arguments, environment or name.
    pub open spec fn empty() -> GameInfoView {
        GameInfoView {
            path: Seq::empty(),
            arguments: Seq::empty(),
            env_variables: Seq::empty(),
            name: Seq::empty(),
        }
    }

    /// The name shown for the game: its name, or its path where the name is empty.
    pub open spec fn display_name(self) -> Seq<char> {
        if self.name.len() == 0 {
            self.path
        } else {
            self.name
        }
    }
}

impl Default for GameInfo {
    fn default() -> (res: GameInfo)
        ensures
            res@ == GameInfoView::empty(),
    {
        let res = GameInfo {
            path: String::new(),
            arguments: Vec::new(),
            env_variables: Vec::new(),
            name: String::new(),
        };
        assert(res@.arguments =~= Seq::<Seq<char>>::empty());
        assert(res@.env_variables =~= Seq::<(Seq<char>, Seq<char>)>::empty());
        res
    }
}

impl GameInfo {
    /// The name shown for the game: its name, or its path where the name is empty.
    pub fn display_name(&self) -> (res: String)
        ensures
            res@ == self@.display_name(),
    {
        if self.name.as_str().is_empty() {
            self.path.clone()
        } else {
            self.name.clone()
        }
    }
}


/// The text that `format!("{:#?}", game)` writes for a game with the fields
/// `game`: the derived `Debug` output of [`GameInfo`], pretty-printed.
pub uninterp spec fn game_debug_text(game: GameInfoView) -> Seq<char>;

/// Writes `game` with the pretty-printed derived `Debug` format of std.
/// Trusted: its text is named by [`game_debug_text`] and depends on the
/// fields of `game` alone; what that text is, is not stated here.
#[verifier::external_body]
pub(crate) fn pretty_debug(game: &GameInfo) -> (res: String)
    ensures
        res@ == game_debug_text(game@),
{
    format!("{:#?}", game)
}

} // verus!
