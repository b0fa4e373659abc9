use remote_play::cli::{cli_command, display_games, CliCommand};
use remote_play::game::GameInfo;
use remote_play::gui::{GameInformation, GuiSlint};
use remote_play::tui::{App, CurrentScreen, Key, Tone};

fn game(path: &str, name: &str) -> GameInfo {
    GameInfo {
        path: path.to_string(),
        arguments: vec!["-x".to_string()],
        env_variables: vec![("K".to_string(), "V".to_string())],
        name: name.to_string(),
    }
}

fn games(n: usize) -> Vec<GameInfo> {
    (0..n).map(|i| game(&format!("/g{}", i), "")).collect()
}

#[test]
fn display_name_falls_back_to_path() {
    assert_eq!(game("/p", "").display_name(), "/p");
    assert_eq!(game("/p", "Name").display_name(), "Name");
}

#[test]
fn cli_lists_games() {
    let lines = display_games(&vec![game("/a", "A"), game("/b", "")]);
    assert_eq!(lines.len(), 3);
    assert_eq!(
        lines[0],
        "----------------------------------\n|        Steam Remote Play       |\n----------------------------------"
    );
    assert_eq!(lines[1], "  0. A");
    assert_eq!(lines[2], "  1. /b");
}

#[test]
fn cli_reads_commands() {
    assert!(matches!(cli_command(" q\n", 3), CliCommand::Quit));
    assert!(matches!(cli_command("Q", 3), CliCommand::Quit));
    assert!(matches!(cli_command("c\r\n", 3), CliCommand::Clear));
    assert!(matches!(cli_command("C", 3), CliCommand::Clear));
    assert!(matches!(cli_command("qq", 3), CliCommand::NotANumber));
    assert!(matches!(cli_command("-1", 3), CliCommand::NotANumber));
    assert!(matches!(cli_command("\n", 3), CliCommand::NotANumber));
    assert!(matches!(cli_command("3", 3), CliCommand::OutOfRange));
    assert!(matches!(cli_command(" +2 \n", 3), CliCommand::Launch(2)));
    assert!(matches!(cli_command("0", 0), CliCommand::OutOfRange));
}

#[test]
fn titles_are_centred_in_the_longest() {
    let app = App::from(vec![game("/a", "ab"), game("/b", "abcd"), game("/c", "abc")]);
    let rows = app.select_rows();
    assert_eq!(rows[0].title, " ab ");
    assert_eq!(rows[1].title, "abcd");
    assert_eq!(rows[2].title, "abc ");
    assert_eq!(rows[0].prefix, "> ");
    assert_eq!(rows[0].suffix, " <");
    assert_eq!(rows[1].prefix, "  ");
    assert_eq!(rows[1].number, "1. ");
}

#[test]
fn numbers_column_is_aligned() {
    let app = App::from(games(12));
    let rows = app.select_rows();
    assert_eq!(rows[3].number, " 3. ");
    assert_eq!(rows[11].number, "11. ");
    for r in &rows {
        assert_eq!(r.number.len(), 4);
    }
}

#[test]
fn selection_wraps_round_the_list() {
    let mut app = App::from(games(3));
    assert!(!app.handle_key_event(Key::Up));
    assert_eq!(app.select_rows()[2].prefix, "> ");
    app.handle_key_event(Key::Char('s'));
    assert_eq!(app.select_rows()[0].prefix, "> ");
    app.handle_key_event(Key::Down);
    app.handle_key_event(Key::Char('W'));
    assert_eq!(app.select_rows()[0].prefix, "> ");
}

#[test]
fn down_then_up_returns() {
    let mut app = App::from(games(4));
    app.handle_key_event(Key::Down);
    app.handle_key_event(Key::Down);
    app.handle_key_event(Key::Down);
    app.handle_key_event(Key::Down);
    assert_eq!(app.select_rows()[0].prefix, "> ");
    app.handle_key_event(Key::Up);
    app.handle_key_event(Key::Down);
    assert_eq!(app.select_rows()[0].prefix, "> ");
}

#[test]
fn typed_number_selects_a_game() {
    let mut app = App::from(games(20));
    app.handle_key_event(Key::Char('1'));
    app.handle_key_event(Key::Char('2'));
    assert_eq!(app.select_rows()[12].prefix, "> ");
    assert_eq!(app.input_line(), "> 12");
    app.handle_key_event(Key::Backspace);
    assert_eq!(app.select_rows()[1].prefix, "> ");
    assert_eq!(app.input_line(), "> 1 ");
}

#[test]
fn too_large_number_selects_the_last_game() {
    let mut app = App::from(games(5));
    app.handle_key_event(Key::Char('9'));
    assert_eq!(app.select_rows()[4].prefix, "> ");
    assert_eq!(app.input_line(), "> 4");
}

#[test]
fn typed_number_is_at_most_three_digits() {
    let mut app = App::from(games(2000));
    for c in ['1', '2', '3', '4'] {
        app.handle_key_event(Key::Char(c));
    }
    assert_eq!(app.select_rows()[123].prefix, "> ");
    assert_eq!(app.input_line(), "> 123 ");
}

#[test]
fn erasing_everything_keeps_the_selection() {
    let mut app = App::from(games(5));
    app.handle_key_event(Key::Char('3'));
    app.handle_key_event(Key::Backspace);
    assert_eq!(app.select_rows()[3].prefix, "> ");
    assert_eq!(app.input_line(), "  ");
}

#[test]
fn enter_and_space_ask_to_launch() {
    let mut app = App::from(games(2));
    assert!(app.handle_key_event(Key::Enter));
    assert!(app.handle_key_event(Key::Char(' ')));
    assert!(!app.handle_key_event(Key::Char('x')));
    assert!(!app.handle_key_event(Key::Other));
    assert_eq!(app.current_screen(), CurrentScreen::SelectGame);
}

#[test]
fn quit_keys_exit() {
    let mut app = App::from(games(2));
    assert!(!app.exiting());
    app.handle_key_event(Key::Char('Q'));
    assert!(app.exiting());
    let mut other = App::default().error("e".to_string());
    other.handle_key_event(Key::Esc);
    assert!(other.exiting());
}

#[test]
fn keys_other_than_quit_do_nothing_off_the_list() {
    let mut app = App::default().error("broken".to_string());
    assert_eq!(app.current_screen(), CurrentScreen::LoadError);
    assert!(!app.handle_key_event(Key::Down));
    assert!(!app.handle_key_event(Key::Enter));
    assert!(!app.exiting());
}

#[test]
fn empty_error_keeps_the_screen() {
    let app = App::from(games(1)).error(String::new());
    assert_eq!(app.current_screen(), CurrentScreen::SelectGame);
}

#[test]
fn launch_outcome_is_shown() {
    let mut app = App::from(vec![game("/bin/game", "G")]);
    app.spawn_game(Ok(()));
    assert_eq!(app.current_screen(), CurrentScreen::LaunchGame);
    let lines = app.launch_screen();
    let debug = format!("{:#?}", app.selected_game());
    let n = debug.lines().count();
    assert_eq!(lines.len(), n + 2);
    assert_eq!(lines[0].text.trim_end(), "GameInfo {");
    assert!(lines[1].text.starts_with("    "));
    assert_eq!(lines[n - 1].text.trim_end(), "}");
    let width = debug.lines().map(|l| l.len()).max().unwrap();
    for l in &lines[1..n - 1] {
        assert_eq!(l.text.len(), width + 4);
    }
    assert_eq!(lines[n].text, "\n");
    assert_eq!(lines[n + 1].text, "Sucessfully launched application: /bin/game");
    assert_eq!(lines[n + 1].tone, Tone::Success);
}

#[test]
fn launch_error_is_shown() {
    let mut app = App::from(vec![game("/bin/game", "G")]);
    app.spawn_game(Err("first\nsecond".to_string()));
    let lines = app.launch_screen();
    let k = lines.len();
    assert_eq!(lines[k - 2].text, "first");
    assert_eq!(lines[k - 1].text, "second");
    assert_eq!(lines[k - 1].tone, Tone::Error);
}

#[test]
fn load_error_lines_are_red() {
    let app = App::default().error("a\r\nb".to_string());
    let lines = app.load_error_lines();
    assert_eq!(lines.len(), 3);
    assert_eq!(lines[0].text, "\n");
    assert_eq!(lines[0].tone, Tone::Plain);
    assert_eq!(lines[1].text, "a");
    assert_eq!(lines[2].text, "b");
    assert_eq!(lines[2].tone, Tone::Error);
}

#[test]
fn gui_information_shows_display_name() {
    let info = GameInformation::from(&game("/p", ""));
    assert_eq!(info.display_name, "/p");
    assert_eq!(info.path, "/p");
    assert_eq!(info.args, vec!["-x".to_string()]);
}

#[test]
fn gui_update_and_read_replaces_games() {
    let mut gui = GuiSlint::new();
    assert_eq!(gui.launch_game(0), None);
    let infos = gui.update_and_read(vec![game("/a", "A"), game("/b", "")]);
    assert_eq!(infos.len(), 2);
    assert_eq!(infos[0].display_name, "A");
    assert_eq!(infos[1].display_name, "/b");
    assert_eq!(gui.launch_game(1), Some(1));
    assert_eq!(gui.launch_game(2), None);
    assert_eq!(gui.launch_game(-1), None);
    assert_eq!(gui.game(1).path, "/b");
}
