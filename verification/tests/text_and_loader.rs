use remote_play::game::GameInfo;
use remote_play::loader::{
    conf_file, parse_games_toml, parse_games_txt, plan_config, set_custom_conf_path,
    spawn_error_message, split_args, ConfPlan, ConfRead,
};
use remote_play::text::{
    is_whitespace, count_digits, lines_of, pad_align_left, pad_align_right, pad_center, parse_usize, str_ends_with,
    trimmed, usize_to_string,
};

fn strings(v: &[&str]) -> Vec<String> {
    v.iter().map(|s| s.to_string()).collect()
}

fn game(path: &str, args: &[&str], name: &str) -> GameInfo {
    GameInfo {
        path: path.to_string(),
        arguments: strings(args),
        env_variables: Vec::new(),
        name: name.to_string(),
    }
}

fn same_game(a: &GameInfo, b: &GameInfo) -> bool {
    a.path == b.path && a.arguments == b.arguments && a.env_variables == b.env_variables && a.name == b.name
}

#[test]
fn split_args_splits_at_spaces() {
    assert_eq!(split_args("game.exe -a  -b"), strings(&["game.exe", "-a", "-b"]));
}

#[test]
fn split_args_keeps_quoted_spaces() {
    assert_eq!(
        split_args("\"C:/Program Files/game.exe\" --level \"two words\""),
        strings(&["C:/Program Files/game.exe", "--level", "two words"])
    );
}

#[test]
fn split_args_joins_around_quotes() {
    assert_eq!(split_args("a\"b c\"d e"), strings(&["ab cd", "e"]));
}

#[test]
fn split_args_of_blank_or_empty_quotes_is_empty() {
    assert_eq!(split_args(""), Vec::<String>::new());
    assert_eq!(split_args("   "), Vec::<String>::new());
    assert_eq!(split_args("\"\" \"\""), Vec::<String>::new());
}

#[test]
fn split_args_words_are_never_empty_nor_quoted() {
    for input in ["  x  \"\"  y\"\" ", "\"a\"\"b\" c", " \" \" "] {
        for w in split_args(input) {
            assert!(!w.is_empty());
            assert!(!w.contains('"'));
        }
    }
}

#[test]
fn txt_config_reads_games_names_and_arguments() {
    let content = "C:/games/a.exe -fullscreen | Game A \n# a comment\n\n   \n/bin/b\n\"/opt/my game/run\" x|B|extra\n";
    let games = parse_games_txt(content);
    assert_eq!(games.len(), 3);
    assert!(same_game(&games[0], &game("C:/games/a.exe", &["-fullscreen"], "Game A")));
    assert!(same_game(&games[1], &game("/bin/b", &[], "")));
    assert!(same_game(&games[2], &game("/opt/my game/run", &["x"], "B")));
}

#[test]
fn txt_config_line_without_command_has_empty_path() {
    let games = parse_games_txt("|Only a name");
    assert_eq!(games.len(), 1);
    assert!(same_game(&games[0], &game("", &[], "Only a name")));
}

#[test]
fn txt_config_indented_comment_is_skipped() {
    assert_eq!(parse_games_txt("   # not a game\n\t\n").len(), 0);
}

#[test]
fn txt_config_keeps_carriage_return_in_command() {
    let games = parse_games_txt("run\r\n");
    assert_eq!(games.len(), 1);
    assert_eq!(games[0].path, "run\r");
}

#[test]
fn joined_configs_give_both_lists() {
    let a = "one | First\n# c";
    let b = "two x|Second";
    let joined = format!("{}\n{}", a, b);
    let all = parse_games_txt(&joined);
    let ga = parse_games_txt(a);
    let gb = parse_games_txt(b);
    assert_eq!(all.len(), ga.len() + gb.len());
    for (x, y) in all.iter().zip(ga.iter().chain(gb.iter())) {
        assert!(same_game(x, y));
    }
}

#[test]
fn comment_line_adds_no_game() {
    let a = "one | First";
    assert_eq!(parse_games_txt(&format!("{}\n  # later", a)).len(), parse_games_txt(a).len());
}

#[test]
fn toml_table_gives_the_game_list() {
    let table = vec![
        ("other".to_string(), vec![game("x", &[], "")]),
        ("game".to_string(), vec![game("a", &["1"], "A"), game("b", &[], "")]),
    ];
    let games = parse_games_toml(Ok(table)).unwrap();
    assert_eq!(games.len(), 2);
    assert!(same_game(&games[0], &game("a", &["1"], "A")));
}

#[test]
fn toml_table_without_game_key_is_an_error() {
    let table = vec![("games".to_string(), vec![game("x", &[], "")])];
    match parse_games_toml(Ok(table)) {
        Err(e) => assert_eq!(e, "Missing 'game' key in TOML file"),
        Ok(_) => panic!("expected an error"),
    }
}

#[test]
fn toml_parse_error_is_passed_on() {
    match parse_games_toml(Err("bad toml".to_string())) {
        Err(e) => assert_eq!(e, "bad toml"),
        Ok(_) => panic!("expected an error"),
    }
}

#[test]
fn custom_toml_file_is_parsed_as_toml() {
    let custom = Some("my.toml".to_string());
    match plan_config(&custom, ConfRead::Contents("x".to_string()), false) {
        ConfPlan::Toml(t) => assert_eq!(t, "x"),
        _ => panic!("expected TOML"),
    }
}

#[test]
fn custom_other_file_is_parsed_as_text() {
    let custom = Some("games.list".to_string());
    match plan_config(&custom, ConfRead::Contents("y".to_string()), true) {
        ConfPlan::Txt(t) => assert_eq!(t, "y"),
        _ => panic!("expected text"),
    }
}

#[test]
fn unreadable_custom_file_is_reported() {
    let custom = Some("nope.txt".to_string());
    match plan_config(&custom, ConfRead::NotFound("missing".to_string()), true) {
        ConfPlan::Failed(m) => assert_eq!(m, "Could not find custom conf file: nope.txt\nmissing"),
        _ => panic!("expected failure"),
    }
    match plan_config(&custom, ConfRead::Failed("denied".to_string()), true) {
        ConfPlan::Failed(m) => assert_eq!(m, "Could not find custom conf file: nope.txt\ndenied"),
        _ => panic!("expected failure"),
    }
}

#[test]
fn default_file_is_parsed_as_toml() {
    match plan_config(&None, ConfRead::Contents("z".to_string()), false) {
        ConfPlan::Toml(t) => assert_eq!(t, "z"),
        _ => panic!("expected TOML"),
    }
}

#[test]
fn missing_default_file_is_reported() {
    match plan_config(&None, ConfRead::NotFound("gone".to_string()), false) {
        ConfPlan::Failed(m) => assert_eq!(
            m,
            "No file games.txt or games.toml file was found.\nPlease Ensure a games.txt or games.toml exists and are placed in the same directory as this executable."
        ),
        _ => panic!("expected failure"),
    }
}

#[test]
fn missing_default_file_that_exists_falls_back_to_text() {
    match plan_config(&None, ConfRead::NotFound("gone".to_string()), true) {
        ConfPlan::ReadTxt(p) => assert_eq!(p, "games.txt"),
        _ => panic!("expected the text file"),
    }
}

#[test]
fn unreadable_default_file_is_reported() {
    match plan_config(&None, ConfRead::Failed("denied".to_string()), true) {
        ConfPlan::Failed(m) => assert_eq!(m, "Error reading games.toml: denied"),
        _ => panic!("expected failure"),
    }
}

#[test]
fn conf_file_is_custom_or_default() {
    assert_eq!(conf_file(&None), "games.toml");
    assert_eq!(conf_file(&Some("x.txt".to_string())), "x.txt");
}

#[test]
fn custom_conf_path_is_recorded() {
    let mut conf = None;
    set_custom_conf_path(&mut conf, "c.toml".to_string());
    assert_eq!(conf, Some("c.toml".to_string()));
}

#[test]
fn spawn_error_message_names_the_path() {
    assert_eq!(spawn_error_message("/x", "not found"), "Error running application: /x\nnot found");
}

#[test]
fn parse_usize_reads_numbers() {
    assert_eq!(parse_usize("42"), Some(42));
    assert_eq!(parse_usize("+7"), Some(7));
    assert_eq!(parse_usize("007"), Some(7));
    assert_eq!(parse_usize(""), None);
    assert_eq!(parse_usize("+"), None);
    assert_eq!(parse_usize("-1"), None);
    assert_eq!(parse_usize("1a"), None);
    assert_eq!(parse_usize(" 1"), None);
    assert_eq!(parse_usize("18446744073709551616"), None);
}

#[test]
fn parse_usize_agrees_with_std() {
    for s in ["0", "+12", "-3", "99999999999999999999999", "12 ", "", "٣", "18446744073709551615"] {
        assert_eq!(parse_usize(s), s.parse::<usize>().ok());
    }
}

#[test]
fn numbers_read_back() {
    for n in [0usize, 9, 10, 123, usize::MAX] {
        assert_eq!(usize_to_string(n), n.to_string());
        assert_eq!(parse_usize(&usize_to_string(n)), Some(n));
    }
}

#[test]
fn count_digits_counts() {
    assert_eq!(count_digits(0), 1);
    assert_eq!(count_digits(9), 1);
    assert_eq!(count_digits(10), 2);
    assert_eq!(count_digits(999), 3);
    assert_eq!(count_digits(usize::MAX), usize::MAX.to_string().len());
}

#[test]
fn trimming_and_lines() {
    assert_eq!(trimmed(" \u{3000}a b\t\n"), "a b");
    assert_eq!(trimmed("   "), "");
    assert_eq!(lines_of("a\r\nb\n"), strings(&["a", "b"]));
    assert_eq!(lines_of("a\r"), strings(&["a\r"]));
    assert_eq!(lines_of(""), Vec::<String>::new());
    assert_eq!(lines_of("\n\nx"), strings(&["", "", "x"]));
    for s in ["x\ny\r\n", "\r\n", "q\n\n", "last"] {
        assert_eq!(lines_of(s), s.lines().map(|l| l.to_string()).collect::<Vec<_>>());
    }
}

#[test]
fn padding_matches_format() {
    assert_eq!(pad_center("ab", 5), format!("{:^5}", "ab"));
    assert_eq!(pad_center("ab", 6), format!("{:^6}", "ab"));
    assert_eq!(pad_center("abc", 6), format!("{:^6}", "abc"));
    assert_eq!(pad_center("abcdef", 3), "abcdef");
    assert_eq!(pad_align_left("7", 3), format!("{:<3}", "7"));
    assert_eq!(pad_align_right("7", 3), format!("{:3}", 7));
    assert_eq!(pad_center("é", 3), format!("{:^3}", "é"));
}

#[test]
fn ends_with_suffix() {
    assert!(str_ends_with("a.toml", ".toml"));
    assert!(!str_ends_with("a.tom", ".toml"));
    assert!(!str_ends_with("toml", ".toml"));
}

#[test]
fn unquoted_commands_split_at_spaces() {
    for input in ["a  b c", " lead trail ", "", "one"] {
        let expected: Vec<String> =
            input.split(' ').filter(|p| !p.is_empty()).map(|p| p.to_string()).collect();
        assert_eq!(split_args(input), expected);
    }
}

#[test]
fn white_space_is_that_of_std() {
    for c in (0u32..0x110000).filter_map(char::from_u32) {
        assert_eq!(is_whitespace(c), c.is_whitespace());
    }
}
