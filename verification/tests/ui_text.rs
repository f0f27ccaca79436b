use pattern_of_doom::client::generate_app;
use pattern_of_doom::models::{Chat, Level, LoginError, Message, Pattern, UserAccount};
use pattern_of_doom::text::{i32_to_string, trim_string};
use pattern_of_doom::ui::{
    color_index, disk_space_in_units, game_menu_lines, message_line, visible_messages,
};

fn message(sender: &str, content: &str, time: &str) -> Message {
    Message {
        sender: sender.to_string(),
        content: content.to_string(),
        date: "2024-01-01".to_string(),
        time: time.to_string(),
    }
}

#[test]
fn decimal_text_of_integers() {
    assert_eq!(i32_to_string(0), "0");
    assert_eq!(i32_to_string(7), "7");
    assert_eq!(i32_to_string(-45), "-45");
    assert_eq!(i32_to_string(i32::MAX), "2147483647");
    assert_eq!(i32_to_string(i32::MIN), "-2147483648");
}

#[test]
fn trimming_white_space() {
    assert_eq!(trim_string("  a b \n"), "a b");
    assert_eq!(trim_string("\u{3000}x\u{a0}"), "x");
    assert_eq!(trim_string(" \t "), "");
    for s in ["", " x ", "\u{2003}y\u{85}", "z\u{200b}"] {
        assert_eq!(trim_string(s), s.trim());
    }
}

#[test]
fn pattern_display_text() {
    let p = Pattern {
        pattern: vec![1, -2, 3],
        level: Level::Medium,
        time_taken: 0,
        jeopardy: 0,
        rule: "1,-,3".to_string(),
        solved: false,
        term_to_solve: 5,
    };
    assert_eq!(p.to_display_string(), "general_rule:1,-,3\nlevel:Medium\npattern:[1, -2, 3]");
    let empty = Pattern::default();
    assert_eq!(empty.to_display_string(), "general_rule:\nlevel:Easy\npattern:[]");
}

#[test]
fn login_error_text() {
    let e = LoginError::Message("Incorrect Password".to_string());
    assert_eq!(e.to_display_string(), "Error Occured Incorrect Password");
}

#[test]
fn level_names() {
    assert_eq!(Level::Hard.name(), "Hard");
    assert_eq!(Level::Easy.name(), "Easy");
    assert_eq!(Level::Medium.name(), "Medium");
    assert_eq!(Level::Impossible.name(), "Impossible");
    assert_eq!(Level::default(), Level::Easy);
}

#[test]
fn disk_space_units() {
    assert_eq!(disk_space_in_units(0), 0);
    assert_eq!(disk_space_in_units(1_048_576 * 3 + 5), 3);
    assert_eq!(disk_space_in_units(1_111_741_824), 1060);
    assert_eq!(disk_space_in_units(1_111_741_825), 1);
    assert_eq!(disk_space_in_units(10 * 1_073_741_824), 10);
}

#[test]
fn game_menu_text() {
    let mut user = UserAccount::default();
    user.rank = "Starterpack".to_string();
    user.patterns_solved = vec![Pattern::default(), Pattern::default()];
    user.incomplete_pattern.pattern = vec![4, 8];
    user.incomplete_pattern.level = Level::Hard;
    let app = generate_app(Chat::default(), user);
    let lines = game_menu_lines(&app, 12);
    assert_eq!(
        lines,
        vec![
            "Gen-1(Easy Pattern)-350MB",
            "Gen-2(Medium Pattern)-750MB",
            "Gen-3(Hard Pattern)-1GB",
            " Gen-4(Impossible Pattern)-2GB",
            "Rank :Starterpack",
            "Solved Patterns :2",
            "Current Patterns :[4, 8]",
            "Patterns Diff :Hard",
            "\n",
            "Disk Space Available:12 MB",
        ]
    );
    let big = game_menu_lines(&app, 2_000_000_000);
    assert_eq!(big[9], "Disk Space Available:2000000000 GB");
}

#[test]
fn chat_panel_window() {
    let chats: Vec<Message> = (0..20).map(|i| message("a", &i.to_string(), "t")).collect();
    let mut app = generate_app(Chat { chats }, UserAccount::default());
    let shown = visible_messages(&app);
    assert_eq!(shown.len(), 15);
    assert_eq!(shown[0].content, "0");
    app.scroll_offset = 10;
    let shown = visible_messages(&app);
    assert_eq!(shown.len(), 10);
    assert_eq!(shown[0].content, "10");
    app.scroll_offset = 25;
    assert!(visible_messages(&app).is_empty());
}

#[test]
fn chat_line_text() {
    assert_eq!(message_line(&message("bob", "hi there", "10:11:12")), "[bob#10:11:12]hi there");
}

#[test]
fn sender_colors() {
    assert_eq!(color_index(0), 0);
    assert_eq!(color_index(13), 1);
    assert_eq!(color_index(usize::MAX), usize::MAX % 12);
}
