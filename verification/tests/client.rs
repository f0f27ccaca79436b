use pattern_of_doom::client::{generate_app, Action, KeyInput};
use pattern_of_doom::models::{App, Chat, Level, Message, Modes, UserAccount};

fn message(sender: &str, content: &str) -> Message {
    Message {
        sender: sender.to_string(),
        content: content.to_string(),
        date: "2024-01-01".to_string(),
        time: "12:00:00".to_string(),
    }
}

fn app_with(n: usize) -> App {
    let chats: Vec<Message> = (0..n).map(|i| message("ann", &format!("m{}", i))).collect();
    let mut user = UserAccount::default();
    user.username = "  bob \n".to_string();
    generate_app(Chat { chats }, user)
}

fn press(app: &mut App, key: KeyInput) -> Action {
    app.handle_key(key, "2024-05-06".to_string(), "07:08:09".to_string())
}

fn type_text(app: &mut App, text: &str) {
    for c in text.chars() {
        press(app, KeyInput::Char(c));
    }
}

#[test]
fn generated_app_shows_the_chat() {
    let app = app_with(3);
    assert_eq!(app.chat.chats.len(), 3);
    assert_eq!(app.display_messages.len(), 3);
    assert_eq!(app.display_messages[2].content, "m2");
    assert_eq!(app.scroll_offset, 0);
    assert!(!app.redraw && !app.exit && !app.hint_toggle && !app.leaderboard_toggle);
    assert!(matches!(app.mode, Modes::SinglePlayer));
    assert_eq!(app.user_input, "");
    assert_eq!(app.user_account.username, "  bob \n");
}

#[test]
fn default_app_is_empty() {
    let app = App::default();
    assert!(app.chat.chats.is_empty());
    assert!(app.display_messages.is_empty());
    assert_eq!(app.user_input, "");
    assert_eq!(app.user_account.incomplete_pattern.level, Level::Easy);
    assert!(!app.user_account.incomplete_pattern.solved);
    assert_eq!(app.user_account.rank, "");
}

#[test]
fn scrolling_stays_within_the_chat() {
    let mut app = app_with(12);
    assert!(matches!(press(&mut app, KeyInput::Up), Action::Nothing));
    assert_eq!(app.scroll_offset, 0);
    press(&mut app, KeyInput::Down);
    assert_eq!(app.scroll_offset, 1);
    press(&mut app, KeyInput::Down);
    assert_eq!(app.scroll_offset, 2);
    press(&mut app, KeyInput::Down);
    assert_eq!(app.scroll_offset, 2);
    press(&mut app, KeyInput::Up);
    assert_eq!(app.scroll_offset, 1);
    let mut short = app_with(10);
    press(&mut short, KeyInput::Down);
    assert_eq!(short.scroll_offset, 0);
}

#[test]
fn scrolling_up_undoes_scrolling_down() {
    let mut app = app_with(30);
    app.scroll_offset = 7;
    press(&mut app, KeyInput::Down);
    press(&mut app, KeyInput::Up);
    assert_eq!(app.scroll_offset, 7);
}

#[test]
fn typing_is_limited_to_75_bytes() {
    let mut app = app_with(0);
    type_text(&mut app, &"a".repeat(74));
    assert_eq!(app.user_input.len(), 74);
    press(&mut app, KeyInput::Char('b'));
    assert_eq!(app.user_input.len(), 75);
    press(&mut app, KeyInput::Char('c'));
    assert_eq!(app.user_input, format!("{}b(can not exceed 75 )", "a".repeat(74)));
    press(&mut app, KeyInput::Char('d'));
    assert_eq!(app.user_input, format!("{}b", "a".repeat(74)));
}

#[test]
fn typing_multibyte_characters() {
    let mut app = app_with(0);
    type_text(&mut app, &"\u{e9}".repeat(37));
    assert_eq!(app.user_input.len(), 74);
    press(&mut app, KeyInput::Char('\u{e9}'));
    assert_eq!(app.user_input.len(), 76);
    press(&mut app, KeyInput::Char('x'));
    assert_eq!(app.user_input.len(), 96);
}

#[test]
fn backspace_undoes_typing() {
    let mut app = app_with(0);
    type_text(&mut app, "hello");
    press(&mut app, KeyInput::Char('\u{1f600}'));
    press(&mut app, KeyInput::Backspace);
    assert_eq!(app.user_input, "hello");
    let mut empty = app_with(0);
    press(&mut empty, KeyInput::Backspace);
    assert_eq!(empty.user_input, "");
}

#[test]
fn other_keys_change_nothing() {
    let mut app = app_with(2);
    type_text(&mut app, "abc");
    assert!(matches!(press(&mut app, KeyInput::Other), Action::Nothing));
    assert_eq!(app.user_input, "abc");
    assert_eq!(app.chat.chats.len(), 2);
}

#[test]
fn first_chat_message_is_inserted() {
    let mut app = app_with(0);
    type_text(&mut app, "/c hello there");
    let action = press(&mut app, KeyInput::Enter);
    match action {
        Action::InsertChats(v) => {
            assert_eq!(v.len(), 1);
            assert_eq!(v[0].content, "hello there");
            assert_eq!(v[0].sender, "bob");
            assert_eq!(v[0].date, "2024-05-06");
            assert_eq!(v[0].time, "07:08:09");
        }
        other => panic!("unexpected action {:?}", other),
    }
    assert_eq!(app.user_input, "/c ");
    assert_eq!(app.chat.chats.len(), 1);
    assert!(app.redraw);
    assert!(app.display_messages.is_empty());
}

#[test]
fn later_chat_messages_update_the_chat() {
    let mut app = app_with(2);
    type_text(&mut app, "/c!again");
    match press(&mut app, KeyInput::Enter) {
        Action::UpdateChats(v) => {
            assert_eq!(v.len(), 3);
            assert_eq!(v[0].content, "m0");
            assert_eq!(v[1].content, "m1");
            assert_eq!(v[2].content, "again");
        }
        other => panic!("unexpected action {:?}", other),
    }
    assert_eq!(app.user_input, "/c!");
    assert_eq!(app.chat.chats[0].content, "m0");
    assert_eq!(app.chat.chats[1].content, "m1");
}

#[test]
fn hint_request_sends_the_terms() {
    let mut app = app_with(0);
    app.user_account.incomplete_pattern.pattern = vec![2, 4, -6, 18];
    type_text(&mut app, "hint please");
    match press(&mut app, KeyInput::Enter) {
        Action::RequestHint(q) => assert_eq!(q, "24-618"),
        other => panic!("unexpected action {:?}", other),
    }
    assert!(app.redraw);
    assert_eq!(app.user_input, "hint please");
    app.apply_hint("think of doubling".to_string());
    assert_eq!(app.user_input, "think of doubling");
}

#[test]
fn command_on_unsolved_pattern_starts_the_counter() {
    let mut app = app_with(0);
    app.user_account.incomplete_pattern.time_taken = 42;
    app.user_account.incomplete_pattern.solved = false;
    type_text(&mut app, "look");
    match press(&mut app, KeyInput::Enter) {
        Action::StartCounter(t) => assert_eq!(t, 42),
        other => panic!("unexpected action {:?}", other),
    }
    assert_eq!(app.user_input, "lookseconds -42");
    assert!(app.redraw);
}

#[test]
fn new_pattern_needs_the_current_one_solved() {
    let mut app = app_with(0);
    app.user_account.incomplete_pattern.solved = false;
    app.user_account.incomplete_pattern.pattern = vec![1, 2, 3];
    type_text(&mut app, "Gen-1");
    press(&mut app, KeyInput::Enter);
    assert_eq!(app.user_input, "solve current problem firsttttt");
    assert_eq!(app.user_account.incomplete_pattern.pattern, vec![1, 2, 3]);
}

#[test]
fn new_easy_pattern_on_gen_1() {
    let mut app = app_with(0);
    app.user_account.incomplete_pattern.solved = true;
    app.user_account.incomplete_pattern.time_taken = 7;
    app.user_account.incomplete_pattern.level = Level::Hard;
    type_text(&mut app, "Gen-1");
    assert!(matches!(press(&mut app, KeyInput::Enter), Action::Nothing));
    let p = &app.user_account.incomplete_pattern;
    assert_eq!(app.user_input, "Gen-1seconds -7");
    assert_eq!(p.pattern.len(), 4);
    assert_eq!(p.level, Level::Easy);
    assert!(!p.solved);
    assert!((6..12).contains(&p.term_to_solve));
    assert_eq!(p.time_taken, 7);
    assert_eq!(p.rule.split(',').count(), 3);
}

#[test]
fn updates_show_new_messages() {
    let mut app = app_with(1);
    app.update_messages(vec![message("cy", "x"), message("di", "y")]);
    assert_eq!(app.display_messages.len(), 2);
    assert_eq!(app.user_input, "im updating the message");
    assert!(app.redraw);
    assert_eq!(app.chat.chats.len(), 1);
}

#[test]
fn chat_change_follows_the_end() {
    let mut app = app_with(12);
    app.scroll_offset = 1;
    app.apply_chat_update(vec![message("cy", "x")]);
    assert_eq!(app.scroll_offset, 2);
    assert_eq!(app.user_input, "im updating the message");
    assert_eq!(app.display_messages.len(), 1);
    assert!(app.redraw);
    let mut far = app_with(30);
    far.scroll_offset = 3;
    far.apply_chat_update(vec![]);
    assert_eq!(far.scroll_offset, 3);
    let mut small = app_with(5);
    small.scroll_offset = 4;
    small.apply_chat_update(vec![]);
    assert_eq!(small.scroll_offset, 4);
}
