use pattern_of_doom::models::Level;
use pattern_of_doom::signup::{new_user_account, parse_menu_choice, parse_u64, username_taken};

#[test]
fn menu_choices() {
    assert_eq!(parse_menu_choice("1\n"), Some(1));
    assert_eq!(parse_menu_choice("  2  "), Some(2));
    assert_eq!(parse_menu_choice("255"), Some(255));
    assert_eq!(parse_menu_choice("007"), Some(7));
    assert_eq!(parse_menu_choice("+7"), Some(7));
    assert_eq!(parse_menu_choice("256"), None);
    assert_eq!(parse_menu_choice("+"), None);
    assert_eq!(parse_menu_choice("-1"), None);
    assert_eq!(parse_menu_choice("1 2"), None);
    assert_eq!(parse_menu_choice("abc"), None);
    assert_eq!(parse_menu_choice(""), None);
    for s in ["0", "12", "+3", "99999", "x", " 4 ", "-0", "++1"] {
        assert_eq!(parse_menu_choice(s), s.trim().parse::<u8>().ok());
    }
}

#[test]
fn unsigned_numbers() {
    assert_eq!(parse_u64("18446744073709551615"), Some(u64::MAX));
    assert_eq!(parse_u64("18446744073709551616"), None);
    assert_eq!(parse_u64("0"), Some(0));
    assert_eq!(parse_u64(" 1"), None);
}

#[test]
fn printed_numbers_read_back() {
    for n in [0u64, 1, 9, 10, 255, 1000, 4294967296, u64::MAX] {
        assert_eq!(parse_u64(&n.to_string()), Some(n));
    }
    for n in 0..=255u8 {
        assert_eq!(parse_menu_choice(&n.to_string()), Some(n));
    }
}

#[test]
fn taken_usernames() {
    let names = vec!["ann".to_string(), "bob".to_string()];
    assert!(username_taken(&names, "bob\n"));
    assert!(username_taken(&names, "  ann "));
    assert!(!username_taken(&names, "cy"));
    assert!(!username_taken(&vec![], "ann"));
}

#[test]
fn new_accounts() {
    let u = new_user_account("dee\n".to_string(), "pw\n".to_string());
    assert_eq!(u.username, "dee\n");
    assert_eq!(u.password, "pw\n");
    assert!(u.online);
    assert_eq!(u.points, 0);
    assert_eq!(u.battles_won, 0);
    assert!(u.battles.is_empty());
    assert_eq!(u.rank, "Starterpack");
    assert_eq!(u.file_path, "");
    assert_eq!(u.hint.hint, "");
    assert!(u.incomplete_pattern.solved);
    assert_eq!(u.incomplete_pattern.level, Level::Easy);
    assert!(u.incomplete_pattern.pattern.is_empty());
    assert_eq!(u.patterns_solved.len(), 1);
    assert!(u.patterns_solved[0].solved);
}
