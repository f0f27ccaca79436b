use pattern_of_doom::models::{Battle, Chat, Hint, Level as LibLevel, Message, Pattern as LibPattern, UserAccount};

// Plain mirrors of the pattern type, so that std's own `{:#?}` can be asked
// what the solved patterns print as.
#[derive(Debug)]
#[allow(dead_code)]
enum Level {
    Hard,
    Easy,
    Medium,
    Impossible,
}

#[derive(Debug)]
#[allow(dead_code)]
struct Pattern {
    pattern: Vec<i32>,
    level: Level,
    time_taken: u16,
    jeopardy: u16,
    rule: String,
    solved: bool,
    term_to_solve: u32,
}

fn mirror(p: &LibPattern) -> Pattern {
    Pattern {
        pattern: p.pattern.clone(),
        level: match p.level {
            LibLevel::Hard => Level::Hard,
            LibLevel::Easy => Level::Easy,
            LibLevel::Medium => Level::Medium,
            LibLevel::Impossible => Level::Impossible,
        },
        time_taken: p.time_taken,
        jeopardy: p.jeopardy,
        rule: p.rule.clone(),
        solved: p.solved,
        term_to_solve: p.term_to_solve,
    }
}

fn pattern(terms: Vec<i32>, level: LibLevel, rule: &str, solved: bool) -> LibPattern {
    LibPattern { pattern: terms, level, time_taken: 7, jeopardy: 2, rule: rule.to_string(), solved, term_to_solve: 9 }
}

fn account(solved: Vec<LibPattern>) -> UserAccount {
    UserAccount {
        username: "ann".to_string(),
        password: "pw".to_string(),
        incomplete_pattern: pattern(vec![3, -6], LibLevel::Medium, "3,*,2", false),
        patterns_solved: solved,
        rank: "Starterpack".to_string(),
        file_path: "/f".to_string(),
        battles: vec![],
        battles_won: 0,
        points: 0,
        hint: Hint { pattern_rule: String::new(), hint: String::new() },
        online: true,
    }
}

#[test]
fn account_text_without_solved_patterns() {
    assert_eq!(
        account(vec![]).to_display_string(),
        "name : ann\npassword:pw\nrank:Starterpack\nfile_path:/f\nincomplete_patter:general_rule:3,*,2\nlevel:Medium\npattern:[3, -6]\npatterns_solved:[]"
    );
}

#[test]
fn account_text_lists_solved_patterns_as_debug_does() {
    let solved = vec![
        pattern(vec![], LibLevel::Easy, "", true),
        pattern(vec![1, -22, 333], LibLevel::Impossible, "a \"q\"\n\\ √", false),
    ];
    let expected_list = format!("{:#?}", solved.iter().map(mirror).collect::<Vec<Pattern>>());
    let text = account(solved).to_display_string();
    let prefix = "name : ann\npassword:pw\nrank:Starterpack\nfile_path:/f\nincomplete_patter:general_rule:3,*,2\nlevel:Medium\npattern:[3, -6]\npatterns_solved:";
    assert_eq!(text, format!("{}{}", prefix, expected_list));
}

#[test]
fn cloned_accounts_keep_their_fields() {
    let mut a = account(vec![pattern(vec![4], LibLevel::Hard, "4,+,1", true)]);
    a.points = 12;
    let b = a.clone();
    assert_eq!(b.username, a.username);
    assert_eq!(b.points, 12);
    assert_eq!(b.patterns_solved.len(), 1);
    assert_eq!(b.to_display_string(), a.to_display_string());
}

#[test]
fn cloned_accounts_keep_their_battles() {
    let mut a = account(vec![]);
    let b = Battle {
        initiator: account(vec![]),
        reciever: account(vec![]),
        winner: account(vec![]),
        pattern: pattern(vec![5, 10], LibLevel::Hard, "5,*,2", true),
        battle_chat: Chat {
            chats: vec![Message {
                sender: "ann".to_string(),
                content: "hi".to_string(),
                date: "d".to_string(),
                time: "t".to_string(),
            }],
        },
        active: true,
        punishment_pattern: vec![1, 2],
        punishment_pattern_term_to_solve: 4,
        punishment_path: "/p".to_string(),
        punishment_pattern_valid: false,
        level: LibLevel::Hard,
    };
    a.battles.push(b);
    let c = a.clone();
    assert_eq!(c.battles.len(), 1);
    assert_eq!(c.battles[0].pattern.pattern, vec![5, 10]);
    assert_eq!(c.battles[0].battle_chat.chats[0].content, "hi");
    assert_eq!(c.battles[0].punishment_pattern, vec![1, 2]);
    assert_eq!(c.battles[0].winner.username, "ann");
    assert_eq!(c.incomplete_pattern.pattern, vec![3, -6]);
}
