use mongodb::bson::Document;
use pattern_of_doom::signup::{SignupAction, SignupEvent, SignupFlow, SignupState};

const START_MENU: &str = "+------------------------+\n|  1. Start Game         |\n|  2. Exit               |\n+------------------------+\ninput : ";
const ACCOUNT_MENU: &str = "+------------------------+\n|  1. Login              |\n|  2. Create Account     |\n+------------------------+\ninput : ";

fn doc(fields: &[(&str, &str)]) -> Document {
    let mut d = Document::new();
    for (k, v) in fields {
        d.insert(*k, *v);
    }
    d
}

fn line(s: &str) -> SignupEvent {
    SignupEvent::Line(s.to_string())
}

fn prompt_text(a: SignupAction) -> String {
    match a {
        SignupAction::Prompt(t) => t,
        other => panic!("expected a prompt, got {:?}", other),
    }
}

fn connected(error: Option<&str>) -> (SignupFlow, SignupAction) {
    let (mut flow, first) = SignupFlow::new();
    assert_eq!(prompt_text(first), START_MENU);
    match flow.step(line("1\n")) {
        SignupAction::Connect { before, after } => {
            assert_eq!(before, "Connecting Database\n");
            assert_eq!(after, "Connected To Database \n");
        }
        other => panic!("expected connect, got {:?}", other),
    }
    let users = vec![
        doc(&[("username", "ann"), ("password", "pw1")]),
        doc(&[("username", "bob"), ("password", "secret")]),
    ];
    let a = flow.step(SignupEvent::Connected { error: error.map(|e| e.to_string()), users });
    (flow, a)
}

#[test]
fn invalid_start_choice_repeats_the_menu() {
    let (mut flow, _) = SignupFlow::new();
    let t = prompt_text(flow.step(line("x\n")));
    assert_eq!(t, format!("Invalid input. Please enter a number.\n{}", START_MENU));
    assert!(matches!(flow.state, SignupState::StartMenu));
}

#[test]
fn other_start_choice_exits() {
    let (mut flow, _) = SignupFlow::new();
    assert!(matches!(flow.step(line("2\n")), SignupAction::Exit));
    assert!(matches!(flow.state, SignupState::Finished));
}

#[test]
fn connecting_lists_usernames() {
    let (flow, a) = connected(None);
    assert_eq!(prompt_text(a), ACCOUNT_MENU);
    assert_eq!(flow.usernames, vec!["ann", "bob"]);
    assert!(matches!(flow.state, SignupState::AccountMenu));
}

#[test]
fn events_out_of_turn_are_ignored() {
    let (mut flow, _) = SignupFlow::new();
    let a = flow.step(SignupEvent::Connected { error: None, users: vec![] });
    assert!(matches!(a, SignupAction::Ignore));
    assert!(matches!(flow.state, SignupState::StartMenu));
}

#[test]
fn login_with_the_right_password() {
    let (mut flow, _) = connected(None);
    assert_eq!(prompt_text(flow.step(line("1\n"))), "Enter Username : ");
    assert_eq!(prompt_text(flow.step(line(" bob \n"))), "Enter Password :  ");
    match flow.step(line("secret\n")) {
        SignupAction::LogIn { text, username } => {
            assert_eq!(text, "");
            assert_eq!(username, "bob");
        }
        other => panic!("expected login, got {:?}", other),
    }
}

#[test]
fn login_with_a_wrong_password() {
    let (mut flow, _) = connected(None);
    flow.step(line("1\n"));
    flow.step(line("bob\n"));
    let t = prompt_text(flow.step(line("nope\n")));
    assert_eq!(t, format!("Error Occured Incorrect Password\n{}", START_MENU));
    assert!(matches!(flow.state, SignupState::StartMenu));
}

#[test]
fn account_menu_needs_a_number() {
    let (mut flow, _) = connected(None);
    match flow.step(line("one\n")) {
        SignupAction::Abort(m) => assert_eq!(m, "eroor parsing"),
        other => panic!("expected abort, got {:?}", other),
    }
    let (mut flow, _) = connected(None);
    assert_eq!(prompt_text(flow.step(line("3\n"))), START_MENU);
}

#[test]
fn create_account_with_a_free_name() {
    let (mut flow, _) = connected(None);
    assert_eq!(prompt_text(flow.step(line("2\n"))), "Enter Username \n");
    assert_eq!(
        prompt_text(flow.step(line("bob\n"))),
        "Username is  already taken try another one Enter Username \n"
    );
    assert_eq!(prompt_text(flow.step(line("cy\n"))), "Enter Password \n");
    match flow.step(line("pw\n")) {
        SignupAction::Create { text, account } => {
            assert_eq!(text, "Processing\n");
            assert_eq!(account.username, "cy\n");
            assert_eq!(account.password, "pw\n");
            assert_eq!(account.rank, "Starterpack");
            assert!(account.online);
        }
        other => panic!("expected create, got {:?}", other),
    }
}

#[test]
fn create_account_without_a_connection() {
    let (mut flow, _) = connected(Some("no route"));
    flow.step(line("2\n"));
    flow.step(line("dee\n"));
    let t = prompt_text(flow.step(line("pw\n")));
    assert_eq!(t, format!("Processing\nAn error occurred: no route\n{}", START_MENU));
}

#[test]
fn stored_account_without_username_stops() {
    let (mut flow, _) = SignupFlow::new();
    flow.step(line("1\n"));
    flow.step(SignupEvent::Connected { error: None, users: vec![doc(&[("password", "x")])] });
    flow.step(line("1\n"));
    flow.step(line("ann\n"));
    match flow.step(line("x\n")) {
        SignupAction::Abort(m) => assert_eq!(m, "a stored account lacks a field"),
        other => panic!("expected abort, got {:?}", other),
    }
}

#[test]
fn create_account_for_a_stored_name_asks_its_password() {
    let (mut flow, _) = connected(None);
    flow.step(line("2\n"));
    // A last line without its line break names the stored account exactly.
    assert_eq!(
        prompt_text(flow.step(line("bob"))),
        "Username is  already taken try another one Enter Username \n"
    );
    assert_eq!(prompt_text(flow.step(line("cy\n"))), "Enter Password \n");
    let t = prompt_text(flow.step(line("pw\n")));
    assert_eq!(t, "Processing\nAccount Found For bob Enter Password To Countinue : ");
    assert!(matches!(flow.state, SignupState::ExistingPassword { .. }));
    match flow.step(line("secret")) {
        SignupAction::LogIn { text, username } => {
            assert_eq!(text, "");
            assert_eq!(username, "bob");
        }
        other => panic!("expected login, got {:?}", other),
    }
}

#[test]
fn connecting_without_accounts_says_so() {
    let (mut flow, _) = SignupFlow::new();
    flow.step(line("1\n"));
    let a = flow.step(SignupEvent::Connected { error: None, users: vec![] });
    assert_eq!(prompt_text(a), format!("user emptys\n{}", ACCOUNT_MENU));
    assert!(matches!(flow.state, SignupState::AccountMenu));
}
