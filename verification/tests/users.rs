use mongodb::bson::Document;
use pattern_of_doom::database::users::{
    check_account_readable, find_logged_in_user, find_user, get_all_usernames, login, DecodedUser,
};
use pattern_of_doom::models::{Hint, LoginError, Pattern};

fn doc(fields: &[(&str, &str)]) -> Document {
    let mut d = Document::new();
    for (k, v) in fields {
        d.insert(*k, *v);
    }
    d
}

fn decoded(pattern: Option<Pattern>) -> DecodedUser {
    DecodedUser {
        online: Some(true),
        incomplete_pattern: pattern,
        battles: Some(vec![]),
        battles_won: Some(3),
        points: Some(9),
        patterns_solved: Some(vec![Pattern::default()]),
        hint: Some(Hint { pattern_rule: "r".to_string(), hint: "h".to_string() }),
    }
}

fn users() -> Vec<Document> {
    vec![
        doc(&[("username", "ann"), ("password", "pw1")]),
        doc(&[("username", " bob\n"), ("password", "secret"), ("file_path", "/f"), ("name", "Bob B"), ("rank", "Pro")]),
        doc(&[("username", "bob"), ("password", "other"), ("file_path", "/g"), ("name", "Bob C"), ("rank", "Noob")]),
    ]
}

#[test]
fn find_user_by_name() {
    let docs = users();
    assert_eq!(find_user(&docs, &"bob".to_string()), Some("bob".to_string()));
    assert_eq!(find_user(&docs, &"ann".to_string()), Some("ann".to_string()));
    assert_eq!(find_user(&docs, &"cy".to_string()), None);
    assert_eq!(find_user(&docs, &"bob\n".to_string()), None);
    assert_eq!(find_user(&vec![], &"ann".to_string()), None);
}

#[test]
fn quoted_names_are_cleaned() {
    let docs = vec![doc(&[("username", "\"quoted\" ")])];
    assert_eq!(find_user(&docs, &"quoted".to_string()), Some("quoted".to_string()));
}

#[test]
fn login_checks_the_password() {
    let docs = users();
    assert!(matches!(login(&docs, &"bob".to_string(), &"secret".to_string()), Ok(true)));
    assert!(matches!(login(&docs, &"bob".to_string(), &"other".to_string()), Ok(true)));
    match login(&docs, &"bob".to_string(), &"nope".to_string()) {
        Err(LoginError::Message(m)) => assert_eq!(m, "Incorrect Password"),
        Ok(_) => panic!("login should fail"),
    }
    assert!(login(&docs, &"cy".to_string(), &"pw1".to_string()).is_err());
    assert!(login(&vec![], &"ann".to_string(), &"pw1".to_string()).is_err());
}

#[test]
fn successful_login_finds_the_user() {
    let docs = users();
    for (name, pw) in [("ann", "pw1"), ("bob", "secret")] {
        assert!(login(&docs, &name.to_string(), &pw.to_string()).is_ok());
        assert!(find_user(&docs, &name.to_string()).is_some());
    }
}

#[test]
fn all_usernames() {
    let mut docs = users();
    docs.insert(1, doc(&[("password", "x")]));
    assert_eq!(get_all_usernames(&docs), vec!["ann", "bob", "bob"]);
    assert!(get_all_usernames(&vec![]).is_empty());
}

#[test]
fn usernames_agree_with_the_search() {
    let docs = users();
    let names = get_all_usernames(&docs);
    for name in ["ann", "bob", "cy", ""] {
        assert_eq!(names.contains(&name.to_string()), find_user(&docs, &name.to_string()).is_some());
    }
}

#[test]
fn logged_in_account() {
    let docs = users();
    let mut p = Pattern::default();
    p.term_to_solve = 8;
    let dec = vec![decoded(None), decoded(None), decoded(Some(p))];
    let a = find_logged_in_user(&docs, &"bob".to_string(), dec).unwrap();
    assert_eq!(a.username, "Bob C");
    assert_eq!(a.password, "other");
    assert_eq!(a.file_path, "/g");
    assert_eq!(a.rank, "Noob");
    assert_eq!(a.incomplete_pattern.term_to_solve, 8);
    assert!(a.online);
    assert_eq!(a.points, 9);
    assert_eq!(a.battles_won, 3);
    assert_eq!(a.hint.hint, "h");
    assert_eq!(a.patterns_solved.len(), 1);
    let dec = vec![decoded(Some(Pattern::default())), decoded(None), decoded(None)];
    assert!(find_logged_in_user(&docs, &"bob".to_string(), dec).is_none());
}

#[test]
fn account_lookup_needs_the_decoded_fields() {
    let docs = users();
    let bob = "bob".to_string();
    let full = || vec![decoded(None), decoded(None), decoded(Some(Pattern::default()))];
    assert!(check_account_readable(&docs, &full(), &bob));
    // The matching account lacks its points.
    let mut dec = full();
    dec[2].points = None;
    assert!(!check_account_readable(&docs, &dec, &bob));
    // Its online flag is read even where its pattern does not decode.
    let mut dec = full();
    dec[1].online = None;
    assert!(!check_account_readable(&docs, &dec, &bob));
    // A document before the account lacks its hint.
    let mut dec = full();
    dec[0].hint = None;
    assert!(!check_account_readable(&docs, &dec, &bob));
    // Documents after the account are never read.
    let mut docs2 = docs.clone();
    docs2.push(doc(&[("password", "x")]));
    let mut dec = full();
    dec.push(DecodedUser {
        online: None,
        incomplete_pattern: None,
        battles: None,
        battles_won: None,
        points: None,
        patterns_solved: None,
        hint: None,
    });
    assert!(check_account_readable(&docs2, &dec, &bob));
    assert_eq!(find_logged_in_user(&docs2, &bob, dec).unwrap().username, "Bob C");
}
