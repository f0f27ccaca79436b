use mongodb::bson::Document;
use vstd::prelude::*;

use crate::database::users::{
    any_credentials_match, any_names_user, check_credentials_readable, check_usernames_readable,
    credentials_readable, find_user, get_all_usernames, login, usernames_of, usernames_readable,
};

use crate::models::{Hint, Level, Pattern, UserAccount};
use crate::text::{
    chars_of, decimal_nat, digit_char, owned, push_str, same_text, trim, trim_string,
};

verus! {

/// The value of a string of decimal digits.
pub open spec fn digits_value(ds: Seq<char>) -> int
    decreases ds.len(),
{
    if ds.len() == 0 {
        0
    } else {
        digits_value(ds.drop_last()) * 10 + (ds.last() as int - '0' as int)
    }
}

/// Whether every character is an ASCII digit.
pub open spec fn all_digits(ds: Seq<char>) -> bool {
    forall|i: int| 0 <= i < ds.len() ==> '0' <= #[trigger] ds[i] <= '9'
}

/// The digits of an unsigned number's text: the text without one leading `+`.
pub open spec fn unsigned_digits(s: Seq<char>) -> Seq<char> {
    if s.len() > 0 && s[0] == '+' {
        s.drop_first()
    } else {
        s
    }
}

/// The number an unsigned number's text stands for, as `str::parse` reads
/// it: an optional `+`, then one or more decimal digits, of a value that fits
/// in `max`; nothing otherwise.
pub open spec fn parse_unsigned_text(s: Seq<char>, max: int) -> Option<int> {
    let ds = unsigned_digits(s);
    if ds.len() > 0 && all_digits(ds) && digits_value(ds) <= max {
        Some(digits_value(ds))
    } else {
        None
    }
}

proof fn lemma_digits_value_nonneg(ds: Seq<char>)
    requires
        all_digits(ds),
    ensures
        digits_value(ds) >= 0,
    decreases ds.len(),
{
    if ds.len() > 0 {
        assert(all_digits(ds.drop_last()));
        lemma_digits_value_nonneg(ds.drop_last());
    }
}

proof fn lemma_digits_value_grows(ds: Seq<char>, c: char)
    requires
        all_digits(ds),
        '0' <= c <= '9',
    ensures
        digits_value(ds.push(c)) >= digits_value(ds),
{
    assert(ds.push(c).drop_last() =~= ds);
    lemma_digits_value_nonneg(ds);
}

/// Reads an unsigned number as `str::parse::<u64>` does.
pub fn parse_u64(s: &str) -> (r: Option<u64>)
    ensures
        match parse_unsigned_text(s@, u64::MAX as int) {
            Some(v) => r is Some && r->0 == v,
            None => r is None,
        },
{
    let v = chars_of(s);
    let start: usize = if v.len() > 0 && v[0] == '+' {
        1
    } else {
        0
    };
    let ghost ds = unsigned_digits(s@);
    assert(ds =~= v@.subrange(start as int, v@.len() as int));
    if start >= v.len() {
        return None;
    }
    let mut value: u64 = 0;
    let mut i: usize = start;
    let mut overflow = false;
    while i < v.len()
        invariant
            start <= i <= v@.len(),
            v@ == s@,
            ds == unsigned_digits(s@),
            ds == v@.subrange(start as int, v@.len() as int),
            all_digits(v@.subrange(start as int, i as int)),
            !overflow ==> value == digits_value(v@.subrange(start as int, i as int)),
            overflow ==> digits_value(v@.subrange(start as int, i as int)) > u64::MAX,
        decreases v.len() - i,
    {
        let c = v[i];
        if !('0' <= c && c <= '9') {
            assert(ds[i - start] == c);
            return None;
        }
        let d = (c as u32 - '0' as u32) as u64;
        let ghost pre = v@.subrange(start as int, i as int);
        assert(v@.subrange(start as int, i + 1) =~= pre.push(c));
        assert(pre.push(c).drop_last() =~= pre);
        proof {
            lemma_digits_value_nonneg(pre);
            lemma_digits_value_grows(pre, c);
        }
        if !overflow {
            if value > (u64::MAX - d) / 10 {
                overflow = true;
            } else {
                value = value * 10 + d;
            }
        }
        i = i + 1;
    }
    if overflow {
        None
    } else {
        Some(value)
    }
}

/// Reads a menu choice: the trimmed line as a number from 0 to 255, as
/// `trim().parse::<u8>()` reads it.
pub fn parse_menu_choice(line: &str) -> (r: Option<u8>)
    ensures
        match parse_unsigned_text(trim(line@), u8::MAX as int) {
            Some(v) => r is Some && r->0 == v,
            None => r is None,
        },
{
    let t = trim_string(line);
    let ghost ds = unsigned_digits(trim(line@));
    proof {
        if all_digits(ds) {
            lemma_digits_value_nonneg(ds);
        }
    }
    match parse_u64(t.as_str()) {
        Some(v) => if v <= 255 {
            assert(parse_unsigned_text(trim(line@), u8::MAX as int) == Some(v as int));
            Some(v as u8)
        } else {
            assert(digits_value(ds) > 255);
            None
        },
        None => {
            assert(!(ds.len() > 0 && all_digits(ds) && digits_value(ds) <= u64::MAX));
            None
        },
    }
}

/// Whether a username, trimmed, is among the taken ones.
pub fn username_taken(usernames: &Vec<String>, candidate: &str) -> (b: bool)
    ensures
        b == exists|i: int| 0 <= i < usernames@.len() && #[trigger] usernames@[i]@ == trim(candidate@),
{
    let t = trim_string(candidate);
    let mut i: usize = 0;
    while i < usernames.len()
        invariant
            i <= usernames@.len(),
            t@ == trim(candidate@),
            forall|j: int| 0 <= j < i ==> #[trigger] usernames@[j]@ != trim(candidate@),
        decreases usernames.len() - i,
    {
        if same_text(usernames[i].as_str(), t.as_str()) {
            return true;
        }
        i = i + 1;
    }
    false
}

/// The pattern of a new account: no terms, easy, counted as solved.
pub open spec fn is_starter_pattern(p: Pattern) -> bool {
    &&& p.pattern@ == Seq::<i32>::empty()
    &&& p.level == Level::Easy
    &&& p.time_taken == 0
    &&& p.jeopardy == 0
    &&& p.rule@ == Seq::<char>::empty()
    &&& p.solved
    &&& p.term_to_solve == 0
}

fn starter_pattern() -> (p: Pattern)
    ensures
        is_starter_pattern(p),
{
    Pattern {
        jeopardy: 0,
        solved: true,
        term_to_solve: 0,
        time_taken: 0,
        rule: String::new(),
        level: Level::Easy,
        pattern: Vec::new(),
    }
}

/// A new account with the given name and password, online, with the starter
/// pattern as its current and only solved pattern, rank `Starterpack`, and
/// nothing else.
pub fn new_user_account(username: String, password: String) -> (u: UserAccount)
    ensures
        u.username == username,
        u.password == password,
        u.online,
        u.points == 0,
        u.battles@ == Seq::<crate::models::Battle>::empty(),
        u.battles_won == 0,
        u.hint.hint@ == Seq::<char>::empty(),
        u.hint.pattern_rule@ == Seq::<char>::empty(),
        u.file_path@ == Seq::<char>::empty(),
        is_starter_pattern(u.incomplete_pattern),
        u.patterns_solved@.len() == 1,
        is_starter_pattern(u.patterns_solved@[0]),
        u.rank@ == "Starterpack"@,
{
    let mut solved: Vec<Pattern> = Vec::new();
    solved.push(starter_pattern());
    UserAccount {
        online: true,
        points: 0,
        battles: Vec::new(),
        battles_won: 0,
        hint: Hint { hint: String::new(), pattern_rule: String::new() },
        file_path: String::new(),
        incomplete_pattern: starter_pattern(),
        username: username,
        password: password,
        patterns_solved: solved,
        rank: owned("Starterpack"),
    }
}

proof fn lemma_digit_value(d: nat)
    requires
        d < 10,
    ensures
        '0' <= digit_char(d) <= '9',
        digit_char(d) as int - '0' as int == d,
{
}

proof fn lemma_decimal_digits(n: nat)
    ensures
        decimal_nat(n).len() > 0,
        all_digits(decimal_nat(n)),
        digits_value(decimal_nat(n)) == n,
    decreases n,
{
    if n < 10 {
        lemma_digit_value(n);
        assert(decimal_nat(n).drop_last() =~= Seq::<char>::empty());
        assert(digits_value(decimal_nat(n)) == digits_value(decimal_nat(n).drop_last()) * 10 + (
        decimal_nat(n).last() as int - '0' as int));
    } else {
        lemma_decimal_digits(n / 10);
        lemma_digit_value(n % 10);
        let s = decimal_nat(n);
        assert(s.drop_last() =~= decimal_nat(n / 10));
        assert(s.last() == digit_char(n % 10));
        assert(digits_value(s) == digits_value(s.drop_last()) * 10 + (s.last() as int - '0' as int));
        assert(digits_value(s) == (n / 10) * 10 + n % 10);
        assert forall|i: int| 0 <= i < s.len() implies '0' <= #[trigger] s[i] <= '9' by {
            if i < s.len() - 1 {
                assert(s[i] == decimal_nat(n / 10)[i]);
            }
        }
    }
}

/// Reading back the decimal text of a number gives the number: what the
/// game prints as a number, its menus read as that number.
pub proof fn lemma_parse_decimal_round_trip(n: nat, max: int)
    requires
        n <= max,
    ensures
        parse_unsigned_text(decimal_nat(n), max) == Some(n as int),
{
    lemma_decimal_digits(n);
    let s = decimal_nat(n);
    assert('0' <= s[0] <= '9');
    assert(unsigned_digits(s) == s);
}

// ---------------------------------------------------------------------------
// The sign-up dialogue
// ---------------------------------------------------------------------------

/// Where the sign-up dialogue stands.
#[derive(Debug)]
pub enum SignupState {
    /// Waiting for the choice of the start menu.
    StartMenu,
    /// Waiting for the database connection.
    Connecting,
    /// Waiting for the choice of the account menu.
    AccountMenu,
    /// Waiting for the username to log in with.
    LoginUsername,
    /// Waiting for the password to log in with.
    LoginPassword { username: String },
    /// Waiting for the username of a new account.
    NewUsername,
    /// Waiting for another username, the last one being taken.
    RetryUsername { username_db: String },
    /// Waiting for the password of a new account.
    NewPassword { username: String, username_db: String },
    /// Waiting for the password of an account that exists already.
    ExistingPassword { username: String },
    /// Done.
    Finished,
}

/// What the surroundings hand to the dialogue.
#[derive(Debug)]
pub enum SignupEvent {
    /// A line the player typed, as read (with its line break).
    Line(String),
    /// The database is connected (or the error why not) and its account
    /// documents are loaded.
    Connected { error: Option<String>, users: Vec<Document> },
}

/// What the surroundings are to do next.
#[derive(Debug)]
pub enum SignupAction {
    /// Print the text, then read a line.
    Prompt(String),
    /// Print `before`, connect to the database, print `after`, load the
    /// account documents, and report them.
    Connect { before: String, after: String },
    /// Leave the program.
    Exit,
    /// Print the text, then play as the stored account `username`.
    LogIn { text: String, username: String },
    /// Print the text, store the new account, and play as it.
    Create { text: String, account: UserAccount },
    /// Stop with this message: the documents lack a field the dialogue reads,
    /// or the account menu choice is no number.
    Abort(String),
    /// Nothing: the event does not fit the state.
    Ignore,
}

/// The sign-up dialogue: where it stands, and what it learned from the
/// database.
#[derive(Debug)]
pub struct SignupFlow {
    pub state: SignupState,
    pub users: Vec<Document>,
    pub usernames: Vec<String>,
    pub connection_error: Option<String>,
}

/// The start menu.
pub open spec fn start_menu() -> Seq<char> {
    "+------------------------+\n|  1. Start Game         |\n|  2. Exit               |\n+------------------------+\ninput : "@
}

/// The account menu.
pub open spec fn account_menu() -> Seq<char> {
    "+------------------------+\n|  1. Login              |\n|  2. Create Account     |\n+------------------------+\ninput : "@
}

/// What the dialogue says once the accounts are loaded: that there are none,
/// where that is so, then the account menu.
pub open spec fn connected_text(no_users: bool) -> Seq<char> {
    if no_users {
        "user emptys\n"@ + account_menu()
    } else {
        account_menu()
    }
}

/// What the dialogue says when a username is taken.
pub open spec fn taken_text() -> Seq<char> {
    "Username is  already taken try another one Enter Username \n"@
}

/// What the dialogue says after a refused login, before the start menu.
pub open spec fn refused_text() -> Seq<char> {
    "Error Occured Incorrect Password\n"@ + start_menu()
}

fn start_menu_string() -> (s: String)
    ensures
        s@ == start_menu(),
{
    owned(
        "+------------------------+\n|  1. Start Game         |\n|  2. Exit               |\n+------------------------+\ninput : ",
    )
}

fn account_menu_string() -> (s: String)
    ensures
        s@ == account_menu(),
{
    owned(
        "+------------------------+\n|  1. Login              |\n|  2. Create Account     |\n+------------------------+\ninput : ",
    )
}

fn refused_string() -> (s: String)
    ensures
        s@ == refused_text(),
{
    let mut s = owned("Error Occured Incorrect Password\n");
    push_str(&mut s, start_menu_string().as_str());
    s
}

/// Whether the action stops the dialogue with message `msg`.
pub open spec fn is_abort(a: SignupAction, msg: Seq<char>) -> bool {
    a matches SignupAction::Abort(m) && m@ == msg
}

/// Whether the dialogue's knowledge of the database stayed as it was.
pub open spec fn same_data(o: SignupFlow, n: SignupFlow) -> bool {
    &&& n.users == o.users
    &&& n.usernames == o.usernames
    &&& n.connection_error == o.connection_error
}

/// Whether a username, trimmed, is among the taken ones.
pub open spec fn is_taken(usernames: Seq<String>, candidate: Seq<char>) -> bool {
    exists|i: int| 0 <= i < usernames.len() && #[trigger] usernames[i]@ == trim(candidate)
}

/// Whether the usernames are the ones the documents store.
pub open spec fn usernames_listed(usernames: Seq<String>, docs: Seq<Document>) -> bool {
    &&& usernames.len() == usernames_of(docs).len()
    &&& forall|i: int| 0 <= i < usernames.len() ==> #[trigger] usernames[i]@ == usernames_of(docs)[i]
}

/// Whether the prompt of a line step is `text` and the dialogue's knowledge
/// stayed.
pub open spec fn prompts(o: SignupFlow, n: SignupFlow, a: SignupAction, text: Seq<char>) -> bool {
    &&& same_data(o, n)
    &&& a matches SignupAction::Prompt(t)
    &&& t@ == text
}

/// Whether the dialogue stopped with the given action.
pub open spec fn finishes(o: SignupFlow, n: SignupFlow) -> bool {
    &&& same_data(o, n)
    &&& n.state is Finished
}

/// The step of the dialogue on a line in state `StartMenu`.
pub open spec fn start_menu_step(o: SignupFlow, l: Seq<char>, n: SignupFlow, a: SignupAction) -> bool {
    match parse_unsigned_text(trim(l), u8::MAX as int) {
        None => n.state is StartMenu && prompts(o, n, a, "Invalid input. Please enter a number.\n"@ + start_menu()),
        Some(c) => if c == 1 {
            &&& same_data(o, n)
            &&& n.state is Connecting
            &&& a matches SignupAction::Connect { before, after }
            &&& before@ == "Connecting Database\n"@
            &&& after@ == "Connected To Database \n"@
        } else {
            finishes(o, n) && a is Exit
        },
    }
}

/// The step of the dialogue on a line in state `AccountMenu`.
pub open spec fn account_menu_step(o: SignupFlow, l: Seq<char>, n: SignupFlow, a: SignupAction) -> bool {
    match parse_unsigned_text(trim(l), u64::MAX as int) {
        None => finishes(o, n) && is_abort(a, "eroor parsing"@),
        Some(c) => if c == 1 {
            n.state is LoginUsername && prompts(o, n, a, "Enter Username : "@)
        } else if c == 2 {
            n.state is NewUsername && prompts(o, n, a, "Enter Username \n"@)
        } else {
            n.state is StartMenu && prompts(o, n, a, start_menu())
        },
    }
}

/// The step of the dialogue on a password in state `LoginPassword` or
/// `ExistingPassword`: log in as `name` when the password matches.
pub open spec fn login_step(o: SignupFlow, name: Seq<char>, password: Seq<char>, n: SignupFlow, a: SignupAction) -> bool {
    if !credentials_readable(o.users@, name, password) {
        finishes(o, n) && is_abort(a, "a stored account lacks a field"@)
    } else if any_credentials_match(o.users@, name, password) {
        &&& finishes(o, n)
        &&& a matches SignupAction::LogIn { text, username }
        &&& text@ == Seq::<char>::empty()
        &&& username@ == name
    } else {
        n.state is StartMenu && prompts(o, n, a, refused_text())
    }
}

/// The step of the dialogue on a username for a new account: the name the
/// documents store for it, as the first name typed gave it, is kept.
pub open spec fn new_username_step(
    o: SignupFlow,
    u: String,
    username_db: Seq<char>,
    n: SignupFlow,
    a: SignupAction,
) -> bool {
    if is_taken(o.usernames@, u@) {
        &&& n.state matches SignupState::RetryUsername { username_db: d }
        &&& d@ == username_db
        &&& prompts(o, n, a, taken_text())
    } else {
        &&& n.state matches SignupState::NewPassword { username: nu, username_db: d }
        &&& nu == u
        &&& d@ == username_db
        &&& prompts(o, n, a, "Enter Password \n"@)
    }
}

/// The step of the dialogue on the password of a new account.
pub open spec fn new_password_step(
    o: SignupFlow,
    u: String,
    username_db: Seq<char>,
    p: String,
    n: SignupFlow,
    a: SignupAction,
) -> bool {
    match o.connection_error {
        Some(e) => n.state is StartMenu && prompts(
            o,
            n,
            a,
            "Processing\nAn error occurred: "@ + e@ + "\n"@ + start_menu(),
        ),
        None => if !usernames_readable(o.users@, username_db) {
            finishes(o, n) && is_abort(a, "a stored account lacks a field"@)
        } else if any_names_user(o.users@, username_db) {
            &&& n.state matches SignupState::ExistingPassword { username }
            &&& username@ == username_db
            &&& prompts(
                o,
                n,
                a,
                "Processing\nAccount Found For "@ + username_db + " Enter Password To Countinue : "@,
            )
        } else {
            &&& finishes(o, n)
            &&& a matches SignupAction::Create { text, account }
            &&& text@ == "Processing\n"@
            &&& is_new_account(account, u, p)
        },
    }
}

/// The account that sign-up creates for a name and password.
pub open spec fn is_new_account(a: UserAccount, username: String, password: String) -> bool {
    &&& a.username == username
    &&& a.password == password
    &&& a.online
    &&& a.points == 0
    &&& a.battles@ == Seq::<crate::models::Battle>::empty()
    &&& a.battles_won == 0
    &&& a.hint.hint@ == Seq::<char>::empty()
    &&& a.hint.pattern_rule@ == Seq::<char>::empty()
    &&& a.file_path@ == Seq::<char>::empty()
    &&& is_starter_pattern(a.incomplete_pattern)
    &&& a.patterns_solved@.len() == 1
    &&& is_starter_pattern(a.patterns_solved@[0])
    &&& a.rank@ == "Starterpack"@
}

/// One step of the sign-up dialogue.
pub open spec fn is_signup_step(o: SignupFlow, e: SignupEvent, n: SignupFlow, a: SignupAction) -> bool {
    let ignored = same_data(o, n) && n.state == o.state && a is Ignore;
    match o.state {
        SignupState::StartMenu => match e {
            SignupEvent::Line(l) => start_menu_step(o, l@, n, a),
            _ => ignored,
        },
        SignupState::Connecting => match e {
            SignupEvent::Connected { error, users } => {
                &&& n.users == users
                &&& usernames_listed(n.usernames@, users@)
                &&& n.connection_error == error
                &&& n.state is AccountMenu
                &&& a matches SignupAction::Prompt(t)
                &&& t@ == connected_text(users@.len() == 0)
            },
            _ => ignored,
        },
        SignupState::AccountMenu => match e {
            SignupEvent::Line(l) => account_menu_step(o, l@, n, a),
            _ => ignored,
        },
        SignupState::LoginUsername => match e {
            SignupEvent::Line(l) => {
                &&& n.state matches SignupState::LoginPassword { username }
                &&& username == l
                &&& prompts(o, n, a, "Enter Password :  "@)
            },
            _ => ignored,
        },
        SignupState::LoginPassword { username } => match e {
            SignupEvent::Line(l) => login_step(o, trim(username@), trim(l@), n, a),
            _ => ignored,
        },
        SignupState::NewUsername => match e {
            SignupEvent::Line(l) => if !usernames_readable(o.users@, l@) {
                finishes(o, n) && is_abort(a, "a stored account lacks a field"@)
            } else {
                new_username_step(
                    o,
                    l,
                    if any_names_user(o.users@, l@) {
                        l@
                    } else {
                        Seq::<char>::empty()
                    },
                    n,
                    a,
                )
            },
            _ => ignored,
        },
        SignupState::RetryUsername { username_db } => match e {
            SignupEvent::Line(l) => new_username_step(o, l, username_db@, n, a),
            _ => ignored,
        },
        SignupState::NewPassword { username, username_db } => match e {
            SignupEvent::Line(l) => new_password_step(o, username, username_db@, l, n, a),
            _ => ignored,
        },
        SignupState::ExistingPassword { username } => match e {
            SignupEvent::Line(l) => login_step(o, username@, l@, n, a),
            _ => ignored,
        },
        SignupState::Finished => ignored,
    }
}

fn abort_unreadable() -> (a: SignupAction)
    ensures
        a matches SignupAction::Abort(m) && m@ == "a stored account lacks a field"@,
{
    SignupAction::Abort(owned("a stored account lacks a field"))
}

fn prompt(text: &str) -> (a: SignupAction)
    ensures
        a matches SignupAction::Prompt(t) && t@ == text@,
{
    SignupAction::Prompt(owned(text))
}

impl SignupFlow {
    /// The dialogue at its start, and its first action: the start menu.
    pub fn new() -> (r: (SignupFlow, SignupAction))
        ensures
            r.0.state is StartMenu,
            r.0.users@ == Seq::<Document>::empty(),
            r.0.usernames@ == Seq::<String>::empty(),
            r.0.connection_error is None,
            r.1 matches SignupAction::Prompt(t) && t@ == start_menu(),
    {
        (
            SignupFlow {
                state: SignupState::StartMenu,
                users: Vec::new(),
                usernames: Vec::new(),
                connection_error: None,
            },
            SignupAction::Prompt(start_menu_string()),
        )
    }

    /// The login step for `name` and `password`.
    fn try_login(&mut self, name: &String, password: &String) -> (a: SignupAction)
        requires
            old(self).state is Finished,
        ensures
            login_step(*old(self), name@, password@, *final(self), a),
    {
        if !check_credentials_readable(&self.users, name, password) {
            return abort_unreadable();
        }
        match login(&self.users, name, password) {
            Ok(_) => SignupAction::LogIn { text: String::new(), username: name.clone() },
            Err(_) => {
                self.state = SignupState::StartMenu;
                SignupAction::Prompt(refused_string())
            },
        }
    }

    /// The step on a username for a new account.
    fn take_username(&mut self, u: String, username_db: String) -> (a: SignupAction)
        requires
            old(self).state is Finished,
        ensures
            new_username_step(*old(self), u, username_db@, *final(self), a),
    {
        if username_taken(&self.usernames, u.as_str()) {
            self.state = SignupState::RetryUsername { username_db };
            SignupAction::Prompt(owned("Username is  already taken try another one Enter Username \n"))
        } else {
            self.state = SignupState::NewPassword { username: u, username_db };
            prompt("Enter Password \n")
        }
    }

    /// The step on a line of the start menu.
    fn on_start_menu(&mut self, l: String) -> (a: SignupAction)
        requires
            old(self).state is Finished,
        ensures
            start_menu_step(*old(self), l@, *final(self), a),
    {
        match parse_menu_choice(l.as_str()) {
            None => {
                self.state = SignupState::StartMenu;
                let mut t = owned("Invalid input. Please enter a number.\n");
                push_str(&mut t, start_menu_string().as_str());
                SignupAction::Prompt(t)
            },
            Some(c) => if c == 1 {
                self.state = SignupState::Connecting;
                SignupAction::Connect {
                    before: owned("Connecting Database\n"),
                    after: owned("Connected To Database \n"),
                }
            } else {
                SignupAction::Exit
            },
        }
    }

    /// The step on a line of the account menu.
    fn on_account_menu(&mut self, l: String) -> (a: SignupAction)
        requires
            old(self).state is Finished,
        ensures
            account_menu_step(*old(self), l@, *final(self), a),
    {
        let t = trim_string(l.as_str());
        match parse_u64(t.as_str()) {
            None => SignupAction::Abort(owned("eroor parsing")),
            Some(c) => if c == 1 {
                self.state = SignupState::LoginUsername;
                prompt("Enter Username : ")
            } else if c == 2 {
                self.state = SignupState::NewUsername;
                prompt("Enter Username \n")
            } else {
                self.state = SignupState::StartMenu;
                SignupAction::Prompt(start_menu_string())
            },
        }
    }

    /// The step on the first username typed for a new account.
    fn on_new_username(&mut self, l: String) -> (a: SignupAction)
        requires
            old(self).state is Finished,
        ensures
            if !usernames_readable(old(self).users@, l@) {
                finishes(*old(self), *final(self)) && is_abort(a, "a stored account lacks a field"@)
            } else {
                new_username_step(
                    *old(self),
                    l,
                    if any_names_user(old(self).users@, l@) {
                        l@
                    } else {
                        Seq::<char>::empty()
                    },
                    *final(self),
                    a,
                )
            },
    {
        if !check_usernames_readable(&self.users, &l) {
            return abort_unreadable();
        }
        let username_db = match find_user(&self.users, &l) {
            Some(name) => name,
            None => String::new(),
        };
        self.take_username(l, username_db)
    }

    /// The step on the password of a new account.
    fn on_new_password(&mut self, username: String, username_db: String, l: String) -> (a: SignupAction)
        requires
            old(self).state is Finished,
        ensures
            new_password_step(*old(self), username, username_db@, l, *final(self), a),
    {
        match &self.connection_error {
            Some(e) => {
                let mut t = owned("Processing\nAn error occurred: ");
                push_str(&mut t, e.as_str());
                push_str(&mut t, "\n");
                push_str(&mut t, start_menu_string().as_str());
                self.state = SignupState::StartMenu;
                SignupAction::Prompt(t)
            },
            None => {
                if !check_usernames_readable(&self.users, &username_db) {
                    return abort_unreadable();
                }
                match find_user(&self.users, &username_db) {
                    Some(name) => {
                        let mut t = owned("Processing\nAccount Found For ");
                        push_str(&mut t, name.as_str());
                        push_str(&mut t, " Enter Password To Countinue : ");
                        self.state = SignupState::ExistingPassword { username: name };
                        SignupAction::Prompt(t)
                    },
                    None => SignupAction::Create {
                        text: owned("Processing\n"),
                        account: new_user_account(username, l),
                    },
                }
            },
        }
    }

    /// One step of the dialogue: takes in what the surroundings report and
    /// says what they are to do next.
    pub fn step(&mut self, event: SignupEvent) -> (a: SignupAction)
        ensures
            is_signup_step(*old(self), event, *final(self), a),
    {
        let mut state = SignupState::Finished;
        std::mem::swap(&mut state, &mut self.state);
        match state {
            SignupState::StartMenu => match event {
                SignupEvent::Line(l) => self.on_start_menu(l),
                _ => {
                    self.state = state;
                    SignupAction::Ignore
                },
            },
            SignupState::Connecting => match event {
                SignupEvent::Connected { error, users } => {
                    let usernames = get_all_usernames(&users);
                    self.users = users;
                    self.usernames = usernames;
                    self.connection_error = error;
                    self.state = SignupState::AccountMenu;
                    if self.users.len() == 0 {
                        let mut t = owned("user emptys\n");
                        push_str(&mut t, account_menu_string().as_str());
                        SignupAction::Prompt(t)
                    } else {
                        SignupAction::Prompt(account_menu_string())
                    }
                },
                _ => {
                    self.state = state;
                    SignupAction::Ignore
                },
            },
            SignupState::AccountMenu => match event {
                SignupEvent::Line(l) => self.on_account_menu(l),
                _ => {
                    self.state = state;
                    SignupAction::Ignore
                },
            },
            SignupState::LoginUsername => match event {
                SignupEvent::Line(l) => {
                    self.state = SignupState::LoginPassword { username: l };
                    prompt("Enter Password :  ")
                },
                _ => {
                    self.state = state;
                    SignupAction::Ignore
                },
            },
            SignupState::LoginPassword { username } => match event {
                SignupEvent::Line(l) => {
                    let name = trim_string(username.as_str());
                    let password = trim_string(l.as_str());
                    self.try_login(&name, &password)
                },
                _ => {
                    self.state = SignupState::LoginPassword { username };
                    SignupAction::Ignore
                },
            },
            SignupState::NewUsername => match event {
                SignupEvent::Line(l) => self.on_new_username(l),
                _ => {
                    self.state = state;
                    SignupAction::Ignore
                },
            },
            SignupState::RetryUsername { username_db } => match event {
                SignupEvent::Line(l) => self.take_username(l, username_db),
                _ => {
                    self.state = SignupState::RetryUsername { username_db };
                    SignupAction::Ignore
                },
            },
            SignupState::NewPassword { username, username_db } => match event {
                SignupEvent::Line(l) => self.on_new_password(username, username_db, l),
                _ => {
                    self.state = SignupState::NewPassword { username, username_db };
                    SignupAction::Ignore
                },
            },
            SignupState::ExistingPassword { username } => match event {
                SignupEvent::Line(l) => self.try_login(&username, &l),
                _ => {
                    self.state = SignupState::ExistingPassword { username };
                    SignupAction::Ignore
                },
            },
            SignupState::Finished => SignupAction::Ignore,
        }
    }
}

} // verus!
