use mongodb::bson::Document;
use vstd::prelude::*;

use crate::models::{Battle, Hint, LoginError, Pattern, UserAccount};
use crate::text::{
    chars_of, owned, remove_char, same_text, string_from_chars, trim, trim_chars, without_char,
};

verus! {

#[verifier::external_type_specification]
#[verifier::external_body]
pub struct ExDocument(Document);

/// The texts of the fields of a stored document: for each key, its value as
/// `Bson`'s `Display` writes it (a string between double quotes).
pub uninterp spec fn document_texts(doc: Document) -> Map<Seq<char>, Seq<char>>;

/// Looks `key` up with bson's `Document::get` and writes the value with
/// `Bson`'s `Display`. The contract claims that a value comes back exactly
/// when the document has the key, and that it is the text that
/// `document_texts` names for it.
#[verifier::external_body]
fn field_text(doc: &Document, key: &str) -> (r: Option<String>)
    ensures
        r is Some <==> document_texts(*doc).contains_key(key@),
        r matches Some(t) ==> t@ == document_texts(*doc)[key@],
{
    match doc.get(key) {
        Some(value) => Some(value.to_string()),
        None => None,
    }
}

/// A field text without its double quotes and surrounding white space.
pub open spec fn clean_text(t: Seq<char>) -> Seq<char> {
    trim(without_char(t, '"'))
}

/// Whether the document has the field `key`.
pub open spec fn has_field(d: Document, key: Seq<char>) -> bool {
    document_texts(d).contains_key(key)
}

/// The cleaned text of field `key` of the document.
pub open spec fn field_value(d: Document, key: Seq<char>) -> Seq<char> {
    clean_text(document_texts(d)[key])
}

/// The cleaned text of field `value` of `user`, which must have it.
fn formatter(value: &str, user: &Document) -> (s: String)
    requires
        has_field(*user, value@),
    ensures
        s@ == field_value(*user, value@),
{
    let t = field_text(user, value);
    match t {
        Some(t) => {
            let v = chars_of(t.as_str());
            let unquoted = remove_char(&v, '"');
            let trimmed = trim_chars(&unquoted);
            string_from_chars(&trimmed)
        },
        None => String::new(),
    }
}

/// Whether the document stores the account named `name`.
pub open spec fn names_user(d: Document, name: Seq<char>) -> bool {
    has_field(d, "username"@) && field_value(d, "username"@) == name
}

/// Whether some document stores the account named `name`.
pub open spec fn any_names_user(docs: Seq<Document>, name: Seq<char>) -> bool
    decreases docs.len(),
{
    docs.len() > 0 && (names_user(docs[0], name) || any_names_user(docs.drop_first(), name))
}

/// Whether every document up to the first that stores `name` has a username
/// (the search reads the username of each of them).
pub open spec fn usernames_readable(docs: Seq<Document>, name: Seq<char>) -> bool
    decreases docs.len(),
{
    docs.len() == 0 || (has_field(docs[0], "username"@) && (field_value(docs[0], "username"@)
        == name || usernames_readable(docs.drop_first(), name)))
}

/// Whether two strings hold the same text.
fn same_string(a: &String, b: &String) -> (r: bool)
    ensures
        r == (a@ == b@),
{
    same_text(a.as_str(), b.as_str())
}

/// The username stored for `username`, if a document stores it.
pub fn find_user(users: &Vec<Document>, username: &String) -> (r: Option<String>)
    requires
        usernames_readable(users@, username@),
    ensures
        r is Some <==> any_names_user(users@, username@),
        r matches Some(s) ==> s@ == username@,
{
    let n = users.len();
    let mut i: usize = 0;
    assert(users@.subrange(0, n as int) =~= users@);
    while i < n
        invariant
            n == users@.len(),
            i <= n,
            usernames_readable(users@.subrange(i as int, n as int), username@),
            any_names_user(users@, username@) == any_names_user(
                users@.subrange(i as int, n as int),
                username@,
            ),
        decreases n - i,
    {
        assert(users@.subrange(i as int, n as int).drop_first() =~= users@.subrange(
            i + 1,
            n as int,
        ));
        assert(users@.subrange(i as int, n as int)[0] == users@[i as int]);
        let doc_username = formatter("username", &users[i]);
        if same_string(&doc_username, username) {
            return Some(doc_username);
        }
        i = i + 1;
    }
    None
}

/// Whether the document stores the account `name` with password `password`.
pub open spec fn credentials_match(d: Document, name: Seq<char>, password: Seq<char>) -> bool {
    &&& names_user(d, name)
    &&& has_field(d, "password"@)
    &&& field_value(d, "password"@) == password
}

/// Whether some document stores the account `name` with password `password`.
pub open spec fn any_credentials_match(docs: Seq<Document>, name: Seq<char>, password: Seq<char>) -> bool
    decreases docs.len(),
{
    docs.len() > 0 && (credentials_match(docs[0], name, password) || any_credentials_match(
        docs.drop_first(),
        name,
        password,
    ))
}

/// Whether the login can read what it compares: the username of every
/// document up to the first that matches, and the password of those whose
/// username is `name`.
pub open spec fn credentials_readable(docs: Seq<Document>, name: Seq<char>, password: Seq<char>) -> bool
    decreases docs.len(),
{
    docs.len() == 0 || (has_field(docs[0], "username"@) && if field_value(docs[0], "username"@)
        == name {
        has_field(docs[0], "password"@) && (field_value(docs[0], "password"@) == password
            || credentials_readable(docs.drop_first(), name, password))
    } else {
        credentials_readable(docs.drop_first(), name, password)
    })
}

/// Logs in: `Ok(true)` when a document stores the account with this
/// password, the error `Incorrect Password` otherwise.
pub fn login(users: &Vec<Document>, username: &String, password: &String) -> (r: Result<bool, LoginError>)
    requires
        credentials_readable(users@, username@, password@),
    ensures
        any_credentials_match(users@, username@, password@) ==> r == Ok::<bool, LoginError>(true),
        !any_credentials_match(users@, username@, password@) ==> (r matches Err(
            LoginError::Message(m),
        ) && m@ == "Incorrect Password"@),
{
    let n = users.len();
    let mut i: usize = 0;
    assert(users@.subrange(0, n as int) =~= users@);
    while i < n
        invariant
            n == users@.len(),
            i <= n,
            credentials_readable(users@.subrange(i as int, n as int), username@, password@),
            any_credentials_match(users@, username@, password@) == any_credentials_match(
                users@.subrange(i as int, n as int),
                username@,
                password@,
            ),
        decreases n - i,
    {
        assert(users@.subrange(i as int, n as int).drop_first() =~= users@.subrange(
            i + 1,
            n as int,
        ));
        assert(users@.subrange(i as int, n as int)[0] == users@[i as int]);
        let doc_username = formatter("username", &users[i]);
        if same_string(&doc_username, username) {
            let doc_password = formatter("password", &users[i]);
            if same_string(&doc_password, password) {
                return Ok(true);
            }
        }
        i = i + 1;
    }
    Err(LoginError::Message(owned("Incorrect Password")))
}

/// The usernames stored in the documents that have one, in order.
pub open spec fn usernames_of(docs: Seq<Document>) -> Seq<Seq<char>>
    decreases docs.len(),
{
    if docs.len() == 0 {
        seq![]
    } else if has_field(docs.last(), "username"@) {
        usernames_of(docs.drop_last()).push(field_value(docs.last(), "username"@))
    } else {
        usernames_of(docs.drop_last())
    }
}

/// The usernames stored in the documents that have one, in order.
pub fn get_all_usernames(docs: &Vec<Document>) -> (r: Vec<String>)
    ensures
        r@.len() == usernames_of(docs@).len(),
        forall|i: int| 0 <= i < r@.len() ==> #[trigger] r@[i]@ == usernames_of(docs@)[i],
{
    let mut r: Vec<String> = Vec::new();
    let mut i: usize = 0;
    while i < docs.len()
        invariant
            i <= docs@.len(),
            r@.len() == usernames_of(docs@.take(i as int)).len(),
            forall|j: int| 0 <= j < r@.len() ==> #[trigger] r@[j]@ == usernames_of(docs@.take(i as int))[j],
        decreases docs.len() - i,
    {
        assert(docs@.take(i + 1).drop_last() =~= docs@.take(i as int));
        assert(docs@.take(i + 1).last() == docs@[i as int]);
        let t = field_text(&docs[i], "username");
        match t {
            Some(t) => {
                let v = chars_of(t.as_str());
                let unquoted = remove_char(&v, '"');
                let trimmed = trim_chars(&unquoted);
                r.push(string_from_chars(&trimmed));
            },
            None => {},
        }
        i = i + 1;
    }
    assert(docs@.take(docs.len() as int) =~= docs@);
    r
}

/// What an account document holds beyond its texts, decoded from BSON, each
/// part absent where the document lacks it or it does not decode: the online
/// flag (a boolean), the current pattern, the battles (an array, of which the
/// elements that decode are kept), the counts (32-bit integers), the solved
/// patterns (an array, likewise) and the hint (the `hints` field).
#[derive(Debug)]
pub struct DecodedUser {
    pub online: Option<bool>,
    pub incomplete_pattern: Option<Pattern>,
    pub battles: Option<Vec<Battle>>,
    pub battles_won: Option<i32>,
    pub points: Option<i32>,
    pub patterns_solved: Option<Vec<Pattern>>,
    pub hint: Option<Hint>,
}

/// Whether document `d`, decoded as `dec`, is the account to log in as: it
/// stores `name` and its current pattern decodes.
pub open spec fn is_login_candidate(d: Document, dec: DecodedUser, name: Seq<char>) -> bool {
    names_user(d, name) && dec.incomplete_pattern is Some
}

/// Whether some document is the account to log in as.
pub open spec fn any_login_candidate(docs: Seq<Document>, decs: Seq<DecodedUser>, name: Seq<char>) -> bool
    decreases docs.len(),
{
    docs.len() > 0 && decs.len() > 0 && (is_login_candidate(docs[0], decs[0], name)
        || any_login_candidate(docs.drop_first(), decs.drop_first(), name))
}

/// Whether the account lookup can read what it uses: the hint and the
/// username of every document up to the account; the online flag, password
/// and file path of each document that stores `name`; and the name, rank,
/// battles, counts and solved patterns of the account.
pub open spec fn account_readable(docs: Seq<Document>, decs: Seq<DecodedUser>, name: Seq<char>) -> bool
    decreases docs.len(),
{
    docs.len() == 0 || decs.len() == 0 || (decs[0].hint is Some && has_field(docs[0], "username"@)
        && if field_value(docs[0], "username"@) == name {
        decs[0].online is Some && has_field(docs[0], "password"@) && has_field(docs[0], "file_path"@)
            && if decs[0].incomplete_pattern is Some {
            &&& has_field(docs[0], "name"@)
            &&& has_field(docs[0], "rank"@)
            &&& decs[0].battles is Some
            &&& decs[0].battles_won is Some
            &&& decs[0].points is Some
            &&& decs[0].patterns_solved is Some
        } else {
            account_readable(docs.drop_first(), decs.drop_first(), name)
        }
    } else {
        account_readable(docs.drop_first(), decs.drop_first(), name)
    })
}

/// The account that document `d`, decoded as `dec`, stores: the texts come
/// from the document (the name from its `name` field), the rest from the
/// decoding.
pub open spec fn is_account_of(a: UserAccount, d: Document, dec: DecodedUser) -> bool {
    &&& dec.online == Some(a.online)
    &&& a.password@ == field_value(d, "password"@)
    &&& a.file_path@ == field_value(d, "file_path"@)
    &&& Some(a.incomplete_pattern) == dec.incomplete_pattern
    &&& a.username@ == field_value(d, "name"@)
    &&& a.rank@ == field_value(d, "rank"@)
    &&& dec.battles == Some(a.battles)
    &&& dec.hint == Some(a.hint)
    &&& dec.battles_won == Some(a.battles_won)
    &&& dec.points == Some(a.points)
    &&& dec.patterns_solved == Some(a.patterns_solved)
}

/// The account of the first document that is the account to log in as.
pub open spec fn is_first_account(
    a: UserAccount,
    docs: Seq<Document>,
    decs: Seq<DecodedUser>,
    name: Seq<char>,
) -> bool
    decreases docs.len(),
{
    docs.len() > 0 && decs.len() > 0 && if is_login_candidate(docs[0], decs[0], name) {
        is_account_of(a, docs[0], decs[0])
    } else {
        is_first_account(a, docs.drop_first(), decs.drop_first(), name)
    }
}

/// The account of the player `username`: from the first document that stores
/// the name and whose current pattern decodes, with what `decoded` holds for
/// each document.
pub fn find_logged_in_user(users: &Vec<Document>, username: &String, decoded: Vec<DecodedUser>) -> (r: Option<UserAccount>)
    requires
        decoded@.len() == users@.len(),
        account_readable(users@, decoded@, username@),
    ensures
        r is Some <==> any_login_candidate(users@, decoded@, username@),
        r matches Some(a) ==> is_first_account(a, users@, decoded@, username@),
{
    let n = users.len();
    let ghost decs = decoded@;
    let mut rest = decoded;
    let mut i: usize = 0;
    assert(users@.subrange(0, n as int) =~= users@);
    assert(decs.subrange(0, n as int) =~= decs);
    while i < n
        invariant
            n == users@.len(),
            n == decs.len(),
            decs == decoded@,
            i <= n,
            rest@ == decs.subrange(i as int, n as int),
            account_readable(users@.subrange(i as int, n as int), rest@, username@),
            any_login_candidate(users@, decs, username@) == any_login_candidate(
                users@.subrange(i as int, n as int),
                rest@,
                username@,
            ),
            forall|a: UserAccount|
                is_first_account(a, users@, decs, username@) == is_first_account(
                    a,
                    users@.subrange(i as int, n as int),
                    rest@,
                    username@,
                ),
        decreases n - i,
    {
        let ghost docs_here = users@.subrange(i as int, n as int);
        let ghost decs_here = rest@;
        assert(docs_here.drop_first() =~= users@.subrange(i + 1, n as int));
        assert(decs_here.drop_first() =~= decs.subrange(i + 1, n as int));
        assert(docs_here[0] == users@[i as int]);
        let d = rest.remove(0);
        assert(rest@ =~= decs_here.drop_first());
        let doc = &users[i];
        let doc_username = formatter("username", doc);
        if same_string(&doc_username, username) {
            let online = d.online.unwrap();
            let password = formatter("password", doc);
            let file_path = formatter("file_path", doc);
            match d.incomplete_pattern {
                Some(pattern) => {
                    let name = formatter("name", doc);
                    let rank = formatter("rank", doc);
                    let account = UserAccount {
                        online: online,
                        password: password,
                        file_path: file_path,
                        incomplete_pattern: pattern,
                        username: name,
                        rank: rank,
                        battles: d.battles.unwrap(),
                        hint: d.hint.unwrap(),
                        battles_won: d.battles_won.unwrap(),
                        points: d.points.unwrap(),
                        patterns_solved: d.patterns_solved.unwrap(),
                    };
                    assert(is_account_of(account, docs_here[0], decs_here[0]));
                    assert(is_login_candidate(docs_here[0], decs_here[0], username@));
                    assert(is_first_account(account, docs_here, decs_here, username@));
                    assert(any_login_candidate(docs_here, decs_here, username@));
                    assert(is_first_account(account, users@, decs, username@));
                    assert(any_login_candidate(users@, decs, username@));
                    assert(decs == decoded@);
                    return Some(account);
                },
                None => {},
            }
        }
        i = i + 1;
    }
    None
}

// ---------------------------------------------------------------------------
// Laws of account lookups
// ---------------------------------------------------------------------------

/// The account that the lookup gives back is the one stored at the first
/// document that stores the name and whose current pattern decodes: its
/// current pattern is that decoded pattern itself (terms included), its
/// flags, counts, battles, solved patterns and hint are the decoded ones,
/// and its texts are the document's.
pub proof fn lemma_logged_in_account_is_stored(
    a: UserAccount,
    docs: Seq<Document>,
    decs: Seq<DecodedUser>,
    name: Seq<char>,
)
    requires
        is_first_account(a, docs, decs, name),
    ensures
        exists|i: int|
            0 <= i < docs.len() && 0 <= i < decs.len() && names_user(#[trigger] docs[i], name)
                && (forall|j: int| 0 <= j < i ==> !(names_user(#[trigger] docs[j], name) && decs[j].incomplete_pattern is Some))
                && decs[i].incomplete_pattern == Some(a.incomplete_pattern)
                && decs[i].online == Some(a.online)
                && decs[i].battles == Some(a.battles)
                && decs[i].battles_won == Some(a.battles_won)
                && decs[i].points == Some(a.points)
                && decs[i].patterns_solved == Some(a.patterns_solved)
                && decs[i].hint == Some(a.hint)
                && a.password@ == field_value(docs[i], "password"@)
                && a.file_path@ == field_value(docs[i], "file_path"@)
                && a.username@ == field_value(docs[i], "name"@)
                && a.rank@ == field_value(docs[i], "rank"@),
    decreases docs.len(),
{
    if is_login_candidate(docs[0], decs[0], name) {
        assert(names_user(docs[0], name));
    } else {
        lemma_logged_in_account_is_stored(a, docs.drop_first(), decs.drop_first(), name);
        let i = choose|i: int|
            0 <= i < docs.drop_first().len() && 0 <= i < decs.drop_first().len() && names_user(
                #[trigger] docs.drop_first()[i],
                name,
            ) && (forall|j: int|
                0 <= j < i ==> !(names_user(#[trigger] docs.drop_first()[j], name)
                    && decs.drop_first()[j].incomplete_pattern is Some))
                && decs.drop_first()[i].incomplete_pattern == Some(a.incomplete_pattern)
                && decs.drop_first()[i].online == Some(a.online)
                && decs.drop_first()[i].battles == Some(a.battles)
                && decs.drop_first()[i].battles_won == Some(a.battles_won)
                && decs.drop_first()[i].points == Some(a.points)
                && decs.drop_first()[i].patterns_solved == Some(a.patterns_solved)
                && decs.drop_first()[i].hint == Some(a.hint)
                && a.password@ == field_value(docs.drop_first()[i], "password"@)
                && a.file_path@ == field_value(docs.drop_first()[i], "file_path"@)
                && a.username@ == field_value(docs.drop_first()[i], "name"@)
                && a.rank@ == field_value(docs.drop_first()[i], "rank"@);
        assert(docs[i + 1] == docs.drop_first()[i]);
        assert forall|j: int| 0 <= j < i + 1 implies !(names_user(#[trigger] docs[j], name)
            && decs[j].incomplete_pattern is Some) by {
            if j > 0 {
                assert(docs[j] == docs.drop_first()[j - 1]);
                assert(decs[j] == decs.drop_first()[j - 1]);
            }
        }
    }
}

/// A login succeeds only for an account that the username search finds.
pub proof fn lemma_login_implies_user_found(docs: Seq<Document>, name: Seq<char>, password: Seq<char>)
    requires
        any_credentials_match(docs, name, password),
    ensures
        any_names_user(docs, name),
    decreases docs.len(),
{
    if !credentials_match(docs[0], name, password) {
        lemma_login_implies_user_found(docs.drop_first(), name, password);
    }
}

proof fn lemma_any_names_user_index(docs: Seq<Document>, name: Seq<char>)
    ensures
        any_names_user(docs, name) <==> exists|i: int| 0 <= i < docs.len() && #[trigger] names_user(docs[i], name),
    decreases docs.len(),
{
    if docs.len() > 0 {
        lemma_any_names_user_index(docs.drop_first(), name);
        if any_names_user(docs.drop_first(), name) {
            let i = choose|i: int| 0 <= i < docs.drop_first().len() && #[trigger] names_user(docs.drop_first()[i], name);
            assert(names_user(docs[i + 1], name));
        }
        if exists|i: int| 0 <= i < docs.len() && #[trigger] names_user(docs[i], name) {
            let i = choose|i: int| 0 <= i < docs.len() && #[trigger] names_user(docs[i], name);
            if i > 0 {
                assert(names_user(docs.drop_first()[i - 1], name));
            }
        }
    }
}

proof fn lemma_usernames_of_index(docs: Seq<Document>, name: Seq<char>)
    ensures
        usernames_of(docs).contains(name) <==> exists|i: int| 0 <= i < docs.len() && #[trigger] names_user(docs[i], name),
    decreases docs.len(),
{
    if docs.len() > 0 {
        let init = docs.drop_last();
        lemma_usernames_of_index(init, name);
        if usernames_of(docs).contains(name) {
            let j = choose|j: int| 0 <= j < usernames_of(docs).len() && usernames_of(docs)[j] == name;
            if has_field(docs.last(), "username"@) {
                if j < usernames_of(init).len() {
                    assert(usernames_of(init)[j] == name);
                    assert(usernames_of(init).contains(name));
                    let i = choose|i: int| 0 <= i < init.len() && #[trigger] names_user(init[i], name);
                    assert(names_user(docs[i], name));
                } else {
                    assert(names_user(docs[docs.len() - 1], name));
                }
            } else {
                assert(usernames_of(init).contains(name));
                let i = choose|i: int| 0 <= i < init.len() && #[trigger] names_user(init[i], name);
                assert(names_user(docs[i], name));
            }
        }
        if usernames_of(init).contains(name) {
            let i = choose|i: int| 0 <= i < init.len() && #[trigger] names_user(init[i], name);
            assert(names_user(docs[i], name));
            let j = choose|j: int| 0 <= j < usernames_of(init).len() && usernames_of(init)[j] == name;
            if has_field(docs.last(), "username"@) {
                assert(usernames_of(docs)[j] == name);
            }
        }
        if exists|i: int| 0 <= i < docs.len() && #[trigger] names_user(docs[i], name) {
            let i = choose|i: int| 0 <= i < docs.len() && #[trigger] names_user(docs[i], name);
            if i < docs.len() - 1 {
                assert(names_user(init[i], name));
                let j = choose|j: int| 0 <= j < usernames_of(init).len() && usernames_of(init)[j] == name;
                if has_field(docs.last(), "username"@) {
                    assert(usernames_of(docs)[j] == name);
                }
            } else {
                assert(usernames_of(docs).last() == name);
                assert(usernames_of(docs)[usernames_of(docs).len() - 1] == name);
            }
        }
    }
}

/// A name is among the usernames listed exactly when the username search
/// finds it: the check for a taken name at sign-up and the search agree.
pub proof fn lemma_usernames_match_search(docs: Seq<Document>, name: Seq<char>)
    ensures
        usernames_of(docs).contains(name) <==> any_names_user(docs, name),
{
    lemma_any_names_user_index(docs, name);
    lemma_usernames_of_index(docs, name);
}

// ---------------------------------------------------------------------------
// Checks that the lookups can read what they need
// ---------------------------------------------------------------------------

/// Whether the document has the field `key`.
pub fn doc_has_field(d: &Document, key: &str) -> (b: bool)
    ensures
        b == has_field(*d, key@),
{
    field_text(d, key).is_some()
}

/// Whether `find_user` can search for `name` in `docs`.
pub fn check_usernames_readable(docs: &Vec<Document>, name: &String) -> (b: bool)
    ensures
        b == usernames_readable(docs@, name@),
{
    let n = docs.len();
    let mut i: usize = 0;
    assert(docs@.subrange(0, n as int) =~= docs@);
    while i < n
        invariant
            n == docs@.len(),
            i <= n,
            usernames_readable(docs@, name@) == usernames_readable(docs@.subrange(i as int, n as int), name@),
        decreases n - i,
    {
        assert(docs@.subrange(i as int, n as int).drop_first() =~= docs@.subrange(i + 1, n as int));
        assert(docs@.subrange(i as int, n as int)[0] == docs@[i as int]);
        if !doc_has_field(&docs[i], "username") {
            return false;
        }
        let u = formatter("username", &docs[i]);
        if same_string(&u, name) {
            return true;
        }
        i = i + 1;
    }
    true
}

/// Whether `login` can check `name` and `password` against `docs`.
pub fn check_credentials_readable(docs: &Vec<Document>, name: &String, password: &String) -> (b: bool)
    ensures
        b == credentials_readable(docs@, name@, password@),
{
    let n = docs.len();
    let mut i: usize = 0;
    assert(docs@.subrange(0, n as int) =~= docs@);
    while i < n
        invariant
            n == docs@.len(),
            i <= n,
            credentials_readable(docs@, name@, password@) == credentials_readable(
                docs@.subrange(i as int, n as int),
                name@,
                password@,
            ),
        decreases n - i,
    {
        assert(docs@.subrange(i as int, n as int).drop_first() =~= docs@.subrange(i + 1, n as int));
        assert(docs@.subrange(i as int, n as int)[0] == docs@[i as int]);
        if !doc_has_field(&docs[i], "username") {
            return false;
        }
        let u = formatter("username", &docs[i]);
        if same_string(&u, name) {
            if !doc_has_field(&docs[i], "password") {
                return false;
            }
            let p = formatter("password", &docs[i]);
            if same_string(&p, password) {
                return true;
            }
        }
        i = i + 1;
    }
    true
}

/// Whether `find_logged_in_user` can read what it uses for `name`.
pub fn check_account_readable(docs: &Vec<Document>, decoded: &Vec<DecodedUser>, name: &String) -> (b: bool)
    requires
        decoded@.len() == docs@.len(),
    ensures
        b == account_readable(docs@, decoded@, name@),
{
    let n = docs.len();
    let mut i: usize = 0;
    assert(docs@.subrange(0, n as int) =~= docs@);
    assert(decoded@.subrange(0, n as int) =~= decoded@);
    while i < n
        invariant
            n == docs@.len(),
            n == decoded@.len(),
            i <= n,
            account_readable(docs@, decoded@, name@) == account_readable(
                docs@.subrange(i as int, n as int),
                decoded@.subrange(i as int, n as int),
                name@,
            ),
        decreases n - i,
    {
        assert(docs@.subrange(i as int, n as int).drop_first() =~= docs@.subrange(i + 1, n as int));
        assert(decoded@.subrange(i as int, n as int).drop_first() =~= decoded@.subrange(i + 1, n as int));
        assert(docs@.subrange(i as int, n as int)[0] == docs@[i as int]);
        assert(decoded@.subrange(i as int, n as int)[0] == decoded@[i as int]);
        let doc = &docs[i];
        let dec = &decoded[i];
        if dec.hint.is_none() || !doc_has_field(doc, "username") {
            return false;
        }
        let u = formatter("username", doc);
        if same_string(&u, name) {
            if dec.online.is_none() || !doc_has_field(doc, "password") || !doc_has_field(doc, "file_path") {
                return false;
            }
            if dec.incomplete_pattern.is_some() {
                return doc_has_field(doc, "name") && doc_has_field(doc, "rank") && dec.battles.is_some()
                    && dec.battles_won.is_some() && dec.points.is_some() && dec.patterns_solved.is_some();
            }
        }
        i = i + 1;
    }
    true
}

} // verus!
