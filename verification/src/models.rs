use vstd::prelude::*;

verus! {

/// How a game is played.
#[derive(Clone, Copy, Debug, PartialEq, Eq, Structural)]
pub enum Modes {
    SinglePlayer,
    Battle,
}

/// The difficulty of a number pattern.
#[derive(Clone, Copy, Debug, PartialEq, Eq, Structural)]
pub enum Level {
    Hard,
    Easy,
    Medium,
    Impossible,
}

impl Default for Level {
    fn default() -> (l: Self)
        ensures
            l == Level::Easy,
    {
        Level::Easy
    }
}

/// A hint for a pattern, with the rule it hints at.
#[derive(Clone, Debug)]
pub struct Hint {
    pub pattern_rule: String,
    pub hint: String,
}

impl Default for Hint {
    fn default() -> (h: Self)
        ensures
            h.hint@ == Seq::<char>::empty(),
            h.pattern_rule@ == Seq::<char>::empty(),
    {
        Hint { hint: String::new(), pattern_rule: String::new() }
    }
}

/// A number pattern that a player is to continue.
#[derive(Clone, Debug)]
pub struct Pattern {
    pub pattern: Vec<i32>,
    pub level: Level,
    pub time_taken: u16,
    pub jeopardy: u16,
    pub rule: String,
    pub solved: bool,
    pub term_to_solve: u32,
}

/// A pattern with no terms, at the default level, unsolved.
pub open spec fn is_default_pattern(p: Pattern) -> bool {
    &&& p.pattern@ == Seq::<i32>::empty()
    &&& p.level == Level::Easy
    &&& p.time_taken == 0
    &&& p.jeopardy == 0
    &&& p.rule@ == Seq::<char>::empty()
    &&& !p.solved
    &&& p.term_to_solve == 0
}

impl Default for Pattern {
    fn default() -> (p: Self)
        ensures
            is_default_pattern(p),
    {
        Pattern {
            pattern: Vec::new(),
            level: Level::Easy,
            time_taken: 0,
            jeopardy: 0,
            rule: String::new(),
            solved: false,
            term_to_solve: 0,
        }
    }
}

/// One line of the leaderboard.
#[derive(Clone, Debug)]
pub struct LeaderboardInfo {
    pub username: String,
    pub rank: String,
}

/// The leaderboard.
#[derive(Clone, Debug)]
pub struct Leaderboard {
    pub board: Vec<LeaderboardInfo>,
}

/// A player's account.
#[derive(Debug)]
pub struct UserAccount {
    pub username: String,
    pub password: String,
    pub incomplete_pattern: Pattern,
    pub patterns_solved: Vec<Pattern>,
    pub rank: String,
    pub file_path: String,
    pub battles: Vec<Battle>,
    pub battles_won: i32,
    pub points: i32,
    pub hint: Hint,
    pub online: bool,
}

/// An account with empty texts and lists, zero counts, the default pattern,
/// offline.
pub open spec fn is_default_account(u: UserAccount) -> bool {
    &&& u.username@ == Seq::<char>::empty()
    &&& u.password@ == Seq::<char>::empty()
    &&& is_default_pattern(u.incomplete_pattern)
    &&& u.patterns_solved@ == Seq::<Pattern>::empty()
    &&& u.rank@ == Seq::<char>::empty()
    &&& u.file_path@ == Seq::<char>::empty()
    &&& u.battles@ == Seq::<Battle>::empty()
    &&& u.battles_won == 0
    &&& u.points == 0
    &&& u.hint.hint@ == Seq::<char>::empty()
    &&& u.hint.pattern_rule@ == Seq::<char>::empty()
    &&& !u.online
}

impl Default for UserAccount {
    fn default() -> (u: Self)
        ensures
            is_default_account(u),
    {
        UserAccount {
            username: String::new(),
            password: String::new(),
            incomplete_pattern: Pattern::default(),
            patterns_solved: Vec::new(),
            rank: String::new(),
            file_path: String::new(),
            battles: Vec::new(),
            battles_won: 0,
            points: 0,
            hint: Hint::default(),
            online: false,
        }
    }
}

/// A chat message.
#[derive(Clone, Debug)]
pub struct Message {
    pub sender: String,
    pub content: String,
    pub date: String,
    pub time: String,
}

impl Default for Message {
    fn default() -> (m: Self)
        ensures
            m.sender@ == Seq::<char>::empty(),
            m.content@ == Seq::<char>::empty(),
            m.date@ == Seq::<char>::empty(),
            m.time@ == Seq::<char>::empty(),
    {
        Message {
            sender: String::new(),
            content: String::new(),
            date: String::new(),
            time: String::new(),
        }
    }
}

impl Message {
    /// A copy of this message, field by field.
    pub fn duplicate(&self) -> (m: Message)
        ensures
            m == *self,
    {
        Message {
            sender: self.sender.clone(),
            content: self.content.clone(),
            date: self.date.clone(),
            time: self.time.clone(),
        }
    }
}

/// A copy of a list of messages.
pub fn copy_messages(v: &Vec<Message>) -> (r: Vec<Message>)
    ensures
        r@ == v@,
{
    let mut r: Vec<Message> = Vec::new();
    let mut i: usize = 0;
    while i < v.len()
        invariant
            i <= v@.len(),
            r@ == v@.take(i as int),
        decreases v.len() - i,
    {
        r.push(v[i].duplicate());
        i = i + 1;
        assert(r@ =~= v@.take(i as int));
    }
    assert(v@.take(v.len() as int) =~= v@);
    r
}

/// The global chat.
#[derive(Clone, Debug)]
pub struct Chat {
    pub chats: Vec<Message>,
}

impl Default for Chat {
    fn default() -> (c: Self)
        ensures
            c.chats@ == Seq::<Message>::empty(),
    {
        Chat { chats: Vec::new() }
    }
}

/// A battle between two players over a pattern.
#[derive(Debug)]
pub struct Battle {
    pub initiator: UserAccount,
    pub reciever: UserAccount,
    pub winner: UserAccount,
    pub pattern: Pattern,
    pub battle_chat: Chat,
    pub active: bool,
    pub punishment_pattern: Vec<i32>,
    pub punishment_pattern_term_to_solve: u32,
    pub punishment_path: String,
    pub punishment_pattern_valid: bool,
    pub level: Level,
}

/// Whether `b` holds the same pattern as `a`: the same terms and the same
/// other fields.
pub open spec fn same_pattern(a: Pattern, b: Pattern) -> bool {
    &&& b.pattern@ == a.pattern@
    &&& b.level == a.level
    &&& b.time_taken == a.time_taken
    &&& b.jeopardy == a.jeopardy
    &&& b.rule == a.rule
    &&& b.solved == a.solved
    &&& b.term_to_solve == a.term_to_solve
}

/// Whether two lists hold the same patterns, one by one.
pub open spec fn same_patterns(a: Seq<Pattern>, b: Seq<Pattern>) -> bool {
    &&& b.len() == a.len()
    &&& forall|i: int| 0 <= i < a.len() ==> #[trigger] same_pattern(a[i], b[i])
}

/// Whether `b` holds the same account as `a`: every field the same, the
/// lists element by element, the battles as `same_battle` says.
pub open spec fn same_account(a: UserAccount, b: UserAccount) -> bool
    decreases a,
{
    &&& b.username == a.username
    &&& b.password == a.password
    &&& same_pattern(a.incomplete_pattern, b.incomplete_pattern)
    &&& same_patterns(a.patterns_solved@, b.patterns_solved@)
    &&& b.rank == a.rank
    &&& b.file_path == a.file_path
    &&& same_battles(a.battles@, b.battles@)
    &&& b.battles_won == a.battles_won
    &&& b.points == a.points
    &&& b.hint == a.hint
    &&& b.online == a.online
}

/// Whether two lists hold the same battles, one by one.
pub open spec fn same_battles(a: Seq<Battle>, b: Seq<Battle>) -> bool
    decreases a,
{
    if a.len() == 0 {
        b.len() == 0
    } else {
        &&& b.len() == a.len()
        &&& same_battles(a.drop_last(), b.drop_last())
        &&& same_battle(a.last(), b.last())
    }
}

/// Whether `b` holds the same battle as `a`: every field the same, the
/// players as `same_account` says.
pub open spec fn same_battle(a: Battle, b: Battle) -> bool
    decreases a,
{
    &&& same_account(a.initiator, b.initiator)
    &&& same_account(a.reciever, b.reciever)
    &&& same_account(a.winner, b.winner)
    &&& same_pattern(a.pattern, b.pattern)
    &&& b.battle_chat.chats@ == a.battle_chat.chats@
    &&& b.active == a.active
    &&& b.punishment_pattern@ == a.punishment_pattern@
    &&& b.punishment_pattern_term_to_solve == a.punishment_pattern_term_to_solve
    &&& b.punishment_path == a.punishment_path
    &&& b.punishment_pattern_valid == a.punishment_pattern_valid
    &&& b.level == a.level
}

/// A copy of a list of integers.
fn copy_terms(v: &Vec<i32>) -> (r: Vec<i32>)
    ensures
        r@ == v@,
{
    let mut r: Vec<i32> = Vec::new();
    let mut i: usize = 0;
    while i < v.len()
        invariant
            i <= v@.len(),
            r@ == v@.take(i as int),
        decreases v.len() - i,
    {
        r.push(v[i]);
        i = i + 1;
        assert(r@ =~= v@.take(i as int));
    }
    assert(v@.take(v.len() as int) =~= v@);
    r
}

/// A copy of a pattern.
fn copy_pattern(p: &Pattern) -> (r: Pattern)
    ensures
        same_pattern(*p, r),
{
    Pattern {
        pattern: copy_terms(&p.pattern),
        level: p.level,
        time_taken: p.time_taken,
        jeopardy: p.jeopardy,
        rule: p.rule.clone(),
        solved: p.solved,
        term_to_solve: p.term_to_solve,
    }
}

/// Copies of a list of patterns.
fn copy_patterns(v: &Vec<Pattern>) -> (r: Vec<Pattern>)
    ensures
        same_patterns(v@, r@),
{
    let mut r: Vec<Pattern> = Vec::new();
    let mut i: usize = 0;
    while i < v.len()
        invariant
            i <= v@.len(),
            r@.len() == i,
            forall|j: int| 0 <= j < i ==> #[trigger] same_pattern(v@[j], r@[j]),
        decreases v.len() - i,
    {
        r.push(copy_pattern(&v[i]));
        i = i + 1;
    }
    r
}

/// A copy of an account, with copies of its battles.
fn copy_account(u: &UserAccount) -> (r: UserAccount)
    ensures
        same_account(*u, r),
    decreases u,
{
    let battles = copy_battles(&u.battles);
    let r = UserAccount {
        username: u.username.clone(),
        password: u.password.clone(),
        incomplete_pattern: copy_pattern(&u.incomplete_pattern),
        patterns_solved: copy_patterns(&u.patterns_solved),
        rank: u.rank.clone(),
        file_path: u.file_path.clone(),
        battles: battles,
        battles_won: u.battles_won,
        points: u.points,
        hint: Hint { pattern_rule: u.hint.pattern_rule.clone(), hint: u.hint.hint.clone() },
        online: u.online,
    };
    r
}

/// Copies of a list of battles.
fn copy_battles(v: &Vec<Battle>) -> (r: Vec<Battle>)
    ensures
        same_battles(v@, r@),
    decreases v,
{
    let mut r: Vec<Battle> = Vec::new();
    let mut i: usize = 0;
    while i < v.len()
        invariant
            i <= v@.len(),
            r@.len() == i,
            same_battles(v@.take(i as int), r@),
        decreases v.len() - i,
    {
        proof {
            assert(decreases_to!(v => v[i as int]));
        }
        let ghost before = r@;
        r.push(copy_battle(&v[i]));
        assert(v@.take(i + 1).drop_last() =~= v@.take(i as int));
        assert(r@.drop_last() =~= before);
        i = i + 1;
    }
    assert(v@.take(v.len() as int) =~= v@);
    r
}

/// A copy of a battle, with copies of its players.
fn copy_battle(b: &Battle) -> (r: Battle)
    ensures
        same_battle(*b, r),
    decreases b,
{
    Battle {
        initiator: copy_account(&b.initiator),
        reciever: copy_account(&b.reciever),
        winner: copy_account(&b.winner),
        pattern: copy_pattern(&b.pattern),
        battle_chat: Chat { chats: copy_messages(&b.battle_chat.chats) },
        active: b.active,
        punishment_pattern: copy_terms(&b.punishment_pattern),
        punishment_pattern_term_to_solve: b.punishment_pattern_term_to_solve,
        punishment_path: b.punishment_path.clone(),
        punishment_pattern_valid: b.punishment_pattern_valid,
        level: b.level,
    }
}

impl Clone for UserAccount {
    /// A copy of this account: every field the same, lists element by
    /// element.
    fn clone(&self) -> (r: Self)
        ensures
            same_account(*self, r),
    {
        copy_account(self)
    }
}

impl Clone for Battle {
    /// A copy of this battle: every field the same, lists element by element.
    fn clone(&self) -> (r: Self)
        ensures
            same_battle(*self, r),
    {
        copy_battle(self)
    }
}

/// The body of a request to the language model.
#[derive(Debug)]
pub struct ReqBody {
    pub contents: Vec<ContentInfo>,
}

/// One content entry of a request.
#[derive(Debug)]
pub struct ContentInfo {
    pub parts: Vec<Prompts>,
}

/// One text part of a request.
#[derive(Debug)]
pub struct Prompts {
    pub text: String,
}

/// The state of the terminal client.
#[derive(Debug)]
pub struct App {
    pub chat: Chat,
    pub redraw: bool,
    pub display_messages: Vec<Message>,
    pub mode: Modes,
    pub user_account: UserAccount,
    pub hint_toggle: bool,
    pub leaderboard_toggle: bool,
    pub exit: bool,
    pub user_input: String,
    pub scroll_offset: usize,
    pub scroll_offset_online_users: usize,
}

/// A failed login.
#[derive(Debug)]
pub enum LoginError {
    Message(String),
}

} // verus!
