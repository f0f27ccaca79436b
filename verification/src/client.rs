use vstd::prelude::*;

use crate::game_functions::{
    draws_valid, generate_sequence, random_in_range, rule_text, term_bounds, term_range, terms_fit, value_after,
};
use crate::models::{
    copy_messages, is_default_account, App, Battle, Chat, Hint, Level, Message, Modes, Pattern,
    UserAccount,
};
use crate::text::{
    byte_len, byte_prefix_chars, char_width, chars_of, contains_chars, contains_text,
    decimal_int, has_prefix, is_boundary, lemma_byte_prefix_len, lemma_utf8_len_ascii,
    lemma_utf8_len_concat, lemma_utf8_len_push, owned, push_char, push_decimal_i32, push_decimal_u64,
    push_str, starts_with_chars, string_from_chars, trim, trim_string, truncate_bytes, utf8_len,
};

verus! {

/// The abstract state of a pattern: its terms and rule as sequences.
pub struct PatternState {
    pub terms: Seq<i32>,
    pub level: Level,
    pub time_taken: u16,
    pub jeopardy: u16,
    pub rule: Seq<char>,
    pub solved: bool,
    pub term_to_solve: u32,
}

/// The abstract state of the client: every field of `App`, texts and lists
/// as sequences.
pub struct AppState {
    pub chats: Seq<Message>,
    pub redraw: bool,
    pub display_messages: Seq<Message>,
    pub mode: Modes,
    pub username: Seq<char>,
    pub password: Seq<char>,
    pub pattern: PatternState,
    pub patterns_solved: Seq<Pattern>,
    pub rank: Seq<char>,
    pub file_path: Seq<char>,
    pub battles: Seq<Battle>,
    pub battles_won: i32,
    pub points: i32,
    pub hint: Hint,
    pub online: bool,
    pub hint_toggle: bool,
    pub leaderboard_toggle: bool,
    pub exit: bool,
    pub input: Seq<char>,
    pub scroll_offset: usize,
    pub scroll_offset_online_users: usize,
}

impl Pattern {
    /// The abstract state of this pattern.
    pub open spec fn state(&self) -> PatternState {
        PatternState {
            terms: self.pattern@,
            level: self.level,
            time_taken: self.time_taken,
            jeopardy: self.jeopardy,
            rule: self.rule@,
            solved: self.solved,
            term_to_solve: self.term_to_solve,
        }
    }
}

impl View for App {
    type V = AppState;

    open spec fn view(&self) -> AppState {
        AppState {
            chats: self.chat.chats@,
            redraw: self.redraw,
            display_messages: self.display_messages@,
            mode: self.mode,
            username: self.user_account.username@,
            password: self.user_account.password@,
            pattern: self.user_account.incomplete_pattern.state(),
            patterns_solved: self.user_account.patterns_solved@,
            rank: self.user_account.rank@,
            file_path: self.user_account.file_path@,
            battles: self.user_account.battles@,
            battles_won: self.user_account.battles_won,
            points: self.user_account.points,
            hint: self.user_account.hint,
            online: self.user_account.online,
            hint_toggle: self.hint_toggle,
            leaderboard_toggle: self.leaderboard_toggle,
            exit: self.exit,
            input: self.user_input@,
            scroll_offset: self.scroll_offset,
            scroll_offset_online_users: self.scroll_offset_online_users,
        }
    }
}

impl App {
    /// Scrolls the chat up by one line, if it is not at the top.
    pub fn scroll_up(&mut self)
        ensures
            final(self)@ == (AppState {
                scroll_offset: if old(self).scroll_offset > 0 {
                    (old(self).scroll_offset - 1) as usize
                } else {
                    old(self).scroll_offset
                },
                ..old(self)@
            }),
    {
        if self.scroll_offset > 0 {
            self.scroll_offset = self.scroll_offset - 1;
        }
    }
}

/// A key press that the client reacts to.
#[derive(Clone, Copy, Debug, PartialEq, Eq, Structural)]
pub enum KeyInput {
    Up,
    Down,
    Enter,
    Char(char),
    Backspace,
    Other,
}

/// What the surroundings of the client are to do after a key press.
#[derive(Debug)]
pub enum Action {
    /// Nothing.
    Nothing,
    /// Store the chat, which holds its first message now, as a new document.
    InsertChats(Vec<Message>),
    /// Replace the stored chat by this one.
    UpdateChats(Vec<Message>),
    /// Ask the language model for a hint on this pattern text, and hand the
    /// answer to `App::apply_hint`.
    RequestHint(String),
    /// Start counting seconds from this value in the background.
    StartCounter(i32),
}

/// The chat scrolled up by one line, if it is not at the top.
pub open spec fn scrolled_up(s: AppState) -> AppState {
    AppState {
        scroll_offset: if s.scroll_offset > 0 {
            (s.scroll_offset - 1) as usize
        } else {
            s.scroll_offset
        },
        ..s
    }
}

/// The chat scrolled down by one line, while ten lines stay below the top
/// line shown.
pub open spec fn scrolled_down(s: AppState) -> AppState {
    AppState {
        scroll_offset: if s.scroll_offset + 10 < s.chats.len() {
            (s.scroll_offset + 1) as usize
        } else {
            s.scroll_offset
        },
        ..s
    }
}

/// The input after typing `c`: the character is added while the input has
/// fewer than 75 bytes; from 75 bytes on a warning is added instead, and
/// from 95 bytes on the input is cut back to its first 75 bytes.
pub open spec fn typed_input(input: Seq<char>, c: char) -> Seq<char> {
    let n = utf8_len(input);
    if n < 75 {
        input.push(c)
    } else if n < 95 {
        input + "(can not exceed 75 )"@
    } else {
        truncate_bytes(input, 75)
    }
}

/// The input after a backspace: without its last character.
pub open spec fn backspaced_input(input: Seq<char>) -> Seq<char> {
    if input.len() > 0 {
        input.drop_last()
    } else {
        input
    }
}

/// Whether the input is a chat message: `/c` followed by the text.
pub open spec fn is_chat_command(input: Seq<char>) -> bool {
    has_prefix(input, "/c"@)
}

/// Whether the input asks for a hint.
pub open spec fn is_hint_command(input: Seq<char>) -> bool {
    has_prefix(input, "hint"@)
}

/// A chat message whose text can be cut after its third byte: the message
/// text starts at byte three, which must begin a character.
pub open spec fn chat_command_ok(input: Seq<char>) -> bool {
    input.len() >= 3 && char_width(input[2]) == 1
}

/// The state after posting a chat message: the message is added to the chat,
/// the input keeps its first three characters, and the screen is redrawn.
/// The date and time of the message are left to the caller.
pub open spec fn is_posted(old: AppState, new: AppState) -> bool {
    &&& new == AppState {
        chats: new.chats,
        input: old.input.subrange(0, 3),
        redraw: true,
        ..old
    }
    &&& new.chats.len() == old.chats.len() + 1
    &&& new.chats.drop_last() == old.chats
    &&& new.chats.last().sender@ == trim(old.username)
    &&& new.chats.last().content@ == old.input.subrange(3, old.input.len() as int)
}

/// What is stored after a chat message: a new document for the first
/// message, an update of the stored chat otherwise; both hold the whole chat.
pub open spec fn is_chat_store(old: AppState, new: AppState, a: Action) -> bool {
    if old.chats.len() == 0 {
        &&& a matches Action::InsertChats(v)
        &&& v@ == new.chats
    } else {
        &&& a matches Action::UpdateChats(v)
        &&& v@ == new.chats
    }
}

/// The decimal texts of the terms, one after the other.
pub open spec fn terms_text(s: Seq<i32>) -> Seq<char>
    decreases s.len(),
{
    if s.len() == 0 {
        seq![]
    } else {
        terms_text(s.drop_last()) + decimal_int(s.last() as int)
    }
}

/// The input after a command, before any new pattern: the seconds spent on
/// the current pattern are added to it.
pub open spec fn timed_input(s: AppState) -> Seq<char> {
    s.input + "seconds -"@ + decimal_int(s.pattern.time_taken as int)
}

/// Whether a command asks for a new easy pattern and gets one: it names
/// `Gen-1` and the current pattern is solved.
pub open spec fn command_draws_pattern(s: AppState) -> bool {
    contains_text(timed_input(s), "Gen-1"@) && s.pattern.solved
}

/// Whether `terms` and `rule` are an easy pattern that some draws make.
pub open spec fn is_easy_pattern(terms: Seq<i32>, rule: Seq<char>) -> bool {
    exists|start: i32, op: i32, comp: i32, factors: Seq<i32>|
        #[trigger] draws_valid(Level::Easy, start as int, op as int, comp as int, factors)
            && terms_fit(Level::Easy, start as int, op as int, comp as int, factors)
            && terms.len() == 4 && (forall|i: int|
            0 <= i < 4 ==> #[trigger] terms[i] == value_after(
                Level::Easy,
                start as int,
                op as int,
                comp as int,
                factors,
                (i + 1) as nat,
            )) && rule == rule_text(start as int, op as int, comp as int)
}

/// The state after a command (an input that is neither a chat message nor a
/// hint request). The seconds are added to the input; a command naming
/// `Gen-1` installs the new easy pattern `terms`, `rule`, with `term` to
/// solve, when the current one is solved, and otherwise tells the player to
/// solve the current one first. The screen is redrawn.
pub open spec fn command_state(s: AppState, term: u32, terms: Seq<i32>, rule: Seq<char>) -> AppState {
    let input = timed_input(s);
    if contains_text(input, "Gen-1"@) {
        if s.pattern.solved {
            AppState {
                input: input,
                pattern: PatternState {
                    terms: terms,
                    rule: rule,
                    term_to_solve: term,
                    level: Level::Easy,
                    solved: false,
                    ..s.pattern
                },
                redraw: true,
                ..s
            }
        } else {
            AppState { input: "solve current problem firsttttt"@, redraw: true, ..s }
        }
    } else {
        AppState { input: input, redraw: true, ..s }
    }
}

/// The action of a command: the seconds counter starts while the current
/// pattern is unsolved.
pub open spec fn is_command_action(s: AppState, a: Action) -> bool {
    if s.pattern.solved {
        a is Nothing
    } else {
        &&& a matches Action::StartCounter(t)
        &&& t == s.pattern.time_taken as i32
    }
}

/// The keys the client can take in a given state: scrolling down must not
/// overflow, a long input must be cut on a character boundary, and a chat
/// message must have its text begin at byte three.
pub open spec fn key_ok(s: AppState, key: KeyInput) -> bool {
    match key {
        KeyInput::Down => s.scroll_offset + 10 <= usize::MAX,
        KeyInput::Char(_) => utf8_len(s.input) >= 95 ==> is_boundary(s.input, 75),
        KeyInput::Enter => is_chat_command(s.input) ==> chat_command_ok(s.input),
        _ => true,
    }
}

/// Whether `new` and `a` are what a key press gives in state `old`, with
/// the given clock reading for a chat message and the given draws for a new
/// pattern.
pub open spec fn is_key_step(
    old: AppState,
    key: KeyInput,
    date: String,
    time: String,
    term: u32,
    terms: Seq<i32>,
    rule: Seq<char>,
    new: AppState,
    a: Action,
) -> bool {
    match key {
        KeyInput::Up => new == scrolled_up(old) && a is Nothing,
        KeyInput::Down => new == scrolled_down(old) && a is Nothing,
        KeyInput::Char(c) => new == AppState { input: typed_input(old.input, c), ..old } && a is Nothing,
        KeyInput::Backspace => new == AppState { input: backspaced_input(old.input), ..old } && a is Nothing,
        KeyInput::Other => new == old && a is Nothing,
        KeyInput::Enter => if is_chat_command(old.input) {
            is_posted(old, new) && new.chats.last().date == date && new.chats.last().time == time
                && is_chat_store(old, new, a)
        } else if is_hint_command(old.input) {
            &&& new == AppState { redraw: true, ..old }
            &&& a matches Action::RequestHint(q)
            &&& q@ == terms_text(old.pattern.terms)
        } else {
            new == command_state(old, term, terms, rule) && is_command_action(old, a)
        },
    }
}

/// What no key press changes: the chat before is a prefix of the chat after;
/// the messages shown, the mode, the toggles, the exit flag, the
/// online-users scroll and every part of the account but its current
/// pattern stay; and the chat is stored (once, as a new document or an
/// update) exactly on Enter with a `/c` input.
pub open spec fn key_keeps(old: AppState, key: KeyInput, new: AppState, a: Action) -> bool {
    &&& old.chats.len() <= new.chats.len()
    &&& new.chats.subrange(0, old.chats.len() as int) == old.chats
    &&& new.display_messages == old.display_messages
    &&& new.username == old.username
    &&& new.password == old.password
    &&& new.patterns_solved == old.patterns_solved
    &&& new.rank == old.rank
    &&& new.file_path == old.file_path
    &&& new.battles == old.battles
    &&& new.battles_won == old.battles_won
    &&& new.points == old.points
    &&& new.hint == old.hint
    &&& new.online == old.online
    &&& new.exit == old.exit
    &&& new.mode == old.mode
    &&& new.hint_toggle == old.hint_toggle
    &&& new.leaderboard_toggle == old.leaderboard_toggle
    &&& new.scroll_offset_online_users == old.scroll_offset_online_users
    &&& (a is InsertChats || a is UpdateChats) <==> (key == KeyInput::Enter && is_chat_command(old.input))
}

/// `is_key_step` with draws of a new pattern that a command can make.
pub open spec fn is_key_outcome(
    old: AppState,
    key: KeyInput,
    date: String,
    time: String,
    term: u32,
    terms: Seq<i32>,
    rule: Seq<char>,
    new: AppState,
    a: Action,
) -> bool {
    &&& (key == KeyInput::Enter && !is_chat_command(old.input) && !is_hint_command(old.input)
        && command_draws_pattern(old)) ==> term_range().0 <= term < term_range().1 && is_easy_pattern(terms, rule)
    &&& is_key_step(old, key, date, time, term, terms, rule, new, a)
}

/// `command_state` with draws of a new pattern that a command can make.
pub open spec fn is_command_outcome(
    old: AppState,
    term: u32,
    terms: Seq<i32>,
    rule: Seq<char>,
    new: AppState,
) -> bool {
    &&& command_draws_pattern(old) ==> term_range().0 <= term < term_range().1 && is_easy_pattern(terms, rule)
    &&& new == command_state(old, term, terms, rule)
}

proof fn lemma_literal_views()
    ensures
        "/c"@ == seq!['/', 'c'],
        "hint"@ == seq!['h', 'i', 'n', 't'],
        "Gen-1"@ == seq!['G', 'e', 'n', '-', '1'],
{
    reveal_strlit("/c");
    reveal_strlit("hint");
    reveal_strlit("Gen-1");
}

impl App {
    /// Scrolls the chat down by one line, while ten lines stay below the
    /// top line shown.
    pub fn scroll_down(&mut self)
        requires
            old(self).scroll_offset + 10 <= usize::MAX,
        ensures
            final(self)@ == scrolled_down(old(self)@),
    {
        if self.scroll_offset + 10 < self.chat.chats.len() {
            self.scroll_offset = self.scroll_offset + 1;
        }
    }

    /// Types a character into the input line, which holds up to 75 bytes.
    pub fn type_char(&mut self, c: char)
        requires
            utf8_len(old(self).user_input@) >= 95 ==> is_boundary(old(self).user_input@, 75),
        ensures
            final(self)@ == (AppState { input: typed_input(old(self)@.input, c), ..old(self)@ }),
    {
        let n = byte_len(self.user_input.as_str());
        if n < 75 {
            push_char(&mut self.user_input, c);
        } else if n < 95 {
            push_str(&mut self.user_input, "(can not exceed 75 )");
        } else {
            let v = chars_of(self.user_input.as_str());
            let kept = byte_prefix_chars(&v, 75);
            self.user_input = string_from_chars(&kept);
        }
    }

    /// Removes the last character of the input line.
    pub fn backspace(&mut self)
        ensures
            final(self)@ == (AppState { input: backspaced_input(old(self)@.input), ..old(self)@ }),
    {
        let mut v = chars_of(self.user_input.as_str());
        if v.len() > 0 {
            v.pop();
            assert(v@ =~= old(self).user_input@.drop_last());
        }
        self.user_input = string_from_chars(&v);
    }

    /// Posts the input line, `/c` and a space or other one-byte character
    /// followed by the text, to the chat as a message of this player with the
    /// given date and time, and keeps the `/c` prefix in the input.
    pub fn post_chat_message(&mut self, date: String, time: String) -> (a: Action)
        requires
            is_chat_command(old(self).user_input@),
            chat_command_ok(old(self).user_input@),
        ensures
            is_posted(old(self)@, final(self)@),
            final(self)@.chats.last().date == date,
            final(self)@.chats.last().time == time,
            is_chat_store(old(self)@, final(self)@, a),
    {
        let v = chars_of(self.user_input.as_str());
        let mut content: Vec<char> = Vec::new();
        let mut i: usize = 3;
        while i < v.len()
            invariant
                3 <= i <= v@.len(),
                v@ == old(self).user_input@,
                content@ == v@.subrange(3, i as int),
            decreases v.len() - i,
        {
            content.push(v[i]);
            i = i + 1;
            assert(content@ =~= v@.subrange(3, i as int));
        }
        let mut prefix: Vec<char> = Vec::new();
        prefix.push(v[0]);
        prefix.push(v[1]);
        prefix.push(v[2]);
        assert(prefix@ =~= v@.subrange(0, 3));
        let message = Message {
            content: string_from_chars(&content),
            sender: trim_string(self.user_account.username.as_str()),
            date: date,
            time: time,
        };
        let was_empty = self.chat.chats.len() == 0;
        self.chat.chats.push(message);
        let snapshot = copy_messages(&self.chat.chats);
        self.user_input = string_from_chars(&prefix);
        self.redraw = true;
        assert(self.chat.chats@.drop_last() =~= old(self).chat.chats@);
        if was_empty {
            Action::InsertChats(snapshot)
        } else {
            Action::UpdateChats(snapshot)
        }
    }

    /// The text sent to the language model for a hint: the decimal terms of
    /// the current pattern, one after the other.
    pub fn hint_query(&self) -> (q: String)
        ensures
            q@ == terms_text(self.user_account.incomplete_pattern.pattern@),
    {
        let terms = &self.user_account.incomplete_pattern.pattern;
        let mut q = String::new();
        let mut i: usize = 0;
        while i < terms.len()
            invariant
                i <= terms@.len(),
                q@ == terms_text(terms@.take(i as int)),
            decreases terms.len() - i,
        {
            push_decimal_i32(&mut q, terms[i]);
            assert(terms@.take(i + 1).drop_last() =~= terms@.take(i as int));
            i = i + 1;
        }
        assert(terms@.take(terms.len() as int) =~= terms@);
        q
    }

    /// Shows the hint that came back in the input line.
    pub fn apply_hint(&mut self, hint: String)
        ensures
            final(self)@ == (AppState { input: hint@, ..old(self)@ }),
    {
        self.user_input = hint;
    }

    /// Installs a new easy pattern with `term` to solve, unsolved.
    pub fn install_easy_pattern(&mut self, term: u32, terms: Vec<i32>, rule: String)
        ensures
            final(self)@ == (AppState {
                pattern: PatternState {
                    terms: terms@,
                    rule: rule@,
                    term_to_solve: term,
                    level: Level::Easy,
                    solved: false,
                    ..old(self)@.pattern
                },
                ..old(self)@
            }),
    {
        self.user_account.incomplete_pattern.pattern = terms;
        self.user_account.incomplete_pattern.rule = rule;
        self.user_account.incomplete_pattern.term_to_solve = term;
        self.user_account.incomplete_pattern.level = Level::Easy;
        self.user_account.incomplete_pattern.solved = false;
    }

    /// Runs a command: adds the seconds spent on the current pattern to the
    /// input, and on `Gen-1` draws a new easy pattern (with 6 to 11 as the
    /// term to solve) when the current one is solved. The seconds counter
    /// starts while the current pattern is unsolved.
    pub fn run_command(&mut self) -> (a: Action)
        ensures
            exists|term: u32, terms: Seq<i32>, rule: Seq<char>|
                #[trigger] is_command_outcome(old(self)@, term, terms, rule, final(self)@),
            is_command_action(old(self)@, a),
    {
        let ghost s = self@;
        let a = if self.user_account.incomplete_pattern.solved {
            Action::Nothing
        } else {
            Action::StartCounter(self.user_account.incomplete_pattern.time_taken as i32)
        };
        push_str(&mut self.user_input, "seconds -");
        push_decimal_u64(&mut self.user_input, self.user_account.incomplete_pattern.time_taken as u64);
        assert(self.user_input@ =~= timed_input(s));
        let input = chars_of(self.user_input.as_str());
        let gen = chars_of("Gen-1");
        if contains_chars(&input, &gen) {
            if self.user_account.incomplete_pattern.solved {
                let (tlo, thi) = term_bounds();
                let term = random_in_range(tlo, thi) as u32;
                let seq = generate_sequence(&Level::Easy);
                match seq {
                    Some((terms, rule)) => {
                        let ghost tv = terms@;
                        let ghost rv = rule@;
                        self.install_easy_pattern(term, terms, rule);
                        self.redraw = true;
                        assert(is_easy_pattern(tv, rv));
                        assert(is_command_outcome(s, term, tv, rv, self@));
                    },
                    None => {},
                }
            } else {
                self.user_input = owned("solve current problem firsttttt");
                self.redraw = true;
                assert(is_command_outcome(s, 0, seq![], seq![], self@));
            }
        } else {
            self.redraw = true;
            assert(is_command_outcome(s, 0, seq![], seq![], self@));
        }
        a
    }

    /// Handles one key press, with the date and time of the moment for a
    /// chat message. Returns what the surroundings are to do: store the
    /// chat, ask for a hint, or start the seconds counter.
    ///
    /// A key press loses no chat message and leaves the messages shown, the
    /// mode, the toggles, the exit flag, the online-users scroll and every
    /// part of the account but its current pattern as they were; it asks to
    /// store the chat exactly on Enter with a `/c` input.
    pub fn handle_key(&mut self, key: KeyInput, date: String, time: String) -> (a: Action)
        requires
            key_ok(old(self)@, key),
        ensures
            exists|term: u32, terms: Seq<i32>, rule: Seq<char>|
                #[trigger] is_key_outcome(old(self)@, key, date, time, term, terms, rule, final(self)@, a),
            key_keeps(old(self)@, key, final(self)@, a),
    {
        let ghost s = self@;
        let ghost d = date;
        let ghost t = time;
        let a = self.key_step(key, date, time);
        proof {
            let (term, terms, rule) = choose|term: u32, terms: Seq<i32>, rule: Seq<char>|
                #[trigger] is_key_outcome(s, key, d, t, term, terms, rule, self@, a);
            lemma_key_keeps_chat(s, key, d, t, term, terms, rule, self@, a);
        }
        a
    }

    fn key_step(&mut self, key: KeyInput, date: String, time: String) -> (a: Action)
        requires
            key_ok(old(self)@, key),
        ensures
            exists|term: u32, terms: Seq<i32>, rule: Seq<char>|
                #[trigger] is_key_outcome(old(self)@, key, date, time, term, terms, rule, final(self)@, a),
    {
        proof {
            lemma_literal_views();
        }
        match key {
            KeyInput::Up => {
                self.scroll_up();
                assert(is_key_outcome(old(self)@, key, date, time, 0, seq![], seq![], self@, Action::Nothing));
                Action::Nothing
            },
            KeyInput::Down => {
                self.scroll_down();
                assert(is_key_outcome(old(self)@, key, date, time, 0, seq![], seq![], self@, Action::Nothing));
                Action::Nothing
            },
            KeyInput::Char(c) => {
                self.type_char(c);
                assert(is_key_outcome(old(self)@, key, date, time, 0, seq![], seq![], self@, Action::Nothing));
                Action::Nothing
            },
            KeyInput::Backspace => {
                self.backspace();
                assert(is_key_outcome(old(self)@, key, date, time, 0, seq![], seq![], self@, Action::Nothing));
                Action::Nothing
            },
            KeyInput::Other => {
                assert(is_key_outcome(old(self)@, key, date, time, 0, seq![], seq![], self@, Action::Nothing));
                Action::Nothing
            },
            KeyInput::Enter => {
                let input = chars_of(self.user_input.as_str());
                let slash_c = chars_of("/c");
                let hint = chars_of("hint");
                if starts_with_chars(&input, &slash_c) {
                    let a = self.post_chat_message(date, time);
                    assert(is_key_outcome(old(self)@, key, date, time, 0, seq![], seq![], self@, a));
                    a
                } else if starts_with_chars(&input, &hint) {
                    let q = self.hint_query();
                    self.redraw = true;
                    let a = Action::RequestHint(q);
                    assert(is_key_outcome(old(self)@, key, date, time, 0, seq![], seq![], self@, a));
                    a
                } else {
                    let ghost s = self@;
                    let a = self.run_command();
                    proof {
                        let (t, ts, r) = choose|t: u32, ts: Seq<i32>, r: Seq<char>|
                            #[trigger] is_command_outcome(s, t, ts, r, self@);
                        assert(is_key_outcome(s, key, date, time, t, ts, r, self@, a));
                    }
                    a
                }
            },
        }
    }
}

/// The state right after start: the given chat, shown in full, and the given
/// account, in single-player mode, at the top of the chat, with an empty
/// input and nothing toggled.
pub open spec fn is_initial_state(s: AppState, chats: Seq<Message>, user: UserAccount) -> bool {
    &&& s.chats == chats
    &&& s.display_messages == chats
    &&& s.username == user.username@
    &&& s.password == user.password@
    &&& s.pattern == user.incomplete_pattern.state()
    &&& s.patterns_solved == user.patterns_solved@
    &&& s.rank == user.rank@
    &&& s.file_path == user.file_path@
    &&& s.battles == user.battles@
    &&& s.battles_won == user.battles_won
    &&& s.points == user.points
    &&& s.hint == user.hint
    &&& s.online == user.online
    &&& s.mode == Modes::SinglePlayer
    &&& !s.redraw
    &&& !s.hint_toggle
    &&& !s.leaderboard_toggle
    &&& !s.exit
    &&& s.input == Seq::<char>::empty()
    &&& s.scroll_offset == 0
    &&& s.scroll_offset_online_users == 0
}

/// The client for the given chat and account, before any key press.
pub fn generate_app(chat: Chat, user: UserAccount) -> (app: App)
    ensures
        is_initial_state(app@, chat.chats@, user),
{
    App {
        display_messages: copy_messages(&chat.chats),
        scroll_offset: 0,
        scroll_offset_online_users: 0,
        chat: chat,
        exit: false,
        hint_toggle: false,
        leaderboard_toggle: false,
        redraw: false,
        mode: Modes::SinglePlayer,
        user_account: user,
        user_input: String::new(),
    }
}

impl Default for App {
    fn default() -> (app: Self)
        ensures
            app@.chats == Seq::<Message>::empty(),
            app@.display_messages == Seq::<Message>::empty(),
            is_default_account(app.user_account),
            app@.mode == Modes::SinglePlayer,
            !app@.redraw && !app@.hint_toggle && !app@.leaderboard_toggle && !app@.exit,
            app@.input == Seq::<char>::empty(),
            app@.scroll_offset == 0,
            app@.scroll_offset_online_users == 0,
    {
        App {
            display_messages: Vec::new(),
            scroll_offset: 0,
            scroll_offset_online_users: 0,
            chat: Chat::default(),
            user_account: UserAccount::default(),
            user_input: String::new(),
            exit: false,
            mode: Modes::SinglePlayer,
            hint_toggle: false,
            leaderboard_toggle: false,
            redraw: false,
        }
    }
}

/// The state after new messages arrive: they are shown, the input says so,
/// and the screen is redrawn.
pub open spec fn messages_updated(s: AppState, messages: Seq<Message>) -> AppState {
    AppState {
        input: "im updating the message"@,
        display_messages: messages,
        redraw: true,
        ..s
    }
}

/// The state after the stored chat changed: the new messages are shown, and
/// the view follows a chat of ten or more messages whose end is near.
pub open spec fn chat_changed(s: AppState, messages: Seq<Message>) -> AppState {
    let u = messages_updated(s, messages);
    if s.chats.len() >= 10 && s.scroll_offset + 10 >= s.chats.len() - 2 {
        AppState { scroll_offset: (s.chats.len() - 10) as usize, ..u }
    } else {
        u
    }
}

impl App {
    /// Shows the given messages.
    pub fn update_messages(&mut self, new_messages: Vec<Message>)
        ensures
            final(self)@ == messages_updated(old(self)@, new_messages@),
    {
        self.user_input = owned("im updating the message");
        self.display_messages.clear();
        self.display_messages = new_messages;
        self.redraw = true;
    }

    /// Takes in the messages of a change of the stored chat.
    pub fn apply_chat_update(&mut self, new_messages: Vec<Message>)
        requires
            old(self).chat.chats.len() >= 10 ==> old(self).scroll_offset + 10 <= usize::MAX,
        ensures
            final(self)@ == chat_changed(old(self)@, new_messages@),
    {
        self.user_input = owned("im change stream happend");
        self.update_messages(new_messages);
        let n = self.chat.chats.len();
        if n >= 10 && self.scroll_offset + 10 >= n - 2 {
            self.scroll_offset = n - 10;
        }
        self.redraw = true;
    }
}

// ---------------------------------------------------------------------------
// Laws of the client
// ---------------------------------------------------------------------------

/// No key press loses or changes a chat message: the chat before is a prefix
/// of the chat after. Key presses leave the messages shown, the mode, the
/// toggles, the exit flag and the online-users scroll alone, and change
/// nothing of the account but its current pattern. The chat is stored (once,
/// as a new document or an update) exactly on Enter with a `/c` input.
pub proof fn lemma_key_keeps_chat(
    old: AppState,
    key: KeyInput,
    date: String,
    time: String,
    term: u32,
    terms: Seq<i32>,
    rule: Seq<char>,
    new: AppState,
    a: Action,
)
    requires
        is_key_step(old, key, date, time, term, terms, rule, new, a),
    ensures
        key_keeps(old, key, new, a),
{
    if key == KeyInput::Enter && is_chat_command(old.input) {
        assert(new.chats.subrange(0, old.chats.len() as int) =~= new.chats.drop_last());
    } else {
        assert(new.chats.subrange(0, old.chats.len() as int) =~= new.chats);
    }
}

/// Backspace undoes typing a character into an input of fewer than 75
/// bytes.
pub proof fn lemma_backspace_undoes_typing(input: Seq<char>, c: char)
    requires
        utf8_len(input) < 75,
    ensures
        backspaced_input(typed_input(input, c)) == input,
{
    assert(input.push(c).drop_last() =~= input);
}

/// Scrolling up undoes a scroll down that moved the view.
pub proof fn lemma_scroll_round_trip(s: AppState)
    requires
        s.scroll_offset + 10 < s.chats.len(),
        s.scroll_offset + 10 <= usize::MAX,
    ensures
        scrolled_up(scrolled_down(s)) == s,
{
    let d = scrolled_down(s);
    assert(d.scroll_offset == s.scroll_offset + 1);
    assert(scrolled_up(d).scroll_offset == s.scroll_offset);
}

/// The input line stays within 114 bytes while the player types: up to 74
/// bytes a character of at most four bytes is added, from 75 bytes on the
/// twenty-byte warning, and from 95 bytes on it is cut to 75 bytes.
pub proof fn lemma_typing_keeps_input_bounded(input: Seq<char>, c: char)
    requires
        utf8_len(input) <= 114,
        utf8_len(input) >= 95 ==> is_boundary(input, 75),
    ensures
        utf8_len(typed_input(input, c)) <= 114,
{
    let n = utf8_len(input);
    if n < 75 {
        lemma_utf8_len_push(input, c);
    } else if n < 95 {
        let w = "(can not exceed 75 )"@;
        reveal_strlit("(can not exceed 75 )");
        lemma_utf8_len_ascii(w);
        lemma_utf8_len_concat(input, w);
    } else {
        lemma_byte_prefix_len(input, 75);
    }
}

/// A command never replaces an unsolved pattern: the player has to solve the
/// current one first.
pub proof fn lemma_unsolved_pattern_stays(s: AppState, term: u32, terms: Seq<i32>, rule: Seq<char>)
    requires
        !s.pattern.solved,
    ensures
        command_state(s, term, terms, rule).pattern == s.pattern,
{
}

/// A change of the stored chat shows the new messages, and moves the view
/// only when it is within two lines of the end of a chat of ten or more
/// messages: then to the last ten. A player reading older messages keeps
/// the place.
pub proof fn lemma_chat_change_keeps_place(s: AppState, messages: Seq<Message>)
    requires
        s.chats.len() <= usize::MAX,
    ensures
        chat_changed(s, messages).display_messages == messages,
        chat_changed(s, messages).chats == s.chats,
        s.chats.len() < 10 ==> chat_changed(s, messages).scroll_offset == s.scroll_offset,
        s.chats.len() >= 10 && s.scroll_offset + 12 < s.chats.len() ==> chat_changed(
            s,
            messages,
        ).scroll_offset == s.scroll_offset,
        s.chats.len() >= 10 && s.scroll_offset + 12 >= s.chats.len() ==> chat_changed(
            s,
            messages,
        ).scroll_offset + 10 == s.chats.len(),
{
}

} // verus!
