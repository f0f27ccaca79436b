use vstd::prelude::*;

use crate::models::{App, Level, LoginError, Message, Pattern, UserAccount};
use crate::text::{
    debug_i32_list, decimal_int, decimal_nat, list_body, owned, push_char, push_debug_i32_list,
    push_decimal_i32, push_decimal_u64, push_str,
};

verus! {

/// The name of a level, as `{:?}` prints it.
pub open spec fn level_name(l: Level) -> Seq<char> {
    match l {
        Level::Hard => "Hard"@,
        Level::Easy => "Easy"@,
        Level::Medium => "Medium"@,
        Level::Impossible => "Impossible"@,
    }
}

impl Level {
    /// The name of this level, as `{:?}` prints it.
    pub fn name(&self) -> (s: &'static str)
        ensures
            s@ == level_name(*self),
    {
        match self {
            Level::Hard => "Hard",
            Level::Easy => "Easy",
            Level::Medium => "Medium",
            Level::Impossible => "Impossible",
        }
    }
}

/// The text a pattern displays: its rule, its level and its terms, on three
/// lines.
pub open spec fn pattern_text(p: Pattern) -> Seq<char> {
    "general_rule:"@ + p.rule@ + "\nlevel:"@ + level_name(p.level) + "\npattern:"@
        + debug_i32_list(p.pattern@)
}

impl Pattern {
    /// The text this pattern displays:
    /// `general_rule:<rule>`, `level:<level>`, `pattern:[<terms>]` on three lines.
    pub fn to_display_string(&self) -> (s: String)
        ensures
            s@ == pattern_text(*self),
    {
        let mut s = owned("general_rule:");
        push_str(&mut s, self.rule.as_str());
        push_str(&mut s, "\nlevel:");
        push_str(&mut s, self.level.name());
        push_str(&mut s, "\npattern:");
        push_debug_i32_list(&mut s, &self.pattern);
        s
    }
}

/// The current-pattern line of the game menu lists every term of the
/// current pattern, in order: for no terms it is `Current Patterns :[]`, and
/// a pattern with one more term `x` gives the line of the shorter pattern
/// with `, x` (or just `x` for the first term) before the closing bracket.
/// The other lines do not depend on the terms.
pub proof fn lemma_menu_lists_every_term(a: App, b: App, amount: u64, x: i32)
    requires
        b.user_account.incomplete_pattern.pattern@ == a.user_account.incomplete_pattern.pattern@.push(x),
        b.user_account.incomplete_pattern.level == a.user_account.incomplete_pattern.level,
        b.user_account.rank == a.user_account.rank,
        b.user_account.patterns_solved@.len() == a.user_account.patterns_solved@.len(),
    ensures
        a.user_account.incomplete_pattern.pattern@.len() == 0 ==> game_menu_text(a, amount)[6]
            == "Current Patterns :"@ + seq!['[', ']'],
        game_menu_text(b, amount)[6] == game_menu_text(a, amount)[6].drop_last() + (if a.user_account.incomplete_pattern.pattern@.len() == 0 {
            Seq::<char>::empty()
        } else {
            seq![',', ' ']
        }) + decimal_int(x as int) + seq![']'],
        forall|i: int| 0 <= i < 10 && i != 6 ==> #[trigger] game_menu_text(b, amount)[i] == game_menu_text(a, amount)[i],
{
    let ta = a.user_account.incomplete_pattern.pattern@;
    let tb = b.user_account.incomplete_pattern.pattern@;
    assert(tb.drop_last() =~= ta);
    if ta.len() == 0 {
        assert(list_body(ta) =~= Seq::<char>::empty());
        assert(list_body(tb) == decimal_int(tb[0] as int));
    } else {
        assert(list_body(tb) == list_body(ta) + seq![',', ' '] + decimal_int(x as int));
    }
    assert(("Current Patterns :"@ + debug_i32_list(ta)).drop_last() =~= "Current Patterns :"@ + seq!['[']
        + list_body(ta));
    assert(game_menu_text(b, amount)[6] =~= game_menu_text(a, amount)[6].drop_last() + (if ta.len() == 0 {
        Seq::<char>::empty()
    } else {
        seq![',', ' ']
    }) + decimal_int(x as int) + seq![']']);
}

// ---------------------------------------------------------------------------
// The display text of an account
// ---------------------------------------------------------------------------

/// The text std's `{:?}` writes for a string: the string between double
/// quotes, with its special characters escaped.
pub uninterp spec fn debug_str(s: Seq<char>) -> Seq<char>;

/// Writes `s` with std's `{:?}` for `str`. The contract claims only that the
/// text is the one `debug_str` names for `s`; the escaping rules are std's.
#[verifier::external_body]
fn debug_text(s: &str) -> (r: String)
    ensures
        r@ == debug_str(s@),
{
    format!("{:?}", s)
}

/// `n` spaces.
pub open spec fn spaces(n: nat) -> Seq<char>
    decreases n,
{
    if n == 0 {
        seq![]
    } else {
        spaces((n - 1) as nat).push(' ')
    }
}

/// A field line of `{:#?}`: indented, `name: value,` and a line break.
pub open spec fn field_line(ind: nat, name: Seq<char>, value: Seq<char>) -> Seq<char> {
    spaces(ind) + name + ": "@ + value + ",\n"@
}

/// The text `{:?}` writes for a boolean.
pub open spec fn bool_text(b: bool) -> Seq<char> {
    if b {
        "true"@
    } else {
        "false"@
    }
}

/// The lines of the items of a list of `i32` under `{:#?}`, each at `ind`.
pub open spec fn pretty_i32_items(s: Seq<i32>, ind: nat) -> Seq<char>
    decreases s.len(),
{
    if s.len() == 0 {
        seq![]
    } else {
        pretty_i32_items(s.drop_last(), ind) + spaces(ind) + decimal_int(s.last() as int) + ",\n"@
    }
}

/// The text `{:#?}` writes for a list of `i32` that starts on a line
/// indented by `ind`.
pub open spec fn pretty_i32_list(s: Seq<i32>, ind: nat) -> Seq<char> {
    if s.len() == 0 {
        "[]"@
    } else {
        "[\n"@ + pretty_i32_items(s, ind + 4) + spaces(ind) + "]"@
    }
}

/// The text `{:#?}` writes for a pattern that starts on a line indented by
/// `ind`: one field per line, in declaration order.
pub open spec fn pretty_pattern(p: Pattern, ind: nat) -> Seq<char> {
    let f = ind + 4;
    "Pattern {\n"@ + field_line(f, "pattern"@, pretty_i32_list(p.pattern@, f)) + field_line(
        f,
        "level"@,
        level_name(p.level),
    ) + field_line(f, "time_taken"@, decimal_nat(p.time_taken as nat)) + field_line(
        f,
        "jeopardy"@,
        decimal_nat(p.jeopardy as nat),
    ) + field_line(f, "rule"@, debug_str(p.rule@)) + field_line(f, "solved"@, bool_text(p.solved))
        + field_line(f, "term_to_solve"@, decimal_nat(p.term_to_solve as nat)) + spaces(ind) + "}"@
}

/// The lines of the items of a list of patterns under `{:#?}`.
pub open spec fn pretty_pattern_items(s: Seq<Pattern>) -> Seq<char>
    decreases s.len(),
{
    if s.len() == 0 {
        seq![]
    } else {
        pretty_pattern_items(s.drop_last()) + spaces(4) + pretty_pattern(s.last(), 4) + ",\n"@
    }
}

/// The text `{:#?}` writes for a list of patterns.
pub open spec fn pretty_patterns(s: Seq<Pattern>) -> Seq<char> {
    if s.len() == 0 {
        "[]"@
    } else {
        "[\n"@ + pretty_pattern_items(s) + "]"@
    }
}

/// The text an account displays: name, password, rank, file path, current
/// pattern (as it displays) and the solved patterns (as `{:#?}` writes them).
pub open spec fn account_text(u: UserAccount) -> Seq<char> {
    "name : "@ + u.username@ + "\npassword:"@ + u.password@ + "\nrank:"@ + u.rank@ + "\nfile_path:"@
        + u.file_path@ + "\nincomplete_patter:"@ + pattern_text(u.incomplete_pattern)
        + "\npatterns_solved:"@ + pretty_patterns(u.patterns_solved@)
}

fn push_spaces(s: &mut String, n: usize)
    ensures
        final(s)@ == old(s)@ + spaces(n as nat),
{
    let mut i: usize = 0;
    while i < n
        invariant
            i <= n,
            s@ == old(s)@ + spaces(i as nat),
        decreases n - i,
    {
        push_char(s, ' ');
        i = i + 1;
        assert(s@ =~= old(s)@ + spaces(i as nat));
    }
}

fn push_field(s: &mut String, ind: usize, name: &str, value: &str)
    ensures
        final(s)@ == old(s)@ + field_line(ind as nat, name@, value@),
{
    push_spaces(s, ind);
    push_str(s, name);
    push_str(s, ": ");
    push_str(s, value);
    push_str(s, ",\n");
    assert(s@ =~= old(s)@ + field_line(ind as nat, name@, value@));
}

fn pretty_i32_list_string(v: &Vec<i32>, ind: usize) -> (r: String)
    requires
        ind <= 100,
    ensures
        r@ == pretty_i32_list(v@, ind as nat),
{
    if v.len() == 0 {
        return owned("[]");
    }
    let mut s = owned("[\n");
    let mut i: usize = 0;
    while i < v.len()
        invariant
            i <= v@.len(),
            ind <= 100,
            s@ == "[\n"@ + pretty_i32_items(v@.take(i as int), (ind + 4) as nat),
        decreases v.len() - i,
    {
        let ghost before = s@;
        push_spaces(&mut s, ind + 4);
        push_decimal_i32(&mut s, v[i]);
        push_str(&mut s, ",\n");
        assert(v@.take(i + 1).drop_last() =~= v@.take(i as int));
        i = i + 1;
        assert(s@ =~= "[\n"@ + pretty_i32_items(v@.take(i as int), (ind + 4) as nat));
    }
    push_spaces(&mut s, ind);
    push_str(&mut s, "]");
    assert(v@.take(v.len() as int) =~= v@);
    assert(s@ =~= pretty_i32_list(v@, ind as nat));
    s
}

fn decimal_string(n: u64) -> (r: String)
    ensures
        r@ == decimal_nat(n as nat),
{
    let mut s = String::new();
    push_decimal_u64(&mut s, n);
    s
}

fn pretty_pattern_string(p: &Pattern, ind: usize) -> (r: String)
    requires
        ind <= 96,
    ensures
        r@ == pretty_pattern(*p, ind as nat),
{
    let f = ind + 4;
    let mut s = owned("Pattern {\n");
    let terms = pretty_i32_list_string(&p.pattern, f);
    push_field(&mut s, f, "pattern", terms.as_str());
    push_field(&mut s, f, "level", p.level.name());
    let t = decimal_string(p.time_taken as u64);
    push_field(&mut s, f, "time_taken", t.as_str());
    let j = decimal_string(p.jeopardy as u64);
    push_field(&mut s, f, "jeopardy", j.as_str());
    let rule = debug_text(p.rule.as_str());
    push_field(&mut s, f, "rule", rule.as_str());
    let solved = if p.solved {
        "true"
    } else {
        "false"
    };
    push_field(&mut s, f, "solved", solved);
    let term = decimal_string(p.term_to_solve as u64);
    push_field(&mut s, f, "term_to_solve", term.as_str());
    push_spaces(&mut s, ind);
    push_str(&mut s, "}");
    assert(s@ =~= pretty_pattern(*p, ind as nat));
    s
}

fn pretty_patterns_string(v: &Vec<Pattern>) -> (r: String)
    ensures
        r@ == pretty_patterns(v@),
{
    if v.len() == 0 {
        return owned("[]");
    }
    let mut s = owned("[\n");
    let mut i: usize = 0;
    while i < v.len()
        invariant
            i <= v@.len(),
            s@ == "[\n"@ + pretty_pattern_items(v@.take(i as int)),
        decreases v.len() - i,
    {
        push_spaces(&mut s, 4);
        let item = pretty_pattern_string(&v[i], 4);
        push_str(&mut s, item.as_str());
        push_str(&mut s, ",\n");
        assert(v@.take(i + 1).drop_last() =~= v@.take(i as int));
        i = i + 1;
        assert(s@ =~= "[\n"@ + pretty_pattern_items(v@.take(i as int)));
    }
    push_str(&mut s, "]");
    assert(v@.take(v.len() as int) =~= v@);
    assert(s@ =~= pretty_patterns(v@));
    s
}

impl UserAccount {
    /// The text this account displays: `name : `, `password:`, `rank:`,
    /// `file_path:`, `incomplete_patter:` (the pattern's own text) and
    /// `patterns_solved:` (the solved patterns as `{:#?}` writes them), one
    /// after the other on separate lines.
    pub fn to_display_string(&self) -> (s: String)
        ensures
            s@ == account_text(*self),
    {
        let mut s = owned("name : ");
        push_str(&mut s, self.username.as_str());
        push_str(&mut s, "\npassword:");
        push_str(&mut s, self.password.as_str());
        push_str(&mut s, "\nrank:");
        push_str(&mut s, self.rank.as_str());
        push_str(&mut s, "\nfile_path:");
        push_str(&mut s, self.file_path.as_str());
        push_str(&mut s, "\nincomplete_patter:");
        let p = self.incomplete_pattern.to_display_string();
        push_str(&mut s, p.as_str());
        push_str(&mut s, "\npatterns_solved:");
        let solved = pretty_patterns_string(&self.patterns_solved);
        push_str(&mut s, solved.as_str());
        assert(s@ =~= account_text(*self));
        s
    }
}

/// The text a failed login displays.
pub open spec fn login_error_text(e: LoginError) -> Seq<char> {
    match e {
        LoginError::Message(m) => "Error Occured "@ + m@,
    }
}

impl LoginError {
    /// The text this error displays: `Error Occured <message>`.
    pub fn to_display_string(&self) -> (s: String)
        ensures
            s@ == login_error_text(*self),
    {
        match self {
            LoginError::Message(m) => {
                let mut s = owned("Error Occured ");
                push_str(&mut s, m.as_str());
                s
            },
        }
    }
}

/// The free disk space in the unit the game menu shows: whole GiB above
/// 1,111,741,824 bytes, whole MiB otherwise.
pub open spec fn disk_space_amount(avail: u64) -> u64 {
    if avail > 1_111_741_824 {
        (avail / 1_073_741_824) as u64
    } else {
        (avail / 1_048_576) as u64
    }
}

/// The free disk space in the unit the game menu shows.
pub fn disk_space_in_units(avail: u64) -> (n: u64)
    ensures
        n == disk_space_amount(avail),
{
    if avail > 1_111_741_824 {
        avail / 1_073_741_824
    } else {
        avail / 1_048_576
    }
}

/// The line of the game menu that shows the free disk space; the unit is
/// `GB` when the amount itself is above 1,111,741,824, `MB` otherwise.
pub open spec fn disk_line(amount: u64) -> Seq<char> {
    if amount > 1_111_741_824 {
        "Disk Space Available:"@ + decimal_nat(amount as nat) + " GB"@
    } else {
        "Disk Space Available:"@ + decimal_nat(amount as nat) + " MB"@
    }
}

/// The lines of the game menu: the four pattern generations on offer, the
/// player's rank, number of solved patterns, current pattern and its level,
/// an empty line, and the free disk space.
pub open spec fn game_menu_text(app: App, amount: u64) -> Seq<Seq<char>> {
    seq![
        "Gen-1(Easy Pattern)-350MB"@,
        "Gen-2(Medium Pattern)-750MB"@,
        "Gen-3(Hard Pattern)-1GB"@,
        " Gen-4(Impossible Pattern)-2GB"@,
        "Rank :"@ + app.user_account.rank@,
        "Solved Patterns :"@ + decimal_nat(app.user_account.patterns_solved@.len()),
        "Current Patterns :"@ + debug_i32_list(app.user_account.incomplete_pattern.pattern@),
        "Patterns Diff :"@ + level_name(app.user_account.incomplete_pattern.level),
        "\n"@,
        disk_line(amount),
    ]
}

/// The lines of the game menu for the given free disk space amount.
pub fn game_menu_lines(app: &App, amount: u64) -> (lines: Vec<String>)
    ensures
        lines@.len() == 10,
        forall|i: int| 0 <= i < 10 ==> #[trigger] lines@[i]@ == game_menu_text(*app, amount)[i],
{
    let mut lines: Vec<String> = Vec::new();
    lines.push(owned("Gen-1(Easy Pattern)-350MB"));
    lines.push(owned("Gen-2(Medium Pattern)-750MB"));
    lines.push(owned("Gen-3(Hard Pattern)-1GB"));
    lines.push(owned(" Gen-4(Impossible Pattern)-2GB"));
    let mut rank = owned("Rank :");
    push_str(&mut rank, app.user_account.rank.as_str());
    lines.push(rank);
    let mut solved = owned("Solved Patterns :");
    push_decimal_u64(&mut solved, app.user_account.patterns_solved.len() as u64);
    lines.push(solved);
    let mut current = owned("Current Patterns :");
    push_debug_i32_list(&mut current, &app.user_account.incomplete_pattern.pattern);
    lines.push(current);
    let mut diff = owned("Patterns Diff :");
    push_str(&mut diff, app.user_account.incomplete_pattern.level.name());
    lines.push(diff);
    lines.push(owned("\n"));
    let mut disk = owned("Disk Space Available:");
    push_decimal_u64(&mut disk, amount);
    if amount > 1_111_741_824 {
        push_str(&mut disk, " GB");
    } else {
        push_str(&mut disk, " MB");
    }
    lines.push(disk);
    lines
}

/// The messages the chat panel shows: up to fifteen, from the scroll offset on.
pub open spec fn visible_range(len: int, offset: int) -> (int, int) {
    let start = if offset < len {
        offset
    } else {
        len
    };
    let end = if start + 15 < len {
        start + 15
    } else {
        len
    };
    (start, end)
}

/// The messages the chat panel shows: up to fifteen, from the scroll offset on.
pub fn visible_messages(app: &App) -> (v: Vec<Message>)
    ensures
        v@ == app.display_messages@.subrange(
            visible_range(app.display_messages@.len() as int, app.scroll_offset as int).0,
            visible_range(app.display_messages@.len() as int, app.scroll_offset as int).1,
        ),
{
    let len = app.display_messages.len();
    let start = if app.scroll_offset < len {
        app.scroll_offset
    } else {
        len
    };
    let end = if len - start > 15 {
        start + 15
    } else {
        len
    };
    let mut v: Vec<Message> = Vec::new();
    let mut i = start;
    while i < end
        invariant
            start <= i <= end <= len,
            len == app.display_messages@.len(),
            v@ == app.display_messages@.subrange(start as int, i as int),
        decreases end - i,
    {
        v.push(app.display_messages[i].duplicate());
        i = i + 1;
        assert(v@ =~= app.display_messages@.subrange(start as int, i as int));
    }
    v
}

/// The text of a chat line: `[sender#time]content`.
pub open spec fn message_text(m: Message) -> Seq<char> {
    seq!['['] + m.sender@ + seq!['#'] + m.time@ + seq![']'] + m.content@
}

/// The text of the chat line of a message: `[sender#time]content`.
pub fn message_line(m: &Message) -> (s: String)
    ensures
        s@ == message_text(*m),
{
    let mut s = String::new();
    push_char(&mut s, '[');
    push_str(&mut s, m.sender.as_str());
    push_char(&mut s, '#');
    push_str(&mut s, m.time.as_str());
    push_char(&mut s, ']');
    push_str(&mut s, m.content.as_str());
    assert(s@ =~= message_text(*m));
    s
}

/// The index of the color of a sender's name among the twelve colors of the
/// chat, from the hash of the name taken as a `usize`.
pub fn color_index(hash: usize) -> (i: usize)
    ensures
        i == hash % 12,
{
    hash % 12
}

} // verus!
