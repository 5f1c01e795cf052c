//! What the portal asks for, as console commands: each command frame becomes a
//! script of RCON commands, which is run step by step and answered once.
use crate::refusal::{exec_refusal, refusal};
use crate::text::{all_digits, has_char, is_control, is_digit, is_space, same, to_chars, trim, trim_end, trim_start, trimmed};
use vstd::prelude::*;

verus! {

/// A JSON value, as far as the commands read it: `Other` stands for null, the
/// booleans and the numbers. The names of a record's fields are distinct.
#[derive(Debug)]
pub enum Json {
    Other,
    Text(String),
    List(Vec<Json>),
    Record(Vec<(String, Json)>),
}

/// A command frame of the portal.
#[derive(Debug)]
pub struct CommandFrame {
    pub id: String,
    pub cmd: String,
    pub args: Option<Json>,
}

/// The value of the first field called `key`.
pub open spec fn lookup(fields: Seq<(String, Json)>, key: Seq<char>) -> Option<Json>
    decreases fields.len(),
{
    if fields.len() == 0 {
        None
    } else if fields[0].0@ == key {
        Some(fields[0].1)
    } else {
        lookup(fields.drop_first(), key)
    }
}

/// The field of `value` called `key`, where `value` is a record that has one.
pub open spec fn field(value: Json, key: Seq<char>) -> Option<Json> {
    match value {
        Json::Record(fields) => lookup(fields@, key),
        _ => None,
    }
}

/// The text that `value` is, if it is one.
pub open spec fn as_text(value: Json) -> Option<Seq<char>> {
    match value {
        Json::Text(s) => Some(s@),
        _ => None,
    }
}

/// The text in the field of `value` called `key`.
pub open spec fn text_field(value: Json, key: Seq<char>) -> Option<Seq<char>> {
    match field(value, key) {
        Some(found) => as_text(found),
        None => None,
    }
}

/// The text in the field of `value` called `key`, or else `default`.
pub open spec fn text_field_or(value: Json, key: Seq<char>, default: Seq<char>) -> Seq<char> {
    match text_field(value, key) {
        Some(s) => s,
        None => default,
    }
}

/// The items of the list in the field of `value` called `key`; none where
/// there is no such list.
pub open spec fn list_field(value: Json, key: Seq<char>) -> Seq<Json> {
    match field(value, key) {
        Some(Json::List(items)) => items@,
        _ => Seq::empty(),
    }
}

impl Json {
    /// The field called `key`, where this is a record that has one.
    pub fn field(&self, key: &str) -> (found: Option<&Json>)
        ensures
            match found {
                Some(value) => field(*self, key@) == Some(*value),
                None => field(*self, key@) is None,
            },
    {
        match self {
            Json::Record(fields) => {
                let mut i: usize = 0;
                assert(fields@.skip(0) == fields@);
                while i < fields.len()
                    invariant
                        i <= fields@.len(),
                        lookup(fields@.skip(i as int), key@) == field(*self, key@),
                    decreases fields@.len() - i,
                {
                    assert(fields@.skip(i as int)[0] == fields@[i as int]);
                    if same(fields[i].0.as_str(), key) {
                        return Some(&fields[i].1);
                    }
                    assert(fields@.skip(i as int).drop_first() == fields@.skip(i + 1));
                    i = i + 1;
                }
                None
            },
            _ => None,
        }
    }

    /// The text that this is, if it is one.
    pub fn as_text(&self) -> (found: Option<&str>)
        ensures
            match found {
                Some(s) => as_text(*self) == Some(s@),
                None => as_text(*self) is None,
            },
    {
        match self {
            Json::Text(s) => Some(s.as_str()),
            _ => None,
        }
    }

    /// The text in the field called `key`.
    pub fn text_field(&self, key: &str) -> (found: Option<&str>)
        ensures
            match found {
                Some(s) => text_field(*self, key@) == Some(s@),
                None => text_field(*self, key@) is None,
            },
    {
        match self.field(key) {
            Some(value) => value.as_text(),
            None => None,
        }
    }

    /// The text in the field called `key`, or else `default`.
    pub fn text_field_or<'a>(&'a self, key: &str, default: &'a str) -> (s: &'a str)
        ensures
            s@ == text_field_or(*self, key@, default@),
    {
        match self.text_field(key) {
            Some(s) => s,
            None => default,
        }
    }
}

/// Tells whether `arg` can stand between quotes on the console.
pub open spec fn quotable(arg: Seq<char>) -> bool {
    !arg.contains('"') && !arg.contains('\n') && !arg.contains(';')
}

/// `arg` between quotes.
pub open spec fn quoted(arg: Seq<char>) -> Seq<char> {
    seq!['"'] + arg + seq!['"']
}

/// Quotes an argument for the console, and refuses one that could break out of
/// the quoting: the portal only ever sends URLs and header values, so that
/// embedded quotes, newlines and semicolons are treated as attacks.
pub fn console_quote(arg: &str) -> (r: Result<String, String>)
    ensures
        match r {
            Ok(s) => quotable(arg@) && s@ == quoted(arg@),
            Err(e) => !quotable(arg@) && e@ == "argument contains console metacharacters"@,
        },
{
    if has_char(arg, '"') || has_char(arg, '\n') || has_char(arg, ';') {
        return Err("argument contains console metacharacters".to_owned());
    }
    let mut s = String::new();
    s.push('"');
    s.append(arg);
    s.push('"');
    assert(s@ == quoted(arg@));
    Ok(s)
}

/// One step of a script: a console command to run, or the error that ends it.
pub enum Step {
    Run(String),
    Fail(String),
}

/// What a step holds.
pub enum StepView {
    Run(Seq<char>),
    Fail(Seq<char>),
}

impl View for Step {
    type V = StepView;

    open spec fn view(&self) -> StepView {
        match self {
            Step::Run(command) => StepView::Run(command@),
            Step::Fail(error) => StepView::Fail(error@),
        }
    }
}

/// What the steps of a list hold.
pub open spec fn step_views(steps: Seq<Step>) -> Seq<StepView> {
    Seq::new(steps.len(), |i: int| steps[i]@)
}

/// The steps of a command that hands MatchZy a URL, with the header to fetch
/// it with where a header is named.
pub open spec fn url_step(cmd: Seq<char>, console_verb: Seq<char>, args: Option<Json>) -> StepView {
    match args {
        None => StepView::Fail(cmd + " requires args"@),
        Some(args) => match text_field(args, "url"@) {
            None => StepView::Fail("missing url"@),
            Some(url) => {
                let name = text_field_or(args, "header_name"@, ""@);
                let value = text_field_or(args, "header_value"@, ""@);
                if !quotable(url) || (name.len() > 0 && !(quotable(name) && quotable(value))) {
                    StepView::Fail("argument contains console metacharacters"@)
                } else if name.len() == 0 {
                    StepView::Run(console_verb + " "@ + quoted(url))
                } else {
                    StepView::Run(
                        console_verb + " "@ + quoted(url) + " "@ + quoted(name) + " "@ + quoted(
                            value,
                        ),
                    )
                }
            },
        },
    }
}

/// Tells whether `s` has digits only.
pub open spec fn digits_only(s: Seq<char>) -> bool {
    forall|i: int| 0 <= i < s.len() ==> is_digit(#[trigger] s[i])
}

/// The step that takes one listed player off the roster.
pub open spec fn remove_step(entry: Json) -> StepView {
    match as_text(entry) {
        None => StepView::Fail("remove entries are steamid64 strings"@),
        Some(steam) => if digits_only(steam) {
            StepView::Run("matchzy_removeplayer "@ + steam)
        } else {
            StepView::Fail("invalid steamid64 in remove list"@)
        },
    }
}

/// The team that a roster entry names; the first one where it names none of
/// the others.
pub open spec fn team_of(name: Seq<char>) -> Seq<char> {
    if name == "team2"@ {
        "team2"@
    } else if name == "spec"@ {
        "spec"@
    } else {
        "team1"@
    }
}

/// Tells whether a display name may keep the character `c`.
pub open spec fn name_char(c: char) -> bool {
    c != '"' && c != ';' && c != '\n' && c != '\r'
}

/// A display name as it is put between quotes: without the characters that
/// could break out of them and without white space at the ends, and never
/// empty.
pub open spec fn display_name(raw: Seq<char>) -> Seq<char> {
    let name = trim(raw.filter(|c: char| name_char(c)));
    if name.len() == 0 {
        "player"@
    } else {
        name
    }
}

/// The step that puts one listed player on the roster.
pub open spec fn add_step(entry: Json) -> StepView {
    match text_field(entry, "steamid64"@) {
        None => StepView::Fail("add entries need steamid64"@),
        Some(steam) => if digits_only(steam) {
            StepView::Run(
                "matchzy_addplayer "@ + steam + " "@ + team_of(
                    text_field_or(entry, "team"@, "team1"@),
                ) + " "@ + quoted(display_name(text_field_or(entry, "name"@, "player"@))),
            )
        } else {
            StepView::Fail("invalid steamid64 in add list"@)
        },
    }
}

/// The steps of a roster edit: the removals come first, so that the listed
/// count never exceeds the players per team.
pub open spec fn roster_script(args: Option<Json>) -> Seq<StepView> {
    match args {
        None => seq![StepView::Fail("roster_edit requires args"@)],
        Some(args) => {
            let remove = list_field(args, "remove"@);
            let add = list_field(args, "add"@);
            Seq::new(remove.len(), |i: int| remove_step(remove[i])) + Seq::new(
                add.len(),
                |i: int| add_step(add[i]),
            )
        },
    }
}

/// The step of a raw console command.
pub open spec fn exec_step(args: Option<Json>) -> StepView {
    match args {
        None => StepView::Fail("exec requires args"@),
        Some(args) => match text_field(args, "command"@) {
            None => StepView::Fail("missing command"@),
            Some(command) => match refusal(command) {
                Some(reason) => StepView::Fail("refused: "@ + reason),
                None => StepView::Run(command),
            },
        },
    }
}

/// The script of a command frame.
pub open spec fn script(cmd: Seq<char>, args: Option<Json>) -> Seq<StepView> {
    if cmd == "load_match"@ {
        seq![url_step(cmd, "matchzy_loadmatch_url"@, args)]
    } else if cmd == "end_match"@ {
        seq![StepView::Run("css_endmatch"@)]
    } else if cmd == "status"@ {
        seq![StepView::Run("get5_status"@)]
    } else if cmd == "load_backup"@ {
        seq![url_step(cmd, "matchzy_loadbackup_url"@, args)]
    } else if cmd == "roster_edit"@ {
        roster_script(args)
    } else if cmd == "exec"@ {
        seq![exec_step(args)]
    } else {
        seq![StepView::Fail("unknown command: "@ + cmd)]
    }
}

/// The step of a command that hands MatchZy a URL.
fn url_command(cmd: &str, console_verb: &str, args: &Option<Json>) -> (step: Step)
    ensures
        step@ == url_step(cmd@, console_verb@, *args),
{
    let args = match args {
        Some(args) => args,
        None => {
            let mut e = cmd.to_owned();
            e.append(" requires args");
            return Step::Fail(e);
        },
    };
    let url = match args.text_field("url") {
        Some(url) => url,
        None => return Step::Fail("missing url".to_owned()),
    };
    let name = args.text_field_or("header_name", "");
    let value = args.text_field_or("header_value", "");
    let mut command = console_verb.to_owned();
    command.append(" ");
    match console_quote(url) {
        Ok(q) => command.append(q.as_str()),
        Err(e) => return Step::Fail(e),
    }
    if name.is_empty() {
        return Step::Run(command);
    }
    command.append(" ");
    match console_quote(name) {
        Ok(q) => command.append(q.as_str()),
        Err(e) => return Step::Fail(e),
    }
    command.append(" ");
    match console_quote(value) {
        Ok(q) => command.append(q.as_str()),
        Err(e) => return Step::Fail(e),
    }
    Step::Run(command)
}

/// The step that takes one listed player off the roster.
fn remove_player(entry: &Json) -> (step: Step)
    ensures
        step@ == remove_step(*entry),
{
    match entry.as_text() {
        None => Step::Fail("remove entries are steamid64 strings".to_owned()),
        Some(steam) => {
            if !all_digits(steam) {
                return Step::Fail("invalid steamid64 in remove list".to_owned());
            }
            let mut command = "matchzy_removeplayer ".to_owned();
            command.append(steam);
            Step::Run(command)
        },
    }
}

/// A display name as it is put between quotes.
pub fn sanitize_name(raw: &str) -> (name: String)
    ensures
        name@ == display_name(raw@),
{
    let v = to_chars(raw);
    let mut kept = String::new();
    let mut i: usize = 0;
    let ghost keep = |c: char| name_char(c);
    assert(v@.take(0).filter(keep) == Seq::<char>::empty()) by {
        reveal(Seq::filter);
    }
    while i < v.len()
        invariant
            i <= v@.len(),
            keep == (|c: char| name_char(c)),
            kept@ == v@.take(i as int).filter(keep),
        decreases v@.len() - i,
    {
        let c = v[i];
        assert(v@.take(i + 1).drop_last() == v@.take(i as int));
        assert(v@.take(i + 1).filter(keep) == if keep(c) {
            v@.take(i as int).filter(keep).push(c)
        } else {
            v@.take(i as int).filter(keep)
        }) by {
            reveal(Seq::filter);
        }
        if c != '"' && c != ';' && c != '\n' && c != '\r' {
            kept.push(c);
        }
        i = i + 1;
    }
    assert(v@.take(i as int) == raw@);
    let name = trimmed(kept.as_str());
    if name.as_str().is_empty() {
        "player".to_owned()
    } else {
        name
    }
}

/// The step that puts one listed player on the roster.
fn add_player(entry: &Json) -> (step: Step)
    ensures
        step@ == add_step(*entry),
{
    let steam = match entry.text_field("steamid64") {
        Some(steam) => steam,
        None => return Step::Fail("add entries need steamid64".to_owned()),
    };
    if !all_digits(steam) {
        return Step::Fail("invalid steamid64 in add list".to_owned());
    }
    let team_name = entry.text_field_or("team", "team1");
    let team = if same(team_name, "team2") {
        "team2"
    } else if same(team_name, "spec") {
        "spec"
    } else {
        "team1"
    };
    let name = sanitize_name(entry.text_field_or("name", "player"));
    let mut command = "matchzy_addplayer ".to_owned();
    command.append(steam);
    command.append(" ");
    command.append(team);
    command.append(" ");
    let mut q = String::new();
    q.push('"');
    q.append(name.as_str());
    q.push('"');
    assert(q@ == quoted(name@));
    command.append(q.as_str());
    Step::Run(command)
}

/// The steps of a roster edit.
fn roster_steps(args: &Option<Json>) -> (steps: Vec<Step>)
    ensures
        step_views(steps@) == roster_script(*args),
{
    let mut steps: Vec<Step> = Vec::new();
    let args = match args {
        Some(args) => args,
        None => {
            steps.push(Step::Fail("roster_edit requires args".to_owned()));
            return steps;
        },
    };
    let ghost remove = list_field(*args, "remove"@);
    let ghost add = list_field(*args, "add"@);
    let ghost removals = Seq::new(remove.len(), |i: int| remove_step(remove[i]));
    let ghost additions = Seq::new(add.len(), |i: int| add_step(add[i]));
    assert(step_views(steps@) == removals.take(0));
    if let Some(Json::List(items)) = args.field("remove") {
        let mut i: usize = 0;
        while i < items.len()
            invariant
                i <= items@.len(),
                items@ == remove,
                removals == Seq::new(remove.len(), |i: int| remove_step(remove[i])),
                step_views(steps@) == removals.take(i as int),
            decreases items@.len() - i,
        {
            let ghost before = steps@;
            let step = remove_player(&items[i]);
            steps.push(step);
            assert(step_views(steps@) == step_views(before).push(step@));
            assert(removals.take(i + 1) == removals.take(i as int).push(removals[i as int]));
            i = i + 1;
        }
    }
    assert(step_views(steps@) == removals);
    assert(step_views(steps@) == removals + additions.take(0));
    if let Some(Json::List(items)) = args.field("add") {
        let mut i: usize = 0;
        while i < items.len()
            invariant
                i <= items@.len(),
                items@ == add,
                additions == Seq::new(add.len(), |i: int| add_step(add[i])),
                step_views(steps@) == removals + additions.take(i as int),
            decreases items@.len() - i,
        {
            let ghost before = steps@;
            let step = add_player(&items[i]);
            steps.push(step);
            assert(step_views(steps@) == step_views(before).push(step@));
            assert(additions.take(i + 1) == additions.take(i as int).push(additions[i as int]));
            assert((removals + additions.take(i as int)).push(additions[i as int]) == removals
                + additions.take(i + 1));
            i = i + 1;
        }
    }
    assert(step_views(steps@) == removals + additions);
    steps
}

/// The step of a raw console command.
fn exec_command(args: &Option<Json>) -> (step: Step)
    ensures
        step@ == exec_step(*args),
{
    match args {
        None => Step::Fail("exec requires args".to_owned()),
        Some(args) => match args.text_field("command") {
            None => Step::Fail("missing command".to_owned()),
            Some(command) => match exec_refusal(command) {
                Some(reason) => {
                    let mut e = "refused: ".to_owned();
                    e.append(reason.as_str());
                    Step::Fail(e)
                },
                None => Step::Run(command.to_owned()),
            },
        },
    }
}

/// A script of one step.
fn single(step: Step) -> (steps: Vec<Step>)
    ensures
        step_views(steps@) == seq![step@],
{
    let mut steps: Vec<Step> = Vec::new();
    steps.push(step);
    assert(step_views(steps@) == seq![step@]);
    steps
}

/// The script of a command frame: which console commands it stands for, in
/// which order, and where it fails.
pub fn command_script(frame: &CommandFrame) -> (steps: Vec<Step>)
    ensures
        step_views(steps@) == script(frame.cmd@, frame.args),
{
    let cmd = frame.cmd.as_str();
    if same(cmd, "load_match") {
        single(url_command(cmd, "matchzy_loadmatch_url", &frame.args))
    } else if same(cmd, "end_match") {
        single(Step::Run("css_endmatch".to_owned()))
    } else if same(cmd, "status") {
        single(Step::Run("get5_status".to_owned()))
    } else if same(cmd, "load_backup") {
        single(url_command(cmd, "matchzy_loadbackup_url", &frame.args))
    } else if same(cmd, "roster_edit") {
        roster_steps(&frame.args)
    } else if same(cmd, "exec") {
        single(exec_command(&frame.args))
    } else {
        let mut e = "unknown command: ".to_owned();
        e.append(cmd);
        single(Step::Fail(e))
    }
}

/// Tells whether `s` holds neither of the characters that separate console
/// commands.
pub open spec fn one_command(s: Seq<char>) -> bool {
    !s.contains(';') && !s.contains('\n')
}

proof fn lemma_one_command_concat(a: Seq<char>, b: Seq<char>)
    requires
        one_command(a),
        one_command(b),
    ensures
        one_command(a + b),
{
    assert forall|i: int| 0 <= i < (a + b).len() implies (#[trigger] (a + b)[i]) != ';' && (a
        + b)[i] != '\n' by {
        if i < a.len() {
            assert(a.contains(a[i]));
        } else {
            assert(b.contains(b[i - a.len()]));
        }
    }
}

proof fn lemma_one_command_quoted(arg: Seq<char>)
    requires
        one_command(arg),
    ensures
        one_command(quoted(arg)),
{
    assert(one_command(seq!['"']));
    lemma_one_command_concat(seq!['"'], arg);
    lemma_one_command_concat(seq!['"'] + arg, seq!['"']);
}

proof fn lemma_one_command_literals()
    ensures
        one_command(" "@),
        one_command("matchzy_loadmatch_url"@),
        one_command("matchzy_loadbackup_url"@),
        one_command("css_endmatch"@),
        one_command("get5_status"@),
        one_command("matchzy_removeplayer "@),
        one_command("matchzy_addplayer "@),
        one_command("team1"@),
        one_command("team2"@),
        one_command("spec"@),
        one_command("player"@),
{
    reveal_strlit(" ");
    reveal_strlit("matchzy_loadmatch_url");
    reveal_strlit("matchzy_loadbackup_url");
    reveal_strlit("css_endmatch");
    reveal_strlit("get5_status");
    reveal_strlit("matchzy_removeplayer ");
    reveal_strlit("matchzy_addplayer ");
    reveal_strlit("team1");
    reveal_strlit("team2");
    reveal_strlit("spec");
    reveal_strlit("player");
}

/// The characters of a trimmed text are characters of the text.
proof fn lemma_trim_contains(s: Seq<char>, c: char)
    ensures
        trim(s).contains(c) ==> s.contains(c),
{
    lemma_trim_start_contains(s, c);
    lemma_trim_end_contains(trim_start(s), c);
}

proof fn lemma_trim_start_contains(s: Seq<char>, c: char)
    ensures
        trim_start(s).contains(c) ==> s.contains(c),
    decreases s.len(),
{
    if s.len() > 0 && is_space(s.first()) {
        lemma_trim_start_contains(s.drop_first(), c);
        if s.drop_first().contains(c) {
            let i = choose|i: int| 0 <= i < s.drop_first().len() && s.drop_first()[i] == c;
            assert(s[i + 1] == c);
        }
    }
}

proof fn lemma_trim_end_contains(s: Seq<char>, c: char)
    ensures
        trim_end(s).contains(c) ==> s.contains(c),
    decreases s.len(),
{
    if s.len() > 0 && is_space(s.last()) {
        lemma_trim_end_contains(s.drop_last(), c);
        if s.drop_last().contains(c) {
            let i = choose|i: int| 0 <= i < s.drop_last().len() && s.drop_last()[i] == c;
            assert(s[i] == c);
        }
    }
}

/// A trimmed text has no white space at either end.
proof fn lemma_trim_ends(s: Seq<char>)
    ensures
        trim(s).len() > 0 ==> !is_space(trim(s).first()) && !is_space(trim(s).last()),
{
    lemma_trim_start_first(s);
    lemma_trim_end_ends(trim_start(s));
}

proof fn lemma_trim_start_first(s: Seq<char>)
    ensures
        trim_start(s).len() > 0 ==> !is_space(trim_start(s).first()),
    decreases s.len(),
{
    if s.len() > 0 && is_space(s.first()) {
        lemma_trim_start_first(s.drop_first());
    }
}

proof fn lemma_trim_end_ends(s: Seq<char>)
    ensures
        trim_end(s).len() > 0 ==> !is_space(trim_end(s).last()) && trim_end(s).first() == s.first(),
    decreases s.len(),
{
    if s.len() > 0 && is_space(s.last()) {
        lemma_trim_end_ends(s.drop_last());
    }
}

/// A display name between quotes is never empty, holds none of the characters
/// that could break out of the quotes, and has no white space at its ends.
pub proof fn law_display_name_is_safe(raw: Seq<char>)
    ensures
        display_name(raw).len() > 0,
        forall|i: int|
            0 <= i < display_name(raw).len() ==> name_char(#[trigger] display_name(raw)[i]),
        !is_space(display_name(raw).first()),
        !is_space(display_name(raw).last()),
{
    reveal_strlit("player");
    let keep = |c: char| name_char(c);
    let kept = raw.filter(keep);
    lemma_trim_ends(kept);
    let name = display_name(raw);
    assert forall|i: int| 0 <= i < name.len() implies name_char(#[trigger] name[i]) by {
        if trim(kept).len() > 0 {
            lemma_trim_contains(kept, name[i]);
            assert(trim(kept).contains(name[i]));
            let j = choose|j: int| 0 <= j < kept.len() && kept[j] == name[i];
            raw.lemma_filter_pred(keep, j);
        }
    }
}

/// A name that has nothing to take out is kept as it is.
pub proof fn law_plain_names_are_kept(raw: Seq<char>)
    requires
        raw.len() > 0,
        forall|i: int| 0 <= i < raw.len() ==> name_char(#[trigger] raw[i]),
        !is_space(raw.first()),
        !is_space(raw.last()),
    ensures
        display_name(raw) == raw,
{
    let keep = |c: char| name_char(c);
    lemma_filter_all(raw, keep);
}

proof fn lemma_filter_all(s: Seq<char>, keep: spec_fn(char) -> bool)
    requires
        forall|i: int| 0 <= i < s.len() ==> keep(#[trigger] s[i]),
    ensures
        s.filter(keep) == s,
    decreases s.len(),
{
    reveal(Seq::filter);
    if s.len() > 0 {
        assert forall|i: int| 0 <= i < s.drop_last().len() implies keep(
            #[trigger] s.drop_last()[i],
        ) by {
            assert(s.drop_last()[i] == s[i]);
        }
        lemma_filter_all(s.drop_last(), keep);
        assert(s.drop_last().push(s.last()) == s);
    }
}

/// Whatever a frame asks for, each command that its script runs is a single
/// console command: no semicolon and no newline in it.
pub proof fn law_every_command_is_single(cmd: Seq<char>, args: Option<Json>, i: int)
    requires
        0 <= i < script(cmd, args).len(),
    ensures
        script(cmd, args)[i] matches StepView::Run(command) ==> one_command(command),
{
    lemma_one_command_literals();
    if cmd == "load_match"@ {
        lemma_url_step_is_single(cmd, "matchzy_loadmatch_url"@, args);
    } else if cmd == "load_backup"@ {
        lemma_url_step_is_single(cmd, "matchzy_loadbackup_url"@, args);
    } else if cmd == "roster_edit"@ {
        if let Some(a) = args {
            let remove = list_field(a, "remove"@);
            let add = list_field(a, "add"@);
            if i < remove.len() {
                lemma_remove_step_is_single(remove[i]);
            } else {
                lemma_add_step_is_single(add[i - remove.len()]);
            }
        }
    } else if cmd == "exec"@ {
        if let Some(a) = args {
            if let Some(command) = text_field(a, "command"@) {
                if refusal(command) is None && command.contains('\n') {
                    let j = choose|j: int| 0 <= j < command.len() && command[j] == '\n';
                    assert(is_control(command[j]));
                }
            }
        }
    }
}

proof fn lemma_url_step_is_single(cmd: Seq<char>, console_verb: Seq<char>, args: Option<Json>)
    requires
        one_command(console_verb),
    ensures
        url_step(cmd, console_verb, args) matches StepView::Run(command) ==> one_command(command),
{
    lemma_one_command_literals();
    if let Some(a) = args {
        if let Some(url) = text_field(a, "url"@) {
            let name = text_field_or(a, "header_name"@, ""@);
            let value = text_field_or(a, "header_value"@, ""@);
            if quotable(url) {
                lemma_one_command_quoted(url);
                let c1 = console_verb + " "@;
                let c2 = c1 + quoted(url);
                lemma_one_command_concat(console_verb, " "@);
                lemma_one_command_concat(c1, quoted(url));
                if quotable(name) && quotable(value) {
                    lemma_one_command_quoted(name);
                    lemma_one_command_quoted(value);
                    lemma_one_command_concat(c2, " "@);
                    lemma_one_command_concat(c2 + " "@, quoted(name));
                    lemma_one_command_concat(c2 + " "@ + quoted(name), " "@);
                    lemma_one_command_concat(c2 + " "@ + quoted(name) + " "@, quoted(value));
                }
            }
        }
    }
}

proof fn lemma_digits_are_single(s: Seq<char>)
    requires
        digits_only(s),
    ensures
        one_command(s),
{
    assert forall|i: int| 0 <= i < s.len() implies (#[trigger] s[i]) != ';' && s[i] != '\n' by {
        assert(is_digit(s[i]));
    }
}

proof fn lemma_remove_step_is_single(entry: Json)
    ensures
        remove_step(entry) matches StepView::Run(command) ==> one_command(command),
{
    lemma_one_command_literals();
    if let Some(steam) = as_text(entry) {
        if digits_only(steam) {
            lemma_digits_are_single(steam);
            lemma_one_command_concat("matchzy_removeplayer "@, steam);
        }
    }
}

proof fn lemma_add_step_is_single(entry: Json)
    ensures
        add_step(entry) matches StepView::Run(command) ==> one_command(command),
{
    lemma_one_command_literals();
    if let Some(steam) = text_field(entry, "steamid64"@) {
        if digits_only(steam) {
            let team = team_of(text_field_or(entry, "team"@, "team1"@));
            let name = display_name(text_field_or(entry, "name"@, "player"@));
            law_display_name_is_safe(text_field_or(entry, "name"@, "player"@));
            assert(one_command(name));
            lemma_one_command_quoted(name);
            lemma_digits_are_single(steam);
            let c1 = "matchzy_addplayer "@ + steam;
            lemma_one_command_concat("matchzy_addplayer "@, steam);
            lemma_one_command_concat(c1, " "@);
            lemma_one_command_concat(c1 + " "@, team);
            lemma_one_command_concat(c1 + " "@ + team, " "@);
            lemma_one_command_concat(c1 + " "@ + team + " "@, quoted(name));
        }
    }
}

/// A display name never keeps a player off the roster: an addition fails only
/// over the player's steamid64.
pub proof fn law_names_never_fail_an_addition(entry: Json)
    ensures
        add_step(entry) is Run <==> (text_field(entry, "steamid64"@) matches Some(steam)
            && digits_only(steam)),
{
}

/// The only quotes in a quoted argument are the two around it.
pub proof fn law_quotes_only_at_the_ends(arg: Seq<char>, i: int)
    requires
        quotable(arg),
        0 <= i < quoted(arg).len(),
    ensures
        quoted(arg)[i] == '"' <==> i == 0 || i == quoted(arg).len() - 1,
{
    if 0 < i < quoted(arg).len() - 1 {
        assert(quoted(arg)[i] == arg[i - 1]);
        assert(arg.contains(arg[i - 1]));
    }
}

/// In a roster edit every removal comes before every addition.
pub proof fn law_removals_come_first(args: Json)
    ensures
        ({
            let steps = roster_script(Some(args));
            let removals = list_field(args, "remove"@).len();
            &&& steps.len() == removals + list_field(args, "add"@).len()
            &&& forall|i: int|
                0 <= i < removals ==> (#[trigger] steps[i] matches StepView::Run(command)
                    ==> "matchzy_removeplayer "@.is_prefix_of(command))
            &&& forall|i: int|
                removals <= i < steps.len() ==> (#[trigger] steps[i] matches StepView::Run(command)
                    ==> "matchzy_addplayer "@.is_prefix_of(command))
        }),
{
    let steps = roster_script(Some(args));
    let remove = list_field(args, "remove"@);
    let add = list_field(args, "add"@);
    assert forall|i: int| 0 <= i < remove.len() implies (#[trigger] steps[i] matches StepView::Run(
        command,
    ) ==> "matchzy_removeplayer "@.is_prefix_of(command)) by {
        assert(steps[i] == remove_step(remove[i]));
        if let StepView::Run(command) = steps[i] {
            let head = "matchzy_removeplayer "@;
            assert(command.take(head.len() as int) == head);
        }
    }
    assert forall|i: int| remove.len() <= i < steps.len() implies (
    #[trigger] steps[i] matches StepView::Run(command) ==> "matchzy_addplayer "@.is_prefix_of(
        command,
    )) by {
        assert(steps[i] == add_step(add[i - remove.len()]));
        if let StepView::Run(command) = steps[i] {
            let head = "matchzy_addplayer "@;
            assert(command.take(head.len() as int) == head);
        }
    }
}

/// A raw command that is refused is never run: its script is the refusal. One
/// that is not refused is run as it stands.
pub proof fn law_refused_commands_are_not_run(args: Json, command: Seq<char>)
    requires
        text_field(args, "command"@) == Some(command),
    ensures
        refusal(command) matches Some(reason) ==> script("exec"@, Some(args)) == seq![
            StepView::Fail("refused: "@ + reason),
        ],
        refusal(command) is None ==> script("exec"@, Some(args)) == seq![StepView::Run(command)],
{
    reveal_strlit("load_match");
    reveal_strlit("end_match");
    reveal_strlit("status");
    reveal_strlit("load_backup");
    reveal_strlit("roster_edit");
    reveal_strlit("exec");
    assert("exec"@.len() == 4);
    assert("load_match"@.len() == 10 && "end_match"@.len() == 9 && "status"@.len() == 6
        && "load_backup"@.len() == 11 && "roster_edit"@.len() == 11);
}

/// The field of a record is the first one of that name; a record without one
/// has none, and neither has a value that is no record.
pub proof fn law_fields_are_found_by_name(
    value: Json,
    fields: Vec<(String, Json)>,
    key: Seq<char>,
    i: int,
)
    requires
        value == Json::Record(fields),
        0 <= i <= fields@.len(),
        forall|j: int| 0 <= j < i ==> (#[trigger] fields@[j]).0@ != key,
    ensures
        i < fields@.len() && fields@[i].0@ == key ==> field(value, key) == Some(fields@[i].1),
        i == fields@.len() ==> field(value, key) is None,
        field(Json::Other, key) is None,
{
    lemma_lookup_skips(fields@, key, i);
}

proof fn lemma_lookup_skips(fields: Seq<(String, Json)>, key: Seq<char>, i: int)
    requires
        0 <= i <= fields.len(),
        forall|j: int| 0 <= j < i ==> (#[trigger] fields[j]).0@ != key,
    ensures
        lookup(fields, key) == lookup(fields.skip(i), key),
    decreases i,
{
    if i == 0 {
        assert(fields.skip(0) == fields);
    } else {
        assert(fields[0].0@ != key);
        assert forall|j: int| 0 <= j < i - 1 implies (#[trigger] fields.drop_first()[j]).0@
            != key by {
            assert(fields.drop_first()[j] == fields[j + 1]);
        }
        lemma_lookup_skips(fields.drop_first(), key, i - 1);
        assert(fields.drop_first().skip(i - 1) == fields.skip(i));
    }
}

/// A text field is there exactly where the field of that name is a text, and a
/// list field has the items of the list of that name.
pub proof fn law_fields_are_read_by_kind(value: Json, key: Seq<char>, default: Seq<char>)
    ensures
        field(value, key) matches Some(Json::Text(s)) ==> text_field(value, key) == Some(s@)
            && text_field_or(value, key, default) == s@,
        !(field(value, key) matches Some(Json::Text(_))) ==> text_field(value, key) is None
            && text_field_or(value, key, default) == default,
        field(value, key) matches Some(Json::List(items)) ==> list_field(value, key) == items@,
        !(field(value, key) matches Some(Json::List(_))) ==> list_field(value, key).len() == 0,
        value matches Json::Text(s) ==> as_text(value) == Some(s@),
        !(value matches Json::Text(_)) ==> as_text(value) is None,
        value matches Json::Text(_) ==> field(value, key) is None,
        value matches Json::List(_) ==> field(value, key) is None,
{
}

proof fn lemma_commands_are_distinct()
    ensures
        "load_match"@ != "end_match"@,
        "load_match"@ != "status"@,
        "load_match"@ != "load_backup"@,
        "load_match"@ != "roster_edit"@,
        "load_match"@ != "exec"@,
        "end_match"@ != "status"@,
        "end_match"@ != "load_backup"@,
        "end_match"@ != "roster_edit"@,
        "end_match"@ != "exec"@,
        "status"@ != "load_backup"@,
        "status"@ != "roster_edit"@,
        "status"@ != "exec"@,
        "load_backup"@ != "roster_edit"@,
        "load_backup"@ != "exec"@,
        "roster_edit"@ != "exec"@,
{
    reveal_strlit("load_match");
    reveal_strlit("end_match");
    reveal_strlit("status");
    reveal_strlit("load_backup");
    reveal_strlit("roster_edit");
    reveal_strlit("exec");
    assert("load_match"@.len() == 10 && "end_match"@.len() == 9 && "status"@.len() == 6
        && "load_backup"@.len() == 11 && "roster_edit"@.len() == 11 && "exec"@.len() == 4);
    assert("load_backup"@[0] != "roster_edit"@[0]);
}

/// Tells whether a text has a character in it that could break out of quotes.
pub open spec fn breaks_out(s: Seq<char>) -> bool {
    exists|i: int|
        0 <= i < s.len() && ((#[trigger] s[i]) == '"' || s[i] == '\n' || s[i] == ';')
}

proof fn lemma_quotable(s: Seq<char>)
    ensures
        quotable(s) <==> !breaks_out(s),
{
    if s.contains('"') {
        let i = choose|i: int| 0 <= i < s.len() && s[i] == '"';
        assert(s[i] == '"');
    }
    if s.contains('\n') {
        let i = choose|i: int| 0 <= i < s.len() && s[i] == '\n';
        assert(s[i] == '\n');
    }
    if s.contains(';') {
        let i = choose|i: int| 0 <= i < s.len() && s[i] == ';';
        assert(s[i] == ';');
    }
}

/// A match and a backup are loaded alike, under their own console verb: with
/// the URL between quotes and, where a header is named, the header's name and
/// its value between quotes behind it. A text that could break out of the
/// quotes fails the command, and only such a text does.
pub proof fn law_matches_and_backups_are_loaded_alike(
    args: Json,
    url: Seq<char>,
    name: Seq<char>,
    value: Seq<char>,
)
    requires
        text_field(args, "url"@) == Some(url),
        name == match text_field(args, "header_name"@) {
            Some(s) => s,
            None => Seq::empty(),
        },
        value == match text_field(args, "header_value"@) {
            Some(s) => s,
            None => Seq::empty(),
        },
    ensures
        name.len() == 0 && !breaks_out(url) ==> {
            let tail = seq![' ', '"'] + url + seq!['"'];
            &&& script("load_match"@, Some(args)) == seq![
                StepView::Run("matchzy_loadmatch_url"@ + tail),
            ]
            &&& script("load_backup"@, Some(args)) == seq![
                StepView::Run("matchzy_loadbackup_url"@ + tail),
            ]
        },
        name.len() > 0 && !breaks_out(url) && !breaks_out(name) && !breaks_out(value) ==> {
            let tail = seq![' ', '"'] + url + seq!['"', ' ', '"'] + name + seq!['"', ' ', '"']
                + value + seq!['"'];
            &&& script("load_match"@, Some(args)) == seq![
                StepView::Run("matchzy_loadmatch_url"@ + tail),
            ]
            &&& script("load_backup"@, Some(args)) == seq![
                StepView::Run("matchzy_loadbackup_url"@ + tail),
            ]
        },
        breaks_out(url) || (name.len() > 0 && (breaks_out(name) || breaks_out(value))) ==> {
            let failure = seq![StepView::Fail("argument contains console metacharacters"@)];
            &&& script("load_match"@, Some(args)) == failure
            &&& script("load_backup"@, Some(args)) == failure
        },
{
    lemma_commands_are_distinct();
    lemma_quotable(url);
    lemma_quotable(name);
    lemma_quotable(value);
    reveal_strlit("");
    reveal_strlit(" ");
    assert(""@ == Seq::<char>::empty());
    assert(" "@ == seq![' ']);
    assert(text_field_or(args, "header_name"@, ""@) == name);
    assert(text_field_or(args, "header_value"@, ""@) == value);
    lemma_loading("load_match"@, "matchzy_loadmatch_url"@, args, url, name, value);
    lemma_loading("load_backup"@, "matchzy_loadbackup_url"@, args, url, name, value);
}

proof fn lemma_loading(
    cmd: Seq<char>,
    console_verb: Seq<char>,
    args: Json,
    url: Seq<char>,
    name: Seq<char>,
    value: Seq<char>,
)
    requires
        text_field(args, "url"@) == Some(url),
        text_field_or(args, "header_name"@, ""@) == name,
        text_field_or(args, "header_value"@, ""@) == value,
        " "@ == seq![' '],
    ensures
        name.len() == 0 && quotable(url) ==> url_step(cmd, console_verb, Some(args))
            == StepView::Run(console_verb + (seq![' ', '"'] + url + seq!['"'])),
        name.len() > 0 && quotable(url) && quotable(name) && quotable(value) ==> url_step(
            cmd,
            console_verb,
            Some(args),
        ) == StepView::Run(
            console_verb + (seq![' ', '"'] + url + seq!['"', ' ', '"'] + name + seq!['"', ' ', '"']
                + value + seq!['"']),
        ),
{
    assert(console_verb + " "@ + quoted(url) == console_verb + (seq![' ', '"'] + url + seq!['"']));
    assert(console_verb + " "@ + quoted(url) + " "@ + quoted(name) + " "@ + quoted(value)
        == console_verb + (seq![' ', '"'] + url + seq!['"', ' ', '"'] + name + seq!['"', ' ', '"']
        + value + seq!['"']));
}

/// A command without what it needs fails, and says what is missing; one that is
/// not known fails under its name.
pub proof fn law_incomplete_commands_fail(cmd: Seq<char>, args: Json)
    ensures
        script("load_match"@, None) == seq![
            StepView::Fail("load_match"@ + " requires args"@),
        ],
        script("load_backup"@, None) == seq![
            StepView::Fail("load_backup"@ + " requires args"@),
        ],
        script("roster_edit"@, None) == seq![StepView::Fail("roster_edit requires args"@)],
        script("exec"@, None) == seq![StepView::Fail("exec requires args"@)],
        text_field(args, "url"@) is None ==> script("load_match"@, Some(args)) == seq![
            StepView::Fail("missing url"@),
        ] && script("load_backup"@, Some(args)) == seq![StepView::Fail("missing url"@)],
        text_field(args, "command"@) is None ==> script("exec"@, Some(args)) == seq![
            StepView::Fail("missing command"@),
        ],
        cmd != "load_match"@ && cmd != "end_match"@ && cmd != "status"@ && cmd != "load_backup"@
            && cmd != "roster_edit"@ && cmd != "exec"@ ==> script(cmd, None) == seq![
            StepView::Fail("unknown command: "@ + cmd),
        ] && script(cmd, Some(args)) == seq![StepView::Fail("unknown command: "@ + cmd)],
{
    lemma_commands_are_distinct();
}

/// Ending a match and asking for its status are one fixed command each,
/// whatever comes with them.
pub proof fn law_fixed_commands_ignore_their_arguments(args: Option<Json>)
    ensures
        script("end_match"@, args) == seq![StepView::Run("css_endmatch"@)],
        script("status"@, args) == seq![StepView::Run("get5_status"@)],
{
    lemma_commands_are_distinct();
}

/// A roster edit has one step for each listed entry, in the order of the lists.
/// A removal names the player's steamid64 as it is listed, and fails where the
/// entry is no text or has anything but digits in it.
pub proof fn law_each_removal_names_its_player(args: Json, i: int)
    requires
        0 <= i < list_field(args, "remove"@).len(),
    ensures
        ({
            let steps = script("roster_edit"@, Some(args));
            let entry = list_field(args, "remove"@)[i];
            &&& steps.len() == list_field(args, "remove"@).len() + list_field(args, "add"@).len()
            &&& entry matches Json::Text(steam) ==> {
                &&& (forall|j: int| 0 <= j < steam@.len() ==> '0' <= #[trigger] steam@[j] <= '9')
                    ==> steps[i] == StepView::Run("matchzy_removeplayer "@ + steam@)
                &&& (exists|j: int|
                    0 <= j < steam@.len() && !('0' <= #[trigger] steam@[j] <= '9')) ==> steps[i]
                    == StepView::Fail("invalid steamid64 in remove list"@)
            }
            &&& !(entry matches Json::Text(_)) ==> steps[i] == StepView::Fail(
                "remove entries are steamid64 strings"@,
            )
        }),
{
    lemma_commands_are_distinct();
    let steps = script("roster_edit"@, Some(args));
    let entry = list_field(args, "remove"@)[i];
    assert(steps[i] == remove_step(entry));
    if let Json::Text(steam) = entry {
        lemma_digits(steam@);
    }
}

proof fn lemma_digits(s: Seq<char>)
    ensures
        (forall|j: int| 0 <= j < s.len() ==> '0' <= #[trigger] s[j] <= '9') ==> digits_only(s),
        (exists|j: int| 0 <= j < s.len() && !('0' <= #[trigger] s[j] <= '9')) ==> !digits_only(s),
{
    if exists|j: int| 0 <= j < s.len() && !('0' <= #[trigger] s[j] <= '9') {
        let j = choose|j: int| 0 <= j < s.len() && !('0' <= #[trigger] s[j] <= '9');
        assert(!is_digit(s[j]));
    }
}

/// An addition names the player's steamid64 as it is listed, the team that the
/// entry names, which is the first team where it names none of the three, and
/// the display name between quotes, `player` where there is none. It fails
/// where the steamid64 is missing or has anything but digits in it.
pub proof fn law_each_addition_names_its_player_and_team(args: Json, i: int)
    requires
        0 <= i < list_field(args, "add"@).len(),
    ensures
        ({
            let step = script("roster_edit"@, Some(args))[list_field(args, "remove"@).len() + i];
            let entry = list_field(args, "add"@)[i];
            let named = text_field(entry, "team"@);
            let name = match text_field(entry, "name"@) {
                Some(raw) => display_name(raw),
                None => "player"@,
            };
            &&& text_field(entry, "steamid64"@) matches Some(steam) ==> {
                let command = |team: Seq<char>|
                    "matchzy_addplayer "@ + steam + seq![' '] + team + seq![' ', '"'] + name
                        + seq!['"'];
                let digits = forall|j: int|
                    0 <= j < steam.len() ==> '0' <= #[trigger] steam[j] <= '9';
                &&& digits && named == Some("team1"@) ==> step == StepView::Run(command("team1"@))
                &&& digits && named == Some("team2"@) ==> step == StepView::Run(command("team2"@))
                &&& digits && named == Some("spec"@) ==> step == StepView::Run(command("spec"@))
                &&& digits && named != Some("team2"@) && named != Some("spec"@) ==> step
                    == StepView::Run(command("team1"@))
                &&& (exists|j: int|
                    0 <= j < steam.len() && !('0' <= #[trigger] steam[j] <= '9')) ==> step
                    == StepView::Fail("invalid steamid64 in add list"@)
            }
            &&& text_field(entry, "steamid64"@) is None ==> step == StepView::Fail(
                "add entries need steamid64"@,
            )
        }),
{
    lemma_commands_are_distinct();
    let steps = script("roster_edit"@, Some(args));
    let entry = list_field(args, "add"@)[i];
    assert(steps[list_field(args, "remove"@).len() + i] == add_step(entry));
    reveal_strlit(" ");
    reveal_strlit("team1");
    reveal_strlit("team2");
    reveal_strlit("spec");
    reveal_strlit("player");
    assert(" "@ == seq![' ']);
    assert("team1"@[4] != "team2"@[4]);
    assert("spec"@.len() == 4 && "team1"@.len() == 5 && "team2"@.len() == 5);
    law_plain_names_are_kept("player"@);
    let name = match text_field(entry, "name"@) {
        Some(raw) => display_name(raw),
        None => "player"@,
    };
    assert(display_name(text_field_or(entry, "name"@, "player"@)) == name);
    if let Some(steam) = text_field(entry, "steamid64"@) {
        lemma_digits(steam);
        let team = team_of(text_field_or(entry, "team"@, "team1"@));
        assert("matchzy_addplayer "@ + steam + " "@ + team + " "@ + quoted(name)
            == "matchzy_addplayer "@ + steam + seq![' '] + team + seq![' ', '"'] + name
            + seq!['"']);
    }
}

proof fn lemma_trim_ignores_a_blank(s: Seq<char>, c: char)
    requires
        is_space(c),
    ensures
        trim(seq![c] + s) == trim(s),
        trim(s + seq![c]) == trim(s),
{
    assert((seq![c] + s).drop_first() == s);
    assert((seq![c] + s).first() == c);
    lemma_trim_start_keeps_the_end(s, c);
    let rest = trim_start(s);
    if rest.len() > 0 {
        assert((rest + seq![c]).last() == c);
        assert((rest + seq![c]).drop_last() == rest);
    }
}

proof fn lemma_trim_start_keeps_the_end(s: Seq<char>, c: char)
    requires
        is_space(c),
    ensures
        trim_start(s).len() > 0 ==> trim_start(s + seq![c]) == trim_start(s) + seq![c],
        trim_start(s).len() == 0 ==> trim_start(s + seq![c]).len() == 0,
    decreases s.len(),
{
    if s.len() == 0 {
        assert(s + seq![c] == seq![c]);
        assert(seq![c].drop_first() == Seq::<char>::empty());
        reveal_with_fuel(trim_start, 2);
    } else {
        assert((s + seq![c]).first() == s.first());
        assert((s + seq![c]).drop_first() == s.drop_first() + seq![c]);
        if is_space(s.first()) {
            lemma_trim_start_keeps_the_end(s.drop_first(), c);
        }
    }
}

proof fn lemma_filter_one(c: char, keep: spec_fn(char) -> bool)
    ensures
        seq![c].filter(keep) == if keep(c) {
            seq![c]
        } else {
            Seq::<char>::empty()
        },
{
    reveal(Seq::filter);
    assert(seq![c].drop_last() == Seq::<char>::empty());
    assert(Seq::<char>::empty().filter(keep) == Seq::<char>::empty());
}

/// A display name loses the quotes, semicolons and line breaks in it, wherever
/// they stand, and the white space at its ends; nothing else changes in it, and
/// where nothing is left it is `player`.
pub proof fn law_display_names_lose_nothing_else(
    before: Seq<char>,
    c: char,
    after: Seq<char>,
    core: Seq<char>,
)
    ensures
        c == '"' || c == ';' || c == '\n' || c == '\r' ==> display_name(before + seq![c] + after)
            == display_name(before + after),
        is_space(c) ==> display_name(seq![c] + core) == display_name(core),
        is_space(c) ==> display_name(core + seq![c]) == display_name(core),
        display_name(Seq::empty()) == "player"@,
        core.len() > 0 && (forall|i: int|
            0 <= i < core.len() ==> (#[trigger] core[i]) != '"' && core[i] != ';' && core[i]
                != '\n' && core[i] != '\r') && !is_space(core[0]) && !is_space(
            core[core.len() - 1],
        ) ==> display_name(core) == core,
{
    let keep = |x: char| name_char(x);
    lemma_filter_one(c, keep);
    Seq::filter_distributes_over_add(before + seq![c], after, keep);
    Seq::filter_distributes_over_add(before, seq![c], keep);
    Seq::filter_distributes_over_add(before, after, keep);
    Seq::filter_distributes_over_add(seq![c], core, keep);
    Seq::filter_distributes_over_add(core, seq![c], keep);
    let kept = core.filter(keep);
    assert(before.filter(keep) + Seq::<char>::empty() == before.filter(keep));
    assert(Seq::<char>::empty() + kept == kept);
    assert(kept + Seq::<char>::empty() == kept);
    if is_space(c) {
        lemma_trim_ignores_a_blank(kept, c);
    }
    assert(Seq::<char>::empty().filter(keep) == Seq::<char>::empty()) by {
        reveal(Seq::filter);
    }
    if core.len() > 0 && (forall|i: int|
        0 <= i < core.len() ==> (#[trigger] core[i]) != '"' && core[i] != ';' && core[i] != '\n'
            && core[i] != '\r') && !is_space(core[0]) && !is_space(core[core.len() - 1]) {
        law_plain_names_are_kept(core);
    }
}

/// What a step of a list holds is what the step is: a command to run or an
/// error, with its text.
pub proof fn law_steps_keep_their_texts(steps: Seq<Step>, i: int)
    requires
        0 <= i < steps.len(),
    ensures
        step_views(steps).len() == steps.len(),
        steps[i] matches Step::Run(command) ==> step_views(steps)[i] == StepView::Run(command@),
        steps[i] matches Step::Fail(error) ==> step_views(steps)[i] == StepView::Fail(error@),
{
}

/// An argument is put between quotes whole, and it can be exactly where nothing
/// in it could break out of them.
pub proof fn law_arguments_are_quoted_whole(arg: Seq<char>)
    ensures
        quotable(arg) <==> !(exists|i: int|
            0 <= i < arg.len() && ((#[trigger] arg[i]) == '"' || arg[i] == '\n' || arg[i] == ';')),
        quoted(arg).len() == arg.len() + 2,
        quoted(arg).subrange(1, quoted(arg).len() - 1) == arg,
        quoted(arg)[0] == '"' && quoted(arg)[quoted(arg).len() - 1] == '"',
{
    lemma_quotable(arg);
    assert(quoted(arg).subrange(1, quoted(arg).len() - 1) == arg);
}

} // verus!
