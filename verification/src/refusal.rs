//! Which console commands the raw `exec` passthrough refuses, and why.
use crate::text::{control, first_word, has_char, is_control, is_space, lower, lower_char, opt_text, same, skip_space, to_chars, to_lower, space, trim_start};
use vstd::prelude::*;

verus! {

/// The verb of a console command: its first word, in small letters.
pub open spec fn verb(command: Seq<char>) -> Seq<char> {
    lower(first_word(trim_start(command)))
}

/// The verbs that the portal owns: its secrets, its webhooks, its downloads
/// and the match lifecycle.
pub open spec fn portal_owned(verb: Seq<char>) -> bool {
    ||| verb == "rcon_password"@
    ||| verb == "sv_password"@
    ||| verb == "tv_password"@
    ||| verb == "matchzy_loadbackup_url"@
    ||| verb == "sv_downloadurl"@
    ||| verb == "host_writeconfig"@
    ||| "sv_rcon_"@.is_prefix_of(verb)
    ||| "matchzy_remote_"@.is_prefix_of(verb)
    ||| "matchzy_demo_upload_"@.is_prefix_of(verb)
    ||| "matchzy_loadmatch"@.is_prefix_of(verb)
    ||| "logaddress_"@.is_prefix_of(verb)
}

/// The verbs that run commands which a look at the verb cannot see.
pub open spec fn hides_commands(verb: Seq<char>) -> bool {
    verb == "alias"@ || verb == "exec"@
}

/// The verbs that end the server process.
pub open spec fn ends_process(verb: Seq<char>) -> bool {
    ||| verb == "quit"@
    ||| verb == "exit"@
    ||| verb == "_restart"@
    ||| verb == "killserver"@
    ||| verb == "crash"@
}

/// Tells whether `s` has a control character in it.
pub open spec fn has_control(s: Seq<char>) -> bool {
    exists|i: int| 0 <= i < s.len() && is_control(#[trigger] s[i])
}

/// Why a raw command is refused, if it is.
pub open spec fn refusal(command: Seq<char>) -> Option<Seq<char>> {
    if has_control(command) {
        Some("control characters are not allowed"@)
    } else if command.contains(';') {
        Some("one command per request; ';' is not allowed"@)
    } else if verb(command).len() == 0 {
        Some("empty command"@)
    } else if portal_owned(verb(command)) {
        Some(verb(command) + " is portal-owned"@)
    } else if hides_commands(verb(command)) {
        Some(verb(command) + " could run commands the check cannot see"@)
    } else if ends_process(verb(command)) {
        Some(verb(command) + " would end the server process"@)
    } else {
        None
    }
}

/// Tells whether `s` begins with `prefix`.
fn begins_with(s: &str, prefix: &str) -> (b: bool)
    ensures
        b == prefix@.is_prefix_of(s@),
{
    let v = to_chars(s);
    let p = to_chars(prefix);
    if p.len() > v.len() {
        return false;
    }
    let mut i: usize = 0;
    while i < p.len()
        invariant
            i <= p@.len() <= v@.len(),
            v@ == s@,
            p@ == prefix@,
            forall|j: int| 0 <= j < i ==> v@[j] == p@[j],
        decreases p@.len() - i,
    {
        if v[i] != p[i] {
            assert(s@.take(p@.len() as int)[i as int] != prefix@[i as int]);
            return false;
        }
        i = i + 1;
    }
    assert(s@.take(p@.len() as int) == prefix@);
    true
}

/// The verb of a console command.
fn verb_of(command: &str) -> (r: String)
    ensures
        r@ == verb(command@),
{
    let v = to_chars(command);
    let start = skip_space(&v);
    let mut r = String::new();
    let mut i: usize = start;
    assert(v@.skip(start as int) == trim_start(v@));
    while i < v.len() && !space(v[i])
        invariant
            start <= i <= v@.len(),
            lower(first_word(v@.skip(start as int))) == r@ + lower(first_word(v@.skip(i as int))),
        decreases v@.len() - i,
    {
        assert(v@.skip(i as int).drop_first() == v@.skip(i + 1));
        assert(lower(first_word(v@.skip(i as int))) == seq![lower_char(v@[i as int])] + lower(
            first_word(v@.skip(i + 1)),
        ));
        r.push(to_lower(v[i]));
        i = i + 1;
    }
    assert(first_word(v@.skip(i as int)) == Seq::<char>::empty());
    r
}

/// Tells whether a command has a control character in it.
fn any_control(s: &str) -> (b: bool)
    ensures
        b == has_control(s@),
{
    let v = to_chars(s);
    let mut i: usize = 0;
    while i < v.len()
        invariant
            i <= v@.len(),
            v@ == s@,
            forall|j: int| 0 <= j < i ==> !is_control(#[trigger] s@[j]),
        decreases v@.len() - i,
    {
        if control(v[i]) {
            assert(is_control(s@[i as int]));
            return true;
        }
        i = i + 1;
    }
    false
}

/// Why a raw `exec` command is refused, if it is.
///
/// The portal holds the RCON password, the webhook and demo URLs and the match
/// lifecycle; a portal bug or a hostile admin session must not be able to
/// rotate the password, repoint the webhooks or drop the box out from under a
/// match through the passthrough. The portal applies the same rule first; this
/// copy is defence in depth. One command per frame: `;` and control characters
/// are refused so that the check sees a single verb.
pub fn exec_refusal(command: &str) -> (reason: Option<String>)
    ensures
        opt_text(reason) == refusal(command@),
{
    if any_control(command) {
        return Some("control characters are not allowed".to_owned());
    }
    if has_char(command, ';') {
        return Some("one command per request; ';' is not allowed".to_owned());
    }
    let mut verb = verb_of(command);
    if verb.as_str().is_empty() {
        return Some("empty command".to_owned());
    }
    let v = verb.as_str();
    if same(v, "rcon_password") || same(v, "sv_password") || same(v, "tv_password") || same(
        v,
        "matchzy_loadbackup_url",
    ) || same(v, "sv_downloadurl") || same(v, "host_writeconfig") || begins_with(v, "sv_rcon_")
        || begins_with(v, "matchzy_remote_") || begins_with(v, "matchzy_demo_upload_")
        || begins_with(v, "matchzy_loadmatch") || begins_with(v, "logaddress_") {
        verb.append(" is portal-owned");
        return Some(verb);
    }
    if same(v, "alias") || same(v, "exec") {
        verb.append(" could run commands the check cannot see");
        return Some(verb);
    }
    if same(v, "quit") || same(v, "exit") || same(v, "_restart") || same(v, "killserver") || same(
        v,
        "crash",
    ) {
        verb.append(" would end the server process");
        return Some(verb);
    }
    None
}

/// Making a character small changes neither whether it is white space, nor
/// whether it is a control character, nor whether it is a semicolon.
proof fn lemma_lower_char(c: char)
    ensures
        is_space(lower_char(c)) == is_space(c),
        is_control(lower_char(c)) == is_control(c),
        (lower_char(c) == ';') == (c == ';'),
{
}

proof fn lemma_lower_drop_first(s: Seq<char>)
    requires
        s.len() > 0,
    ensures
        lower(s).drop_first() == lower(s.drop_first()),
{
    assert(lower(s).drop_first() =~= lower(s.drop_first()));
}

proof fn lemma_lower_trim_start(s: Seq<char>)
    ensures
        lower(trim_start(s)) == trim_start(lower(s)),
    decreases s.len(),
{
    if s.len() > 0 {
        lemma_lower_char(s.first());
        lemma_lower_drop_first(s);
        lemma_lower_trim_start(s.drop_first());
    }
}

proof fn lemma_lower_first_word(s: Seq<char>)
    ensures
        lower(first_word(s)) == first_word(lower(s)),
    decreases s.len(),
{
    if s.len() > 0 {
        lemma_lower_char(s.first());
        lemma_lower_drop_first(s);
        lemma_lower_first_word(s.drop_first());
    }
    assert(lower(first_word(s)) =~= first_word(lower(s)));
}

/// What `lower` leaves as it was: the parts of a command that a refusal looks at.
proof fn lemma_lower_command(s: Seq<char>)
    ensures
        verb(s) == first_word(trim_start(lower(s))),
        has_control(s) == has_control(lower(s)),
        s.contains(';') == lower(s).contains(';'),
{
    lemma_lower_trim_start(s);
    lemma_lower_first_word(trim_start(s));
    if has_control(s) {
        let i = choose|i: int| 0 <= i < s.len() && is_control(#[trigger] s[i]);
        lemma_lower_char(s[i]);
        assert(is_control(lower(s)[i]));
    }
    if has_control(lower(s)) {
        let i = choose|i: int| 0 <= i < s.len() && is_control(#[trigger] lower(s)[i]);
        lemma_lower_char(s[i]);
        assert(is_control(s[i]));
    }
    if s.contains(';') {
        let i = choose|i: int| 0 <= i < s.len() && s[i] == ';';
        assert(lower(s)[i] == ';');
    }
    if lower(s).contains(';') {
        let i = choose|i: int| 0 <= i < s.len() && lower(s)[i] == ';';
        lemma_lower_char(s[i]);
        assert(s[i] == ';');
    }
}

/// Whether a command is refused, and with which words, does not depend on the
/// case in which its letters are written.
pub proof fn law_case_is_ignored(a: Seq<char>, b: Seq<char>)
    requires
        lower(a) == lower(b),
    ensures
        refusal(a) == refusal(b),
{
    lemma_lower_command(a);
    lemma_lower_command(b);
}

/// A command is let through exactly where it is one command, with no control
/// character in it, whose verb neither belongs to the portal nor hides other
/// commands nor ends the server.
pub proof fn law_accepted_commands(command: Seq<char>)
    ensures
        refusal(command) is None <==> {
            &&& !has_control(command)
            &&& !command.contains(';')
            &&& verb(command).len() > 0
            &&& !portal_owned(verb(command))
            &&& !hides_commands(verb(command))
            &&& !ends_process(verb(command))
        },
{
}

proof fn lemma_trim_start_pad(pad: Seq<char>, s: Seq<char>)
    requires
        forall|i: int| 0 <= i < pad.len() ==> is_space(#[trigger] pad[i]),
    ensures
        trim_start(pad + s) == trim_start(s),
    decreases pad.len(),
{
    if pad.len() == 0 {
        assert(pad + s == s);
    } else {
        assert((pad + s).first() == pad[0]);
        assert((pad + s).drop_first() == pad.drop_first() + s);
        lemma_trim_start_pad(pad.drop_first(), s);
    }
}

/// Blanks before a command change nothing: they cannot hide its verb.
pub proof fn law_leading_blanks_are_ignored(pad: Seq<char>, command: Seq<char>)
    requires
        forall|i: int| 0 <= i < pad.len() ==> is_space(#[trigger] pad[i]),
        !has_control(pad),
    ensures
        refusal(pad + command) == refusal(command),
{
    lemma_trim_start_pad(pad, command);
    let all = pad + command;
    if has_control(command) {
        let i = choose|i: int| 0 <= i < command.len() && is_control(#[trigger] command[i]);
        assert(is_control(all[pad.len() + i]));
    }
    if has_control(all) {
        let i = choose|i: int| 0 <= i < all.len() && is_control(#[trigger] all[i]);
        if i < pad.len() {
            assert(is_control(pad[i]));
        } else {
            assert(is_control(command[i - pad.len()]));
        }
    }
    if command.contains(';') {
        let i = choose|i: int| 0 <= i < command.len() && command[i] == ';';
        assert(all[pad.len() + i] == ';');
    }
    if all.contains(';') {
        let i = choose|i: int| 0 <= i < all.len() && all[i] == ';';
        if i < pad.len() {
            assert(is_space(pad[i]));
        } else {
            assert(command[i - pad.len()] == ';');
        }
    }
}

proof fn lemma_first_word_of(word: Seq<char>, rest: Seq<char>)
    requires
        forall|i: int| 0 <= i < word.len() ==> !is_space(#[trigger] word[i]),
        rest.len() == 0 || is_space(rest[0]),
    ensures
        first_word(word + rest) == word,
    decreases word.len(),
{
    if word.len() == 0 {
        assert(word + rest == rest);
        assert(first_word(rest) =~= word);
    } else {
        assert((word + rest).first() == word[0]);
        assert((word + rest).drop_first() == word.drop_first() + rest);
        lemma_first_word_of(word.drop_first(), rest);
        assert(seq![word[0]] + word.drop_first() =~= word);
    }
}

/// A verb that the portal owns, that hides other commands or that ends the
/// server is refused in whatever case it is written and whatever follows it.
pub proof fn law_forbidden_verbs_are_refused(word: Seq<char>, rest: Seq<char>)
    requires
        word.len() > 0,
        forall|i: int| 0 <= i < word.len() ==> !is_space(#[trigger] word[i]),
        rest.len() == 0 || is_space(rest[0]),
        portal_owned(lower(word)) || hides_commands(lower(word)) || ends_process(lower(word)),
    ensures
        refusal(word + rest) is Some,
{
    assert(trim_start(word + rest) == word + rest);
    lemma_first_word_of(word, rest);
}

/// What is wrong with a command as a whole is said first: a control character
/// before a semicolon, a semicolon before a missing verb.
pub proof fn law_unreadable_commands_are_refused(command: Seq<char>)
    ensures
        (exists|i: int| 0 <= i < command.len() && is_control(#[trigger] command[i]))
            ==> refusal(command) == Some("control characters are not allowed"@),
        (forall|i: int| 0 <= i < command.len() ==> !is_control(#[trigger] command[i]))
            && command.contains(';') ==> refusal(command) == Some(
            "one command per request; ';' is not allowed"@,
        ),
        (forall|i: int|
            0 <= i < command.len() ==> !is_control(#[trigger] command[i]) && is_space(command[i]))
            ==> refusal(command) == Some("empty command"@),
{
    if forall|i: int|
        0 <= i < command.len() ==> !is_control(#[trigger] command[i]) && is_space(command[i]) {
        lemma_trim_start_pad(command, Seq::empty());
        assert(command + Seq::<char>::empty() == command);
        if command.contains(';') {
            let i = choose|i: int| 0 <= i < command.len() && command[i] == ';';
            assert(is_space(command[i]));
        }
        assert(verb(command).len() == 0);
    }
}

/// A command is judged by its first word alone, in small letters: the words
/// that are the portal's, those that could run other commands and those that
/// would end the server are refused under their name, and every other word is
/// let through, whatever follows it.
pub proof fn law_commands_are_judged_by_their_first_word(
    blanks: Seq<char>,
    word: Seq<char>,
    rest: Seq<char>,
)
    requires
        forall|i: int| 0 <= i < blanks.len() ==> is_space(#[trigger] blanks[i]),
        word.len() > 0,
        forall|i: int| 0 <= i < word.len() ==> !is_space(#[trigger] word[i]),
        rest.len() == 0 || is_space(rest[0]),
        ({
            let command = blanks + word + rest;
            &&& forall|i: int| 0 <= i < command.len() ==> !is_control(#[trigger] command[i])
            &&& !command.contains(';')
        }),
    ensures
        ({
            let name = lower(word);
            let owned = {
                ||| name == "rcon_password"@
                ||| name == "sv_password"@
                ||| name == "tv_password"@
                ||| "sv_rcon_"@.is_prefix_of(name)
                ||| "matchzy_remote_"@.is_prefix_of(name)
                ||| "matchzy_demo_upload_"@.is_prefix_of(name)
                ||| "matchzy_loadmatch"@.is_prefix_of(name)
                ||| name == "matchzy_loadbackup_url"@
                ||| "logaddress_"@.is_prefix_of(name)
                ||| name == "sv_downloadurl"@
                ||| name == "host_writeconfig"@
            };
            let hiding = name == "alias"@ || name == "exec"@;
            let ending = {
                ||| name == "quit"@
                ||| name == "exit"@
                ||| name == "_restart"@
                ||| name == "killserver"@
                ||| name == "crash"@
            };
            refusal(blanks + word + rest) == if owned {
                Some(name + " is portal-owned"@)
            } else if hiding {
                Some(name + " could run commands the check cannot see"@)
            } else if ending {
                Some(name + " would end the server process"@)
            } else {
                None
            }
        }),
{
    let command = blanks + word + rest;
    assert(command == blanks + (word + rest));
    lemma_trim_start_pad(blanks, word + rest);
    assert((word + rest)[0] == word[0]);
    assert(trim_start(word + rest) == word + rest);
    lemma_first_word_of(word, rest);
    assert(verb(command) == lower(word));
    assert(!has_control(command));
}

} // verus!
