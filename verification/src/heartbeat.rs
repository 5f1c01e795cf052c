//! The heartbeat: RCON reachability, the `get5_status` JSON and a bounded part
//! of CS2's `status` output.
use crate::protocol::{field_views, put, Field, FieldView};
use crate::text::{from_chars, opt_text, to_chars};
use vstd::prelude::*;
use vstd::utf8::{encode_scalar, encode_utf8, is_ascii_chars_encode_utf8};

verus! {

/// The most that a heartbeat carries for CS2's `status` output, in bytes. A
/// full server prints well under this; the bound keeps a runaway console from
/// bloating every heartbeat.
pub const STATUS_OUTPUT_MAX: usize = 8192;

/// How many bytes the line takes that says that an output was cut off.
pub const TRUNCATION_MARK_BYTES: usize = 12;

/// How many bytes `c` takes in UTF-8.
pub open spec fn width(c: char) -> int {
    encode_scalar(c as u32).len() as int
}

/// The longest prefix of `s` that takes no more than `max` bytes in UTF-8.
pub open spec fn within(s: Seq<char>, max: int) -> Seq<char>
    decreases s.len(),
{
    if s.len() == 0 || width(s.first()) > max {
        Seq::empty()
    } else {
        seq![s.first()] + within(s.drop_first(), max - width(s.first()))
    }
}

/// `s` itself where it takes no more than `max` bytes; otherwise what fits of
/// it, and a line that says so.
pub open spec fn truncated(s: Seq<char>, max: int) -> Seq<char> {
    if encode_utf8(s).len() <= max {
        s
    } else {
        within(s, max) + "\n[truncated]"@
    }
}

/// How many bytes `c` takes in UTF-8.
fn char_width(c: char) -> (n: usize)
    ensures
        n == width(c),
        1 <= n <= 4,
{
    let u: u32 = c as u32;
    if u <= 0x7f {
        1
    } else if u <= 0x7ff {
        2
    } else if u <= 0xffff {
        3
    } else {
        4
    }
}

/// Bounds a text to `max` bytes, without cutting a character in two.
pub fn truncate_chars(s: &str, max: usize) -> (t: String)
    ensures
        t@ == truncated(s@, max as int),
{
    if s.as_bytes().len() <= max {
        return s.to_owned();
    }
    let v = to_chars(s);
    let mut i: usize = 0;
    let mut left: usize = max;
    assert(v@.skip(0) == v@);
    while i < v.len() && char_width(v[i]) <= left
        invariant
            i <= v@.len(),
            within(v@, max as int) == v@.take(i as int) + within(v@.skip(i as int), left as int),
        decreases v@.len() - i,
    {
        assert(v@.skip(i as int).first() == v@[i as int]);
        assert(v@.skip(i as int).drop_first() == v@.skip(i + 1));
        assert(v@.take(i + 1) == v@.take(i as int) + seq![v@[i as int]]);
        left = left - char_width(v[i]);
        i = i + 1;
    }
    assert(v@.take(i as int) + within(v@.skip(i as int), left as int) == v@.take(i as int));
    let mut t = from_chars(&v, 0, i);
    assert(v@.subrange(0, i as int) == v@.take(i as int));
    t.append("\n[truncated]");
    t
}

/// The part of a console output from its first opening to its last closing
/// brace.
pub open spec fn outermost_braces(output: Seq<char>) -> Option<Seq<char>> {
    match (output.index_of_first('{'), output.index_of_last('}')) {
        (Some(start), Some(end)) => if start <= end {
            Some(output.subrange(start, end + 1))
        } else {
            None
        },
        _ => None,
    }
}

/// The JSON value that a text stands for, as `serde_json::from_str` reads it;
/// nothing where the text is not JSON.
pub uninterp spec fn json_value(text: Seq<char>) -> Option<serde_json::Value>;

/// The error of `serde_json`, which is not looked into.
#[verifier::external_type_specification]
#[verifier::external_body]
pub struct ExJsonError(serde_json::Error);

/// `serde_json::from_str` to a `Value`: succeeds or fails by the text alone,
/// and equal texts give equal values.
#[verifier::external_body]
fn parse_json(text: &str) -> (r: Result<serde_json::Value, serde_json::Error>)
    ensures
        match r {
            Ok(value) => json_value(text@) == Some(value),
            Err(_) => json_value(text@) is None,
        },
{
    serde_json::from_str(text)
}

/// The part of a console output from its first opening to its last closing
/// brace.
pub fn find_braces(output: &str) -> (found: Option<String>)
    ensures
        opt_text(found) == outermost_braces(output@),
{
    let v = to_chars(output);
    proof {
        v@.index_of_first_ensures('{');
        v@.index_of_last_ensures('}');
    }
    let mut start: usize = 0;
    while start < v.len() && v[start] != '{'
        invariant
            start <= v@.len(),
            forall|j: int| 0 <= j < start ==> v@[j] != '{',
        decreases v@.len() - start,
    {
        start = start + 1;
    }
    if start == v.len() {
        return None;
    }
    let mut end: usize = v.len();
    while end > 0 && v[end - 1] != '}'
        invariant
            end <= v@.len(),
            forall|j: int| end <= j < v@.len() ==> v@[j] != '}',
        decreases end,
    {
        end = end - 1;
    }
    if end == 0 || start >= end {
        return None;
    }
    Some(from_chars(&v, start, end))
}

/// The JSON object in a console output: what the outermost braces hold, where
/// that is JSON.
pub open spec fn extracted(output: Seq<char>) -> Option<serde_json::Value> {
    match outermost_braces(output) {
        Some(text) => json_value(text),
        None => None,
    }
}

/// The JSON object in the output of `get5_status`. It prints a single object;
/// console noise around it is tolerated by taking the outermost braces.
pub fn extract_json(output: &str) -> (found: Option<serde_json::Value>)
    ensures
        found == extracted(output@),
{
    match find_braces(output) {
        None => None,
        Some(text) => match parse_json(text.as_str()) {
            Ok(value) => Some(value),
            Err(_) => None,
        },
    }
}

/// A heartbeat.
#[derive(Debug)]
pub enum Heartbeat {
    /// The server answers on RCON; the status of the match and what CS2 says
    /// of itself, where they are known.
    Reachable { get5_status: Option<serde_json::Value>, status_output: Option<String> },
    /// The server does not answer on RCON.
    Unreachable,
}

/// What a heartbeat holds.
pub enum HeartbeatView {
    Reachable { get5_status: Option<serde_json::Value>, status_output: Option<Seq<char>> },
    Unreachable,
}

impl View for Heartbeat {
    type V = HeartbeatView;

    open spec fn view(&self) -> HeartbeatView {
        match self {
            Heartbeat::Reachable { get5_status, status_output } => HeartbeatView::Reachable {
                get5_status: *get5_status,
                status_output: opt_text(*status_output),
            },
            Heartbeat::Unreachable => HeartbeatView::Unreachable,
        }
    }
}

/// CS2's `status` output as a heartbeat carries it: all of it where it is
/// within the bound; otherwise what fits beside the line that says that it was
/// cut off.
pub open spec fn bounded_status(output: Seq<char>) -> Seq<char> {
    if encode_utf8(output).len() <= STATUS_OUTPUT_MAX {
        output
    } else {
        within(output, STATUS_OUTPUT_MAX - TRUNCATION_MARK_BYTES) + "\n[truncated]"@
    }
}

/// Bounds CS2's `status` output for a heartbeat.
pub fn bound_status(output: &str) -> (t: String)
    ensures
        t@ == bounded_status(output@),
{
    if output.as_bytes().len() <= STATUS_OUTPUT_MAX {
        output.to_owned()
    } else {
        truncate_chars(output, STATUS_OUTPUT_MAX - TRUNCATION_MARK_BYTES)
    }
}

/// The heartbeat of a server that has answered, with the parsed match status
/// and the raw `status` output, if that was had.
pub open spec fn reachable(
    get5_status: Option<serde_json::Value>,
    status: Option<Seq<char>>,
) -> HeartbeatView {
    HeartbeatView::Reachable {
        get5_status,
        status_output: match status {
            Some(output) => Some(bounded_status(output)),
            None => None,
        },
    }
}

/// Puts together the heartbeat of a server that has answered.
pub fn reachable_heartbeat(
    get5_status: Option<serde_json::Value>,
    status: Option<String>,
) -> (h: Heartbeat)
    ensures
        h@ == reachable(get5_status, opt_text(status)),
{
    let status_output = match status {
        Some(output) => Some(bound_status(output.as_str())),
        None => None,
    };
    Heartbeat::Reachable { get5_status, status_output }
}

/// Asking the server for what a heartbeat carries: first for `get5_status`,
/// and where that is answered, for `status`.
pub struct Probe {
    get5_output: Option<String>,
}

impl View for Probe {
    type V = Option<Seq<char>>;

    /// The answer to the first question, once it has been given.
    closed spec fn view(&self) -> Option<Seq<char>> {
        opt_text(self.get5_output)
    }
}

/// The probe once a question has been answered, or not, and the heartbeat that
/// this makes complete.
pub open spec fn probed(probe: Option<Seq<char>>, answer: Option<Seq<char>>) -> (
    Option<Seq<char>>,
    Option<HeartbeatView>,
) {
    match probe {
        None => match answer {
            None => (None, Some(HeartbeatView::Unreachable)),
            Some(output) => (Some(output), None),
        },
        Some(get5_output) => (probe, Some(reachable(extracted(get5_output), answer))),
    }
}

impl Probe {
    /// Begins a heartbeat.
    pub fn start() -> (probe: Probe)
        ensures
            probe@ is None,
    {
        Probe { get5_output: None }
    }

    /// The console command to ask next.
    pub fn question(&self) -> (command: &'static str)
        ensures
            command@ == (if self@ is None {
                "get5_status"@
            } else {
                "status"@
            }),
    {
        match &self.get5_output {
            None => "get5_status",
            Some(_) => "status",
        }
    }

    /// Takes in what the question came back with: nothing where RCON failed.
    pub fn answer(&mut self, output: Option<String>) -> (complete: Option<Heartbeat>)
        ensures
            final(self)@ == probed(old(self)@, opt_text(output)).0,
            match complete {
                Some(h) => probed(old(self)@, opt_text(output)).1 == Some(h@),
                None => probed(old(self)@, opt_text(output)).1 is None,
            },
    {
        match &self.get5_output {
            Some(get5_output) => {
                let get5_status = extract_json(get5_output.as_str());
                Some(reachable_heartbeat(get5_status, output))
            },
            None => match output {
                None => Some(Heartbeat::Unreachable),
                Some(text) => {
                    self.get5_output = Some(text);
                    None
                },
            },
        }
    }
}

/// The value of a field that may be missing.
pub open spec fn json_or_null(value: Option<serde_json::Value>) -> FieldView {
    match value {
        Some(v) => FieldView::Json(v),
        None => FieldView::Null,
    }
}

/// The value of a text field that may be missing.
pub open spec fn text_or_null(value: Option<Seq<char>>) -> FieldView {
    match value {
        Some(s) => FieldView::Text(s),
        None => FieldView::Null,
    }
}

/// The fields of a heartbeat frame.
pub open spec fn heartbeat_object(h: HeartbeatView, version: Seq<char>) -> Seq<
    (Seq<char>, FieldView),
> {
    match h {
        HeartbeatView::Reachable { get5_status, status_output } => seq![
            ("type"@, FieldView::Text("heartbeat"@)),
            ("agent_version"@, FieldView::Text(version)),
            ("rcon_ok"@, FieldView::Flag(true)),
            ("get5_status"@, json_or_null(get5_status)),
            ("status_output"@, text_or_null(status_output)),
        ],
        HeartbeatView::Unreachable => seq![
            ("type"@, FieldView::Text("heartbeat"@)),
            ("agent_version"@, FieldView::Text(version)),
            ("rcon_ok"@, FieldView::Flag(false)),
        ],
    }
}

impl Heartbeat {
    /// The fields of the heartbeat frame of an agent of this version.
    pub fn into_fields(self, version: &str) -> (fields: Vec<(String, Field)>)
        ensures
            field_views(fields@) == heartbeat_object(self@, version@),
    {
        let mut fields: Vec<(String, Field)> = Vec::new();
        assert(field_views(fields@) == Seq::<(Seq<char>, FieldView)>::empty());
        put(&mut fields, "type", Field::Text("heartbeat".to_owned()));
        put(&mut fields, "agent_version", Field::Text(version.to_owned()));
        match self {
            Heartbeat::Reachable { get5_status, status_output } => {
                put(&mut fields, "rcon_ok", Field::Flag(true));
                let status = match get5_status {
                    Some(v) => Field::Json(v),
                    None => Field::Null,
                };
                put(&mut fields, "get5_status", status);
                let output = match status_output {
                    Some(s) => Field::Text(s),
                    None => Field::Null,
                };
                put(&mut fields, "status_output", output);
            },
            Heartbeat::Unreachable => {
                put(&mut fields, "rcon_ok", Field::Flag(false));
            },
        }
        fields
    }
}

proof fn lemma_encode_take_first(s: Seq<char>, k: int)
    requires
        0 < k <= s.len(),
    ensures
        encode_utf8(s.take(k)).len() == width(s[0]) + encode_utf8(s.drop_first().take(k - 1)).len(),
{
    assert(s.take(k).drop_first() == s.drop_first().take(k - 1));
}

/// What is kept of a text is a prefix of it that takes no more than `max`
/// bytes, and it is the longest one: with one more character it would take
/// more. So no character is cut, and nothing is lost that would have fitted.
pub proof fn law_truncation_keeps_the_longest_prefix(s: Seq<char>, max: int)
    requires
        max >= 0,
    ensures
        within(s, max) == s.take(within(s, max).len() as int),
        within(s, max).len() <= s.len(),
        encode_utf8(within(s, max)).len() <= max,
        within(s, max).len() < s.len() ==> encode_utf8(
            s.take(within(s, max).len() as int + 1),
        ).len() > max,
        encode_utf8(s).len() <= max ==> within(s, max) == s,
    decreases s.len(),
{
    let kept = within(s, max);
    if s.len() == 0 {
        assert(s.take(0) =~= kept);
    } else if width(s.first()) > max {
        assert(s.take(0) =~= kept);
        lemma_encode_take_first(s, 1);
        assert(s.take(s.len() as int) == s);
        lemma_encode_take_first(s, s.len() as int);
    } else {
        let rest = s.drop_first();
        let m = max - width(s.first());
        law_truncation_keeps_the_longest_prefix(rest, m);
        let n = within(rest, m).len() as int;
        assert(kept.len() == n + 1);
        assert(kept =~= s.take(n + 1));
        lemma_encode_take_first(s, n + 1);
        if kept.len() < s.len() {
            lemma_encode_take_first(s, n + 2);
        }
        assert(s.take(s.len() as int) == s);
        assert(rest.take(rest.len() as int) == rest);
        lemma_encode_take_first(s, s.len() as int);
        if encode_utf8(s).len() <= max {
            assert(kept =~= s);
        }
    }
}

/// The encodings of two texts, one behind the other, take as many bytes as the
/// encoding of both.
proof fn lemma_encode_concat_len(a: Seq<char>, b: Seq<char>)
    ensures
        encode_utf8(a + b).len() == encode_utf8(a).len() + encode_utf8(b).len(),
    decreases a.len(),
{
    if a.len() == 0 {
        assert(a + b == b);
    } else {
        assert((a + b)[0] == a[0]);
        assert((a + b).drop_first() == a.drop_first() + b);
        lemma_encode_concat_len(a.drop_first(), b);
    }
}

/// What a heartbeat carries for CS2's `status` output never takes more than
/// its bound: it is all of the output where that fits, and otherwise whole
/// characters from the start of the output and the line that says so.
pub proof fn law_status_output_is_bounded(output: Seq<char>)
    ensures
        ({
            let kept = within(output, STATUS_OUTPUT_MAX - TRUNCATION_MARK_BYTES);
            let sent = bounded_status(output);
            &&& encode_utf8(sent).len() <= STATUS_OUTPUT_MAX
            &&& kept.is_prefix_of(output)
            &&& encode_utf8(output).len() <= STATUS_OUTPUT_MAX ==> sent == output
            &&& encode_utf8(output).len() > STATUS_OUTPUT_MAX ==> sent == kept
                + "\n[truncated]"@
        }),
{
    let room = STATUS_OUTPUT_MAX - TRUNCATION_MARK_BYTES;
    let kept = within(output, room);
    let mark = "\n[truncated]"@;
    law_truncation_keeps_the_longest_prefix(output, room);
    assert(output.take(kept.len() as int) == kept);
    reveal_strlit("\n[truncated]");
    is_ascii_chars_encode_utf8(mark);
    lemma_encode_concat_len(kept, mark);
}

/// At most two answers make a heartbeat, and it says that the server is
/// reachable exactly where the first question was answered.
pub proof fn law_heartbeat_tells_reachability(
    first: Option<Seq<char>>,
    second: Option<Seq<char>>,
)
    ensures
        first is None ==> probed(None, first).1 == Some(HeartbeatView::Unreachable),
        first is Some ==> probed(None, first).1 is None && probed(probed(None, first).0, second).1
            == Some(reachable(extracted(first->0), second)),
{
}

/// Console noise around a JSON object does not change what is read: neither
/// before it, as long as no object opens there, nor behind it, as long as none
/// closes there.
pub proof fn law_console_noise_is_tolerated(before: Seq<char>, object: Seq<char>, after: Seq<char>)
    requires
        !before.contains('{'),
        !after.contains('}'),
        object.len() > 0,
        object.first() == '{',
        object.last() == '}',
    ensures
        outermost_braces(before + object + after) == Some(object),
        extracted(before + object + after) == extracted(object),
        extracted(object) == json_value(object),
{
    let all = before + object + after;
    all.index_of_first_ensures('{');
    all.index_of_last_ensures('}');
    object.index_of_first_ensures('{');
    object.index_of_last_ensures('}');
    let start = before.len() as int;
    let end = before.len() + object.len() - 1;
    assert(all[start] == object[0]);
    assert(all[end] == object[object.len() - 1]);
    assert forall|j: int| 0 <= j < start implies all[j] != '{' by {
        assert(all[j] == before[j]);
        assert(before.contains(before[j]));
    }
    assert forall|j: int| end < j < all.len() implies all[j] != '}' by {
        assert(all[j] == after[j - end - 1]);
        assert(after.contains(after[j - end - 1]));
    }
    assert(all.contains('{') && all.contains('}'));
    assert(object.contains('{') && object.contains('}'));
    assert(all.index_of_first('{') == Some(start));
    assert(all.index_of_last('}') == Some(end));
    assert(all.subrange(start, end + 1) =~= object);
    assert(object[0] == '{' && object[object.len() - 1] == '}');
    assert(object.index_of_first('{') == Some(0int));
    assert(object.index_of_last('}') == Some(object.len() - 1));
    assert(object.subrange(0, object.len() as int) =~= object);
}

/// A text that takes no more than `max` bytes stays as it is; a longer one
/// keeps as many whole characters from its start as take no more than `max`
/// bytes, and gets the mark behind them.
pub proof fn law_truncation_is_marked(s: Seq<char>, max: int, n: int)
    requires
        0 <= n < s.len(),
        encode_utf8(s.take(n)).len() <= max,
        encode_utf8(s.take(n + 1)).len() > max,
    ensures
        truncated(s, max) == s.take(n) + "\n[truncated]"@,
        encode_utf8(s.take(n)).len() <= max && truncated(s.take(n), max) == s.take(n),
{
    law_truncation_keeps_the_longest_prefix(s, max);
    let k = within(s, max).len() as int;
    lemma_longer_prefixes_take_more(s, n + 1, s.len() as int);
    assert(s.take(s.len() as int) == s);
    if k < n {
        lemma_longer_prefixes_take_more(s, k + 1, n);
    } else if k > n {
        lemma_longer_prefixes_take_more(s, n + 1, k);
    }
}

proof fn lemma_longer_prefixes_take_more(s: Seq<char>, a: int, b: int)
    requires
        0 <= a <= b <= s.len(),
    ensures
        encode_utf8(s.take(a)).len() <= encode_utf8(s.take(b)).len(),
{
    assert(s.take(b) == s.take(a) + s.subrange(a, b));
    lemma_encode_concat_len(s.take(a), s.subrange(a, b));
}

/// Where the first question is answered, and the second with an output within
/// 8 KiB, the complete heartbeat carries that output, whole; where the second
/// is not answered, it carries none. Either way it carries what was read from
/// the first answer.
pub proof fn law_heartbeat_carries_the_whole_status(
    get5_output: Seq<char>,
    output: Seq<char>,
)
    requires
        encode_utf8(output).len() <= 8192,
    ensures
        probed(None, Some(get5_output)) == (Some(get5_output), None::<HeartbeatView>),
        probed(Some(get5_output), Some(output)).1 == Some(
            HeartbeatView::Reachable {
                get5_status: extracted(get5_output),
                status_output: Some(output),
            },
        ),
        probed(Some(get5_output), None).1 == Some(
            HeartbeatView::Reachable {
                get5_status: extracted(get5_output),
                status_output: None,
            },
        ),
        probed(None, None) == (None::<Seq<char>>, Some(HeartbeatView::Unreachable)),
{
}

/// Where the second question is answered with more than 8 KiB, the complete
/// heartbeat carries whole characters from the start of that output, as many as
/// fit with the mark into 8 KiB, and the mark.
pub proof fn law_heartbeat_carries_the_start_of_a_long_status(
    get5_output: Seq<char>,
    output: Seq<char>,
    n: int,
)
    requires
        encode_utf8(output).len() > 8192,
        0 <= n < output.len(),
        encode_utf8(output.take(n) + "\n[truncated]"@).len() <= 8192,
        encode_utf8(output.take(n + 1) + "\n[truncated]"@).len() > 8192,
    ensures
        probed(Some(get5_output), Some(output)).1 == Some(
            HeartbeatView::Reachable {
                get5_status: extracted(get5_output),
                status_output: Some(output.take(n) + "\n[truncated]"@),
            },
        ),
{
    let mark = "\n[truncated]"@;
    reveal_strlit("\n[truncated]");
    is_ascii_chars_encode_utf8(mark);
    lemma_encode_concat_len(output.take(n), mark);
    lemma_encode_concat_len(output.take(n + 1), mark);
    law_truncation_is_marked(output, 8180, n);
}

/// An output without an object in it, because no brace opens, none closes, or
/// all that close come before the first that opens, has no match status.
pub proof fn law_output_without_an_object_has_no_status(a: Seq<char>, b: Seq<char>)
    requires
        !a.contains('{'),
        !b.contains('}'),
    ensures
        extracted(a + b) is None,
        extracted(a) is None,
        extracted(b) is None,
{
    (a + b).index_of_first_ensures('{');
    (a + b).index_of_last_ensures('}');
    a.index_of_first_ensures('{');
    b.index_of_last_ensures('}');
    let all = a + b;
    if all.contains('{') && all.contains('}') {
        let start = all.index_of_first('{')->0;
        let end = all.index_of_last('}')->0;
        if start < a.len() {
            assert(a[start] == '{');
        }
        if end >= a.len() {
            assert(b[end - a.len()] == '}');
        }
    }
}

/// A heartbeat frame of a reachable server has five fields: its kind, the
/// version, that RCON works, and the two answers, null where one is missing.
pub proof fn law_reachable_frames_carry_both_answers(
    status: serde_json::Value,
    output: Seq<char>,
    version: Seq<char>,
    has_status: bool,
    has_output: bool,
)
    ensures
        heartbeat_object(
            HeartbeatView::Reachable {
                get5_status: if has_status {
                    Some(status)
                } else {
                    None
                },
                status_output: if has_output {
                    Some(output)
                } else {
                    None
                },
            },
            version,
        ) == seq![
            ("type"@, FieldView::Text("heartbeat"@)),
            ("agent_version"@, FieldView::Text(version)),
            ("rcon_ok"@, FieldView::Flag(true)),
            (
                "get5_status"@,
                if has_status {
                    FieldView::Json(status)
                } else {
                    FieldView::Null
                },
            ),
            (
                "status_output"@,
                if has_output {
                    FieldView::Text(output)
                } else {
                    FieldView::Null
                },
            ),
        ],
{
}

/// A heartbeat frame of an unreachable server has three fields: its kind, the
/// version, and that RCON does not work.
pub proof fn law_unreachable_frames_say_so(version: Seq<char>)
    ensures
        heartbeat_object(HeartbeatView::Unreachable, version) == seq![
            ("type"@, FieldView::Text("heartbeat"@)),
            ("agent_version"@, FieldView::Text(version)),
            ("rcon_ok"@, FieldView::Flag(false)),
        ],
{
}

/// What a heartbeat holds is its own status and its own output.
pub proof fn law_heartbeats_keep_their_parts(h: Heartbeat)
    ensures
        h matches Heartbeat::Reachable { get5_status, status_output } ==> {
            &&& h@ matches HeartbeatView::Reachable { get5_status: g, status_output: o }
            &&& g == get5_status
            &&& status_output matches Some(s) ==> o == Some(s@)
            &&& status_output is None ==> o is None
        },
        h matches Heartbeat::Unreachable ==> h@ == HeartbeatView::Unreachable,
{
}

/// A text within the bound stays as it is, and only such a text does.
pub proof fn law_short_texts_stay(s: Seq<char>, max: int)
    requires
        max >= 0,
    ensures
        encode_utf8(s).len() <= max ==> truncated(s, max) == s,
        encode_utf8(s).len() > max ==> "\n[truncated]"@.is_suffix_of(truncated(s, max)),
{
    if encode_utf8(s).len() > max {
        let t = truncated(s, max);
        let mark = "\n[truncated]"@;
        assert(t.subrange(t.len() - mark.len(), t.len() as int) == mark);
    }
}

} // verus!
