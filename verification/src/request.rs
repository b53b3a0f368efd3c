//! Requests to the control socket of a sandbox, and what they are answered.

use vstd::prelude::*;

use crate::error::{ErrorView, MicrosandboxError};
use crate::log::DecisionSnapshot;
use crate::stream::NetworkDecisionOptions;
use crate::text;

verus! {

/// A value in a request.
#[derive(Debug)]
pub enum JsonScalar {
    /// A string.
    Text(String),
    /// A number.
    Number(u64),
    /// `true` or `false`.
    Flag(bool),
}

/// A value in a request, as mathematical values.
#[verifier::ext_equal]
pub enum ScalarView {
    /// A string.
    Text(Seq<char>),
    /// A number.
    Number(u64),
    /// `true` or `false`.
    Flag(bool),
}

impl View for JsonScalar {
    type V = ScalarView;

    open spec fn view(&self) -> ScalarView {
        match self {
            JsonScalar::Text(text) => ScalarView::Text(text@),
            JsonScalar::Number(number) => ScalarView::Number(*number),
            JsonScalar::Flag(flag) => ScalarView::Flag(*flag),
        }
    }
}

/// The keys and values of an object, in the order in which they are put in.
pub open spec fn entry_views(entries: Seq<(String, JsonScalar)>) -> Seq<(Seq<char>, ScalarView)> {
    entries.map_values(|entry: (String, JsonScalar)| (entry.0@, entry.1@))
}

/// Whether a text stands in a JSON string as it is, without an escape.
pub open spec fn is_plain(text: Seq<char>) -> bool {
    forall|i: int|
        0 <= i < text.len() ==> (#[trigger] text[i]) >= ' ' && text[i] != '"' && text[i] != '\\'
}

/// Whether all keys and strings are plain.
pub open spec fn all_plain(entries: Seq<(Seq<char>, ScalarView)>) -> bool {
    forall|i: int|
        0 <= i < entries.len() ==> is_plain((#[trigger] entries[i]).0) && (
        entries[i].1 matches ScalarView::Text(text) ==> is_plain(text))
}

/// Whether the keys stand in the order of strings, each once.
pub open spec fn keys_ascend(entries: Seq<(Seq<char>, ScalarView)>) -> bool {
    forall|i: int, j: int|
        0 <= i < j < entries.len() ==> text::comes_before(
            (#[trigger] entries[i]).0,
            (#[trigger] entries[j]).0,
        )
}

/// The JSON text of a value whose characters are plain.
pub open spec fn scalar_text(value: ScalarView) -> Seq<char> {
    match value {
        ScalarView::Text(text) => seq!['"'] + text + seq!['"'],
        ScalarView::Number(number) => text::decimal(number as nat),
        ScalarView::Flag(flag) => if flag {
            "true"@
        } else {
            "false"@
        },
    }
}

/// The keys and values of an object as JSON, with commas between them.
pub open spec fn members_text(entries: Seq<(Seq<char>, ScalarView)>) -> Seq<char>
    decreases entries.len(),
{
    if entries.len() == 0 {
        Seq::empty()
    } else {
        let (key, value) = entries.last();
        let before = if entries.len() == 1 {
            Seq::empty()
        } else {
            members_text(entries.drop_last()).push(',')
        };
        before + seq!['"'] + key + seq!['"', ':'] + scalar_text(value)
    }
}

/// The JSON text of an object, without spaces.
pub open spec fn object_text(entries: Seq<(Seq<char>, ScalarView)>) -> Seq<char> {
    seq!['{'] + members_text(entries) + seq!['}']
}

/// `serde_json::to_string` on an object of strings, numbers and flags.
///
/// Claimed is that it succeeds and writes the members in the order of their keys, without
/// spaces, numbers in decimal, and keys and strings in double quotes. This is claimed of
/// keys that are put in in that order, each once, and of keys and strings that need no
/// escape.
#[verifier::external_body]
fn object_to_json(entries: &Vec<(String, JsonScalar)>) -> (text: Result<String, serde_json::Error>)
    requires
        all_plain(entry_views(entries@)),
        keys_ascend(entry_views(entries@)),
    ensures
        text matches Ok(text) && text@ == object_text(entry_views(entries@)),
{
    let mut object = serde_json::Map::new();
    for (key, value) in entries {
        let value = match value {
            JsonScalar::Text(text) => serde_json::Value::from(text.as_str()),
            JsonScalar::Number(number) => serde_json::Value::from(*number),
            JsonScalar::Flag(flag) => serde_json::Value::from(*flag),
        };
        object.insert(key.clone(), value);
    }
    serde_json::to_string(&serde_json::Value::Object(object))
}

/// The keys and values of a request for a snapshot.
pub open spec fn snapshot_entries(opts: NetworkDecisionOptions) -> Seq<(Seq<char>, ScalarView)> {
    seq![
        ("after"@, ScalarView::Number(opts.after_sequence)),
        ("op"@, ScalarView::Text("network_decisions"@)),
    ]
}

/// The keys and values of a request for a stream.
pub open spec fn stream_entries(opts: NetworkDecisionOptions) -> Seq<(Seq<char>, ScalarView)> {
    seq![
        ("after"@, ScalarView::Number(opts.after_sequence)),
        ("follow"@, ScalarView::Flag(opts.follow)),
        ("op"@, ScalarView::Text("network_decision_stream"@)),
    ]
}

/// The JSON text of an object whose keys and strings are plain holds no line break.
proof fn lemma_object_on_one_line(entries: Seq<(Seq<char>, ScalarView)>)
    requires
        all_plain(entries),
    ensures
        is_one_line(object_text(entries).push('\n')),
{
    lemma_members_on_one_line(entries);
    let text = object_text(entries);
    assert(text.push('\n').drop_last() =~= text);
}

/// The members of an object whose keys and strings are plain hold no line break.
proof fn lemma_members_on_one_line(entries: Seq<(Seq<char>, ScalarView)>)
    requires
        all_plain(entries),
    ensures
        forall|i: int|
            0 <= i < members_text(entries).len() ==> #[trigger] members_text(entries)[i] != '\n',
    decreases entries.len(),
{
    if entries.len() > 0 {
        let (key, value) = entries.last();
        lemma_members_on_one_line(entries.drop_last());
        assert(is_plain(key));
        let shown = scalar_text(value);
        assert forall|i: int| 0 <= i < shown.len() implies #[trigger] shown[i] != '\n' by {
            reveal_strlit("true");
            reveal_strlit("false");
            if let ScalarView::Number(number) = value {
                text::lemma_decimal_len(number as nat);
            }
        }
        let before = if entries.len() == 1 {
            Seq::empty()
        } else {
            members_text(entries.drop_last()).push(',')
        };
        assert(members_text(entries) == before + seq!['"'] + key + seq!['"', ':'] + shown);
        assert forall|i: int| 0 <= i < members_text(entries).len() implies #[trigger] members_text(
            entries,
        )[i] != '\n' by {
            let at_key = before.len() + 1;
            let at_value = at_key + key.len() + 2;
            if i < before.len() {
                assert(members_text(entries)[i] == before[i]);
            } else if at_key <= i < at_key + key.len() {
                assert(members_text(entries)[i] == key[i - at_key]);
            } else if i >= at_value {
                assert(members_text(entries)[i] == shown[i - at_value]);
            }
        }
    }
}

/// Keys that differ in their first character.
proof fn lemma_first_character_decides(first: Seq<char>, second: Seq<char>)
    requires
        first.len() > 0,
        second.len() > 0,
        first[0] < second[0],
    ensures
        text::comes_before(first, second),
{
    assert(first.take(0) =~= second.take(0));
}

/// Both requests have plain texts, and their keys in order.
proof fn lemma_requests_are_plain(opts: NetworkDecisionOptions)
    ensures
        all_plain(snapshot_entries(opts)),
        keys_ascend(snapshot_entries(opts)),
        all_plain(stream_entries(opts)),
        keys_ascend(stream_entries(opts)),
{
    reveal_strlit("after");
    reveal_strlit("follow");
    reveal_strlit("op");
    reveal_strlit("network_decisions");
    reveal_strlit("network_decision_stream");
    lemma_first_character_decides("after"@, "follow"@);
    lemma_first_character_decides("after"@, "op"@);
    lemma_first_character_decides("follow"@, "op"@);
}

/// Whether a text is one line: a line break stands at its end, and nowhere else.
pub open spec fn is_one_line(text: Seq<char>) -> bool {
    text.len() > 0 && text.last() == '\n' && !text.drop_last().contains('\n')
}

/// The line that carries a JSON text.
pub fn line_of(text: Result<String, serde_json::Error>) -> (line: Result<
    String,
    MicrosandboxError,
>)
    ensures
        match text {
            Ok(text) => line matches Ok(line) && line@ == text@.push('\n'),
            Err(error) => line matches Err(failure) && failure@ == ErrorView::Json(error),
        },
{
    match text {
        Ok(mut line) => {
            line.append("\n");
            proof {
                reveal_strlit("\n");
            }
            assert(line@ =~= text->Ok_0@.push('\n'));
            Ok(line)
        },
        Err(error) => Err(MicrosandboxError::Json(error)),
    }
}

/// The request for the decisions after a cursor, as one line.
pub fn snapshot_request(opts: NetworkDecisionOptions) -> (line: Result<String, MicrosandboxError>)
    ensures
        line matches Ok(line) && line@ == object_text(snapshot_entries(opts)).push('\n')
            && is_one_line(line@),
{
    let entries: Vec<(String, JsonScalar)> = vec![
        ("after".to_string(), JsonScalar::Number(opts.after_sequence)),
        ("op".to_string(), JsonScalar::Text("network_decisions".to_string())),
    ];
    proof {
        assert(entry_views(entries@) =~= snapshot_entries(opts));
        lemma_requests_are_plain(opts);
        lemma_object_on_one_line(snapshot_entries(opts));
    }
    line_of(object_to_json(&entries))
}

/// The request for a stream of decisions, as one line.
pub fn stream_request(opts: NetworkDecisionOptions) -> (line: Result<String, MicrosandboxError>)
    ensures
        line matches Ok(line) && line@ == object_text(stream_entries(opts)).push('\n')
            && is_one_line(line@),
{
    let entries: Vec<(String, JsonScalar)> = vec![
        ("after".to_string(), JsonScalar::Number(opts.after_sequence)),
        ("follow".to_string(), JsonScalar::Flag(opts.follow)),
        ("op".to_string(), JsonScalar::Text("network_decision_stream".to_string())),
    ];
    proof {
        assert(entry_views(entries@) =~= stream_entries(opts));
        lemma_requests_are_plain(opts);
        lemma_object_on_one_line(stream_entries(opts));
    }
    line_of(object_to_json(&entries))
}

/// The snapshot in an answer; an answer without one is an error.
pub fn snapshot_response(snapshot: Option<DecisionSnapshot>) -> (result: Result<
    DecisionSnapshot,
    MicrosandboxError,
>)
    ensures
        match snapshot {
            Some(snapshot) => result == Ok::<DecisionSnapshot, MicrosandboxError>(snapshot),
            None => result matches Err(failure) && failure@ == ErrorView::Runtime(
                "control response missing network decisions"@,
            ),
        },
{
    match snapshot {
        Some(snapshot) => Ok(snapshot),
        None => Err(
            MicrosandboxError::Runtime("control response missing network decisions".to_string()),
        ),
    }
}

/// The line of a request for a stream, written out.
pub(crate) proof fn lemma_stream_request_text(opts: NetworkDecisionOptions)
    ensures
        object_text(stream_entries(opts)).push('\n') == "{\"after\":"@ + text::decimal(
            opts.after_sequence as nat,
        ) + ",\"follow\":"@ + (if opts.follow {
            "true"@
        } else {
            "false"@
        }) + ",\"op\":\"network_decision_stream\"}\n"@,
{
    reveal_strlit("after");
    reveal_strlit("follow");
    reveal_strlit("op");
    reveal_strlit("network_decision_stream");
    reveal_strlit("{\"after\":");
    reveal_strlit(",\"follow\":");
    reveal_strlit(",\"op\":\"network_decision_stream\"}\n");
    reveal_with_fuel(members_text, 4);
    let entries = stream_entries(opts);
    assert(entries.drop_last().drop_last().drop_last() =~= Seq::empty());
    assert(object_text(entries).push('\n') =~= "{\"after\":"@ + text::decimal(opts.after_sequence as nat)
        + ",\"follow\":"@ + (if opts.follow {
        "true"@
    } else {
        "false"@
    }) + ",\"op\":\"network_decision_stream\"}\n"@);
}

/// The request for a stream is one line of JSON that asks for the stream from the cursor that
/// the caller gave, and to be kept open exactly where the caller asked to follow.
pub proof fn law_stream_request_says_what_was_asked(
    opts: NetworkDecisionOptions,
    line: Result<String, MicrosandboxError>,
)
    requires
        call_ensures(stream_request, (opts,), line),
    ensures
        line matches Ok(line) && line@ == "{\"after\":"@ + text::decimal(
            opts.after_sequence as nat,
        ) + ",\"follow\":"@ + (if opts.follow {
            "true"@
        } else {
            "false"@
        }) + ",\"op\":\"network_decision_stream\"}\n"@,
{
    lemma_stream_request_text(opts);
}

/// The request for a snapshot is one line of JSON that asks for the decisions after the cursor
/// that the caller gave, whatever the caller said of following.
pub proof fn law_snapshot_request_says_what_was_asked(
    opts: NetworkDecisionOptions,
    line: Result<String, MicrosandboxError>,
)
    requires
        call_ensures(snapshot_request, (opts,), line),
    ensures
        line matches Ok(line) && line@ == "{\"after\":"@ + text::decimal(
            opts.after_sequence as nat,
        ) + ",\"op\":\"network_decisions\"}\n"@,
{
    reveal_strlit("after");
    reveal_strlit("op");
    reveal_strlit("network_decisions");
    reveal_strlit("{\"after\":");
    reveal_strlit(",\"op\":\"network_decisions\"}\n");
    reveal_with_fuel(members_text, 3);
    let entries = snapshot_entries(opts);
    assert(entries.drop_last().drop_last() =~= Seq::empty());
    assert(line->Ok_0@ =~= "{\"after\":"@ + text::decimal(opts.after_sequence as nat)
        + ",\"op\":\"network_decisions\"}\n"@);
}

/// Texts that start alike, then hold numbers, then go on behind a comma hold the same number
/// where they are the same.
proof fn lemma_number_before_comma(
    start: Seq<char>,
    left: u64,
    right: u64,
    left_rest: Seq<char>,
    right_rest: Seq<char>,
)
    requires
        left_rest.len() > 0,
        left_rest[0] == ',',
        right_rest.len() > 0,
        right_rest[0] == ',',
        start + text::decimal(left as nat) + left_rest == start + text::decimal(right as nat)
            + right_rest,
    ensures
        left == right,
        left_rest == right_rest,
{
    let first = text::decimal(left as nat);
    let second = text::decimal(right as nat);
    let whole = start + first + left_rest;
    let other = start + second + right_rest;
    text::lemma_decimal_len(left as nat);
    text::lemma_decimal_len(right as nat);
    if first.len() < second.len() {
        assert(whole[(start.len() + first.len()) as int] == ',');
        assert(other[(start.len() + first.len()) as int] == second[first.len() as int]);
    } else if second.len() < first.len() {
        assert(other[(start.len() + second.len()) as int] == ',');
        assert(whole[(start.len() + second.len()) as int] == first[second.len() as int]);
    }
    assert(first =~= second) by {
        assert forall|i: int| 0 <= i < first.len() implies first[i] == second[i] by {
            assert(whole[start.len() + i] == first[i]);
            assert(other[start.len() + i] == second[i]);
        }
    }
    assert(left_rest =~= right_rest) by {
        let from = (start.len() + first.len()) as int;
        assert(whole.skip(from) =~= left_rest);
        assert(other.skip(from) =~= right_rest);
    }
    text::lemma_decimal_value(left as nat);
    text::lemma_decimal_value(right as nat);
}

/// Requests for streams are the same exactly where both the cursor and the wish to follow are.
pub proof fn law_stream_requests_tell_options_apart(
    first: NetworkDecisionOptions,
    second: NetworkDecisionOptions,
    first_line: String,
    second_line: String,
)
    requires
        call_ensures(stream_request, (first,), Ok(first_line)),
        call_ensures(stream_request, (second,), Ok(second_line)),
    ensures
        first_line@ == second_line@ <==> first.after_sequence == second.after_sequence
            && first.follow == second.follow,
{
    law_stream_request_says_what_was_asked(first, Ok(first_line));
    law_stream_request_says_what_was_asked(second, Ok(second_line));
    reveal_strlit("true");
    reveal_strlit("false");
    reveal_strlit(",\"follow\":");
    let start = "{\"after\":"@;
    let end = ",\"op\":\"network_decision_stream\"}\n"@;
    let first_rest = ",\"follow\":"@ + (if first.follow {
        "true"@
    } else {
        "false"@
    }) + end;
    let second_rest = ",\"follow\":"@ + (if second.follow {
        "true"@
    } else {
        "false"@
    }) + end;
    assert(first_line@ =~= start + text::decimal(first.after_sequence as nat) + first_rest);
    assert(second_line@ =~= start + text::decimal(second.after_sequence as nat) + second_rest);
    if first_line@ == second_line@ {
        lemma_number_before_comma(
            start,
            first.after_sequence,
            second.after_sequence,
            first_rest,
            second_rest,
        );
        assert(first_rest[10] == second_rest[10]);
    }
}

/// Requests for snapshots are the same exactly where the cursor is.
pub proof fn law_snapshot_requests_tell_cursors_apart(
    first: NetworkDecisionOptions,
    second: NetworkDecisionOptions,
    first_line: String,
    second_line: String,
)
    requires
        call_ensures(snapshot_request, (first,), Ok(first_line)),
        call_ensures(snapshot_request, (second,), Ok(second_line)),
    ensures
        first_line@ == second_line@ <==> first.after_sequence == second.after_sequence,
{
    law_snapshot_request_says_what_was_asked(first, Ok(first_line));
    law_snapshot_request_says_what_was_asked(second, Ok(second_line));
    reveal_strlit(",\"op\":\"network_decisions\"}\n");
    if first_line@ == second_line@ {
        lemma_number_before_comma(
            "{\"after\":"@,
            first.after_sequence,
            second.after_sequence,
            ",\"op\":\"network_decisions\"}\n"@,
            ",\"op\":\"network_decisions\"}\n"@,
        );
    }
}

/// A line is the text that it carries and a line break; a text that could not be written is an
/// error with its cause.
pub proof fn law_line_carries_the_text(
    text: Result<String, serde_json::Error>,
    line: Result<String, MicrosandboxError>,
)
    requires
        call_ensures(line_of, (text,), line),
    ensures
        text is Ok <==> line is Ok,
        line matches Ok(line) ==> line@.len() > 0 && line@.last() == '\n' && line@.drop_last()
            == text->Ok_0@,
        line matches Err(error) ==> error == MicrosandboxError::Json(text->Err_0),
{
    if let Ok(line) = line {
        assert(line@.drop_last() =~= text->Ok_0@);
    }
}

/// The snapshot in an answer is handed on as it is, and an answer without one is a runtime
/// error that says so.
pub proof fn law_answer_is_its_snapshot(
    snapshot: Option<DecisionSnapshot>,
    result: Result<DecisionSnapshot, MicrosandboxError>,
)
    requires
        call_ensures(snapshot_response, (snapshot,), result),
    ensures
        snapshot is Some <==> result is Ok,
        result matches Ok(handed_on) ==> snapshot == Some(handed_on),
        result matches Err(error) ==> error matches MicrosandboxError::Runtime(message)
            && message@ == "control response missing network decisions"@,
{
}

} // verus!
