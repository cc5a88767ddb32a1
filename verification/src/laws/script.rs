//! The script: how it is called, and how its answers are read.

use vstd::prelude::*;

use crate::commands::{answered, export_refusal};
use crate::json::{json_parse, member, number_u64, Json, JsonView};
use crate::ps::{
    action_failure, install_failure, last_json, script_arguments, script_content, RestoreInfoView,
};
use crate::text::{signed_decimal, trimmed};

verus! {

/// One more line of output: it is the answer where it is a JSON object, white
/// space at its ends aside, and else changes nothing.
pub proof fn last_object_is_the_answer(lines: Seq<Seq<char>>, line: Seq<char>)
    ensures
        last_json(Seq::empty()) is None,
        last_json(lines.push(line)) == (match json_parse(trimmed(line)) {
            Ok(JsonView::Object(members)) => Some(JsonView::Object(members)),
            _ => last_json(lines),
        }),
{
    assert(lines.push(line).drop_last() == lines);
}

/// Does an argument stand right behind its switch?
pub open spec fn is_given(arguments: Seq<Seq<char>>, switch: Seq<char>, value: Seq<char>) -> bool {
    exists|i: int|
        0 <= i < arguments.len() - 1 && #[trigger] arguments[i] == switch && arguments[i + 1]
            == value
}

/// The script is called with its file, the action and, where there is one, the
/// profile, each behind its switch.
pub proof fn actions_are_given_to_the_script(
    script: Seq<char>,
    action: Seq<char>,
    profile: Option<Seq<char>>,
)
    ensures
        ({
            let arguments = script_arguments(script, action, profile);
            &&& is_given(arguments, "-File"@, script)
            &&& is_given(arguments, "-Action"@, action)
            &&& is_given(arguments, "-ExecutionPolicy"@, "Bypass"@)
            &&& profile is Some ==> is_given(arguments, "-ConfigPath"@, profile->Some_0)
            &&& arguments.len() == (if profile is Some {
                9nat
            } else {
                7
            })
        }),
{
    let arguments = script_arguments(script, action, profile);
    assert(arguments[3] == "-File"@ && arguments[4] == script);
    assert(arguments[5] == "-Action"@ && arguments[6] == action);
    assert(arguments[1] == "-ExecutionPolicy"@ && arguments[2] == "Bypass"@);
    if profile is Some {
        assert(arguments[7] == "-ConfigPath"@ && arguments[8] == profile->Some_0);
    }
}

/// The script file is the script behind a byte order mark, and nothing else.
pub proof fn script_file_is_marked(script: Seq<char>)
    ensures
        script_content(script).len() == script.len() + 1,
        script_content(script)[0] == '\u{feff}',
        script_content(script).skip(1) == script,
{
    assert(script_content(script).skip(1) =~= script);
}

/// An action that failed is explained by what it wrote as errors, where that is
/// more than white space, and else by its code.
pub proof fn failures_are_explained(action: Seq<char>, stderr: Seq<char>, code: i32)
    ensures
        trimmed(stderr).len() > 0 ==> action_failure(action, stderr, Some(code)) == trimmed(stderr)
            && install_failure(stderr, Some(code)) == "Installation du module impossible : "@
            + trimmed(stderr),
        trimmed(stderr).len() == 0 ==> action_failure(action, stderr, Some(code))
            == "L'action « "@ + action + " » a échoué (code "@ + signed_decimal(code as int) + ")"@
            && install_failure(stderr, Some(code)) == "Installation du module impossible (code "@
            + signed_decimal(code as int) + ")"@,
        action_failure(action, stderr, None) == action_failure(action, stderr, Some(-1i32)),
        install_failure(stderr, None) == install_failure(stderr, Some(-1i32)),
{
}

/// An export succeeded exactly where the answer says `ok: true`; else its
/// message is the reason.
pub proof fn exports_must_say_ok(answer: JsonView, message: Seq<char>)
    ensures
        export_refusal(answer) is None <==> member(answer, "ok"@) == Some(JsonView::Bool(true)),
        member(answer, "ok"@) != Some(JsonView::Bool(true)) && member(answer, "message"@) == Some(
            JsonView::Text(message),
        ) ==> export_refusal(answer) == Some(message),
{
}

/// Are the items of the list these texts?
pub open spec fn are_texts(items: Seq<JsonView>, texts: Seq<Seq<char>>) -> bool {
    items.len() == texts.len() && forall|i: int|
        0 <= i < items.len() ==> #[trigger] items[i] == JsonView::Text(texts[i])
}

proof fn texts_are_read(items: Seq<JsonView>, texts: Seq<Seq<char>>)
    requires
        are_texts(items, texts),
    ensures
        crate::decode::decoded_texts(items) == Ok::<Seq<Seq<char>>, Seq<char>>(texts),
    decreases items.len(),
{
    if items.len() > 0 {
        let init = items.drop_last();
        assert forall|i: int| 0 <= i < init.len() implies #[trigger] init[i] == JsonView::Text(
            texts.drop_last()[i],
        ) by {
            assert(items[i] == init[i]);
        }
        texts_are_read(init, texts.drop_last());
        assert(items[items.len() - 1] == JsonView::Text(texts.last()));
        assert(texts.drop_last().push(texts.last()) =~= texts);
    } else {
        assert(texts =~= Seq::empty());
    }
}

/// The answer to a restore is read from its members: whether it succeeded, how
/// much was applied and what is missing. One that does not say `ok: true` is a
/// failure.
pub proof fn restore_answers_are_read_from_their_members(
    json: Json,
    n: serde_json::Number,
    applied: u32,
    ok: bool,
    items: Seq<JsonView>,
    missing: Seq<Seq<char>>,
)
    requires
        json.deep_view() is Object,
        member(json.deep_view(), "ok"@) == Some(JsonView::Bool(ok)),
        member(json.deep_view(), "applied"@) == Some(JsonView::Number(n)),
        number_u64(n) == Some(applied as u64),
        member(json.deep_view(), "missing"@) == Some(JsonView::Array(items)),
        are_texts(items, missing),
    ensures
        answered(Ok(json)) == (if ok {
            Ok::<RestoreInfoView, Seq<char>>(RestoreInfoView { ok, applied, missing })
        } else {
            Err("La restauration a échoué"@)
        }),
{
    texts_are_read(items, missing);
}

} // verus!
