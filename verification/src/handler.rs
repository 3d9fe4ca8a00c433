use vstd::prelude::*;
use crate::document::member_lookup;
use crate::error::{MigrationError, MigrationErrorModel};
use crate::ident::{strings_model, text_equals};
use crate::json::{
    Json, JsonModel, items_model, json_model, lemma_items_model, lemma_members_model, members_model,
};

verus! {

/// What the runtime handed back from `runMigration`.
#[derive(Debug)]
pub enum HandlerOutput {
    /// No value.
    Undefined,
    /// `null`: the handler returned nothing.
    Null,
    /// A string: the module's JSON text.
    Text(String),
    /// Any other value.
    Other,
}

/// The model of a [`HandlerOutput`]: the text, if there is one.
pub ghost enum HandlerOutputModel {
    Undefined,
    Null,
    Text(Seq<char>),
    Other,
}

impl View for HandlerOutput {
    type V = HandlerOutputModel;

    open spec fn view(&self) -> HandlerOutputModel {
        match self {
            HandlerOutput::Undefined => HandlerOutputModel::Undefined,
            HandlerOutput::Null => HandlerOutputModel::Null,
            HandlerOutput::Text(s) => HandlerOutputModel::Text(s@),
            HandlerOutput::Other => HandlerOutputModel::Other,
        }
    }
}

/// The text that a handler's output carries: none for `undefined` and
/// `null`, the string itself for a string, refused for anything else.
pub open spec fn output_text(output: HandlerOutputModel) -> Result<
    Option<Seq<char>>,
    MigrationErrorModel,
> {
    match output {
        HandlerOutputModel::Undefined => Ok(None),
        HandlerOutputModel::Null => Ok(None),
        HandlerOutputModel::Text(s) => Ok(Some(s)),
        HandlerOutputModel::Other => Err(MigrationErrorModel::InvalidHandlerOutput),
    }
}

/// The text that a handler's output carries, if any.
pub fn handler_output_text(output: HandlerOutput) -> (text: Result<Option<String>, MigrationError>)
    ensures
        match text {
            Ok(Some(s)) => output_text(output@) == Ok::<
                Option<Seq<char>>,
                MigrationErrorModel,
            >(Some(s@)),
            Ok(None) => output_text(output@) == Ok::<Option<Seq<char>>, MigrationErrorModel>(None),
            Err(e) => output_text(output@) == Err::<Option<Seq<char>>, MigrationErrorModel>(e@),
        },
{
    match output {
        HandlerOutput::Undefined => Ok(None),
        HandlerOutput::Null => Ok(None),
        HandlerOutput::Text(s) => Ok(Some(s)),
        HandlerOutput::Other => Err(MigrationError::InvalidHandlerOutput),
    }
}

/// What a handler returned for one document: its value, and the names of the
/// members of that value that the handler set to `undefined`.
#[derive(Debug)]
pub struct HandlerResult {
    pub value: Json,
    pub undefined_fields: Vec<String>,
}

/// The model of a [`HandlerResult`].
pub ghost struct HandlerResultModel {
    pub value: JsonModel,
    pub undefined_fields: Seq<Seq<char>>,
}

impl View for HandlerResult {
    type V = HandlerResultModel;

    open spec fn view(&self) -> HandlerResultModel {
        HandlerResultModel {
            value: self.value@,
            undefined_fields: strings_model(self.undefined_fields@),
        }
    }
}

/// Every element is a JSON string.
pub open spec fn all_strings(items: Seq<JsonModel>) -> bool {
    forall|i: int| 0 <= i < items.len() ==> #[trigger] items[i] is Str
}

/// The texts of a sequence of JSON strings.
pub open spec fn string_texts(items: Seq<JsonModel>) -> Seq<Seq<char>> {
    items.map_values(|j: JsonModel| j->Str_0)
}

/// The result that the module's JSON output describes: an object whose
/// `value` member is the handler's value and whose `undefinedFields` member
/// is an array of the names of its members that were `undefined`. Anything
/// else is refused.
pub open spec fn decode_result(output: JsonModel) -> Result<HandlerResultModel, MigrationErrorModel> {
    match output {
        JsonModel::Object(members) => match (
            member_lookup(members, "value"@),
            member_lookup(members, "undefinedFields"@),
        ) {
            (Some(value), Some(JsonModel::Array(names))) => if all_strings(names) {
                Ok(HandlerResultModel { value, undefined_fields: string_texts(names) })
            } else {
                Err(MigrationErrorModel::InvalidHandlerOutput)
            },
            _ => Err(MigrationErrorModel::InvalidHandlerOutput),
        },
        _ => Err(MigrationErrorModel::InvalidHandlerOutput),
    }
}

/// The index of the first member named `key`, if there is one.
fn find_member(members: &Vec<(String, Json)>, key: &str) -> (index: Option<usize>)
    ensures
        match index {
            Some(i) => i < members@.len() && member_lookup(members_model(members@), key@) == Some(
                json_model(members@[i as int].1),
            ),
            None => member_lookup(members_model(members@), key@) is None,
        },
{
    let n = members.len();
    proof {
        lemma_members_model(members@);
        assert(members_model(members@).subrange(0, n as int) =~= members_model(members@));
    }
    let mut i: usize = 0;
    while i < n
        invariant
            n == members@.len(),
            i <= n,
            members_model(members@).len() == n,
            forall|k: int|
                0 <= k < n ==> #[trigger] members_model(members@)[k] == (
                    members@[k].0@,
                    json_model(members@[k].1),
                ),
            member_lookup(members_model(members@), key@) == member_lookup(
                members_model(members@).subrange(i as int, n as int),
                key@,
            ),
        decreases n - i,
    {
        let ghost rest = members_model(members@).subrange(i as int, n as int);
        assert(rest[0] == members_model(members@)[i as int]);
        if text_equals(members[i].0.as_str(), key) {
            return Some(i);
        }
        assert(rest.drop_first() =~= members_model(members@).subrange(i + 1, n as int));
        i = i + 1;
    }
    None
}

/// The result that the module's JSON output describes, or the error that
/// refuses it.
#[verifier::loop_isolation(false)]
pub fn decode_handler_result(output: Json) -> (result: Result<HandlerResult, MigrationError>)
    ensures
        match result {
            Ok(r) => decode_result(output@) == Ok::<HandlerResultModel, MigrationErrorModel>(r@),
            Err(e) => decode_result(output@) == Err::<HandlerResultModel, MigrationErrorModel>(e@),
        },
{
    let ghost output_model = output@;
    let mut members = match output {
        Json::Object(members) => members,
        _ => return Err(MigrationError::InvalidHandlerOutput),
    };
    assert(output_model == JsonModel::Object(members_model(members@)));
    let value_index = find_member(&members, "value");
    let names_index = find_member(&members, "undefinedFields");
    let (vi, ni) = match (value_index, names_index) {
        (Some(vi), Some(ni)) => (vi, ni),
        _ => return Err(MigrationError::InvalidHandlerOutput),
    };
    let mut undefined_fields: Vec<String> = Vec::new();
    match &members[ni].1 {
        Json::Array(items) => {
            proof {
                lemma_items_model(items@);
            }
            let n = items.len();
            let mut i: usize = 0;
            let ghost im = items_model(items@);
            while i < n
                invariant
                    i <= n,
                    n == items@.len(),
                    im == items_model(items@),
                    im.len() == n,
                    forall|k: int| 0 <= k < n ==> #[trigger] im[k] == json_model(items@[k]),
                    forall|k: int| 0 <= k < i ==> #[trigger] im[k] is Str,
                    strings_model(undefined_fields@) == string_texts(im.subrange(0, i as int)),
                decreases n - i,
            {
                match &items[i] {
                    Json::Str(s) => {
                        let ghost before = undefined_fields@;
                        undefined_fields.push(s.clone());
                        proof {
                            assert(im[i as int] == JsonModel::Str(s@));
                            assert(strings_model(undefined_fields@) =~= strings_model(before).push(
                                s@,
                            ));
                            assert(string_texts(im.subrange(0, i + 1)) =~= string_texts(
                                im.subrange(0, i as int),
                            ).push(s@));
                        }
                    },
                    _ => {
                        assert(!(im[i as int] is Str));
                        return Err(MigrationError::InvalidHandlerOutput);
                    },
                }
                i = i + 1;
            }
            assert(im.subrange(0, n as int) =~= im);
            assert(all_strings(items_model(items@)));
            assert(json_model(members@[ni as int].1) == JsonModel::Array(items_model(items@)));
        },
        _ => return Err(MigrationError::InvalidHandlerOutput),
    }
    let ghost ms = members@;
    let value = members.swap_remove(vi).1;
    assert(value@ == json_model(ms[vi as int].1));
    Ok(HandlerResult { value, undefined_fields })
}

/// The call to make for one document: the handlers of the module, the index
/// of the handler to run and the context to hand it.
#[derive(Debug)]
pub struct HandlerCall {
    pub handlers: Vec<String>,
    pub handler_index: usize,
    pub context: Json,
}

/// The JSON strings of a sequence of names.
pub open spec fn json_strings(names: Seq<Seq<char>>) -> Seq<JsonModel> {
    names.map_values(|n: Seq<char>| JsonModel::Str(n))
}

/// Law: an object whose `value` member is `v` and whose `undefinedFields`
/// member is an array of the strings `names` decodes to exactly `v` and
/// `names`, the empty array included.
pub proof fn lemma_decode_accepts_value_and_names(
    members: Seq<(Seq<char>, JsonModel)>,
    value: JsonModel,
    names: Seq<Seq<char>>,
)
    requires
        member_lookup(members, "value"@) == Some(value),
        member_lookup(members, "undefinedFields"@) == Some(JsonModel::Array(json_strings(names))),
    ensures
        decode_result(JsonModel::Object(members)) == Ok::<HandlerResultModel, MigrationErrorModel>(
            HandlerResultModel { value, undefined_fields: names },
        ),
{
    assert(all_strings(json_strings(names)));
    assert(string_texts(json_strings(names)) =~= names);
}

/// Law: the output that the module builds for a handler's value `v` whose
/// `undefined` members are `names` decodes back to `v` and `names`.
pub proof fn lemma_decode_module_output(value: JsonModel, names: Seq<Seq<char>>)
    ensures
        decode_result(
            JsonModel::Object(
                seq![
                    ("value"@, value),
                    ("undefinedFields"@, JsonModel::Array(json_strings(names))),
                ],
            ),
        ) == Ok::<HandlerResultModel, MigrationErrorModel>(
            HandlerResultModel { value, undefined_fields: names },
        ),
{
    reveal_strlit("value");
    reveal_strlit("undefinedFields");
    let members = seq![
        ("value"@, value),
        ("undefinedFields"@, JsonModel::Array(json_strings(names))),
    ];
    assert("value"@ != "undefinedFields"@) by {
        assert("value"@.len() != "undefinedFields"@.len());
    }
    assert(members.drop_first() =~= seq![
        ("undefinedFields"@, JsonModel::Array(json_strings(names))),
    ]);
    assert(member_lookup(members, "value"@) == Some(value));
    assert(member_lookup(members.drop_first(), "undefinedFields"@) == Some(
        JsonModel::Array(json_strings(names)),
    ));
    lemma_decode_accepts_value_and_names(members, value, names);
}

/// Law: only an object can be the module's output.
pub proof fn lemma_decode_refuses_non_objects(output: JsonModel)
    requires
        !(output is Object),
    ensures
        decode_result(output) == Err::<HandlerResultModel, MigrationErrorModel>(
            MigrationErrorModel::InvalidHandlerOutput,
        ),
{
}

/// Law: an object without a `value` member, or whose `undefinedFields`
/// member is missing, is not an array, or holds something other than a
/// string, is refused.
pub proof fn lemma_decode_refuses_incomplete_objects(members: Seq<(Seq<char>, JsonModel)>)
    requires
        member_lookup(members, "value"@) is None || !(match member_lookup(
            members,
            "undefinedFields"@,
        ) {
            Some(JsonModel::Array(items)) => forall|i: int|
                0 <= i < items.len() ==> #[trigger] items[i] is Str,
            _ => false,
        }),
    ensures
        decode_result(JsonModel::Object(members)) == Err::<HandlerResultModel, MigrationErrorModel>(
            MigrationErrorModel::InvalidHandlerOutput,
        ),
{
}

} // verus!
