use vstd::prelude::*;
use crate::error::{MigrationError, MigrationErrorModel};
use crate::ident::{
    parse_field_path, split_dots, split_dots_exec, strings_model, text_equals, valid_field_path,
};
use crate::json::{Json, JsonModel, lemma_members_model, members_model};

verus! {

/// A value stored in a document. Objects are kept as objects, so that a field
/// path can walk into them; every other value is kept as its exported JSON.
#[derive(Debug)]
pub enum DocumentValue {
    Object(Vec<(String, DocumentValue)>),
    Other(Json),
}

/// The model of a [`DocumentValue`].
pub ghost enum DocumentModel {
    Object(Seq<(Seq<char>, DocumentModel)>),
    Other(JsonModel),
}

/// The model of the fields of a document object, field by field.
pub open spec fn fields_model(fields: Seq<(String, DocumentValue)>) -> Seq<(Seq<char>, DocumentModel)>
    decreases fields,
{
    if fields.len() == 0 {
        Seq::empty()
    } else {
        fields_model(fields.drop_last()).push(
            (fields.last().0@, document_model(fields.last().1)),
        )
    }
}

/// The model of a document value.
pub open spec fn document_model(value: DocumentValue) -> DocumentModel
    decreases value,
{
    match value {
        DocumentValue::Object(fields) => DocumentModel::Object(fields_model(fields@)),
        DocumentValue::Other(j) => DocumentModel::Other(j@),
    }
}

impl View for DocumentValue {
    type V = DocumentModel;

    open spec fn view(&self) -> DocumentModel {
        document_model(*self)
    }
}

/// The model of the fields has one element per field, in order.
pub proof fn lemma_fields_model(fields: Seq<(String, DocumentValue)>)
    ensures
        fields_model(fields).len() == fields.len(),
        forall|i: int|
            0 <= i < fields.len() ==> #[trigger] fields_model(fields)[i] == (
                fields[i].0@,
                document_model(fields[i].1),
            ),
    decreases fields.len(),
{
    if fields.len() > 0 {
        lemma_fields_model(fields.drop_last());
    }
}

/// The fields of a document object have distinct names, and so do the fields
/// of every object inside it.
pub open spec fn fields_wf(fields: Seq<(Seq<char>, DocumentModel)>) -> bool
    decreases fields,
{
    if fields.len() == 0 {
        true
    } else {
        &&& fields_wf(fields.drop_last())
        &&& value_wf(fields.last().1)
        &&& forall|i: int| 0 <= i < fields.len() - 1 ==> #[trigger] fields[i].0 != fields.last().0
    }
}

/// A document value whose objects all have distinct field names.
pub open spec fn value_wf(value: DocumentModel) -> bool
    decreases value,
{
    match value {
        DocumentModel::Object(fields) => fields_wf(fields),
        DocumentModel::Other(_) => true,
    }
}

/// The model of a prefix of the fields is the prefix of their model.
proof fn lemma_fields_model_prefix(fields: Seq<(String, DocumentValue)>, k: int)
    requires
        0 <= k <= fields.len(),
    ensures
        fields_model(fields.subrange(0, k)) == fields_model(fields).subrange(0, k),
{
    lemma_fields_model(fields);
    lemma_fields_model(fields.subrange(0, k));
    assert(fields_model(fields.subrange(0, k)) =~= fields_model(fields).subrange(0, k));
}

/// A prefix of well-formed fields is well formed.
proof fn lemma_fields_wf_prefix(fields: Seq<(Seq<char>, DocumentModel)>, k: int)
    requires
        0 <= k <= fields.len(),
        fields_wf(fields),
    ensures
        fields_wf(fields.subrange(0, k)),
    decreases fields.len() - k,
{
    if k < fields.len() {
        assert(fields.drop_last() =~= fields.subrange(0, fields.len() - 1));
        lemma_fields_wf_prefix(fields.drop_last(), k);
        assert(fields.drop_last().subrange(0, k) =~= fields.subrange(0, k));
    } else {
        assert(fields.subrange(0, k) =~= fields);
    }
}

/// Whether the objects of a document value all have distinct field names.
pub fn value_is_well_formed(value: &DocumentValue) -> (wf: bool)
    ensures
        wf == value_wf(value@),
    decreases value,
{
    match value {
        DocumentValue::Object(fields) => {
            proof {
                assert(decreases_to!(value => fields));
            }
            fields_are_well_formed(fields)
        },
        DocumentValue::Other(_) => true,
    }
}

/// Whether the fields of a document object, and of every object inside it,
/// have distinct names.
pub fn fields_are_well_formed(fields: &Vec<(String, DocumentValue)>) -> (wf: bool)
    ensures
        wf == fields_wf(fields_model(fields@)),
    decreases fields,
{
    let n = fields.len();
    proof {
        assert(fields@.subrange(0, 0) =~= Seq::<(String, DocumentValue)>::empty());
    }
    for i in 0..n
        invariant
            n == fields@.len(),
            fields_wf(fields_model(fields@.subrange(0, i as int))),
    {
        let ghost prefix = fields@.subrange(0, i + 1);
        proof {
            assert(prefix.drop_last() =~= fields@.subrange(0, i as int));
            lemma_fields_model(prefix);
            assert(decreases_to!(fields => fields@));
            assert(decreases_to!(fields@ => fields@[i as int]));
            assert(decreases_to!(fields@[i as int] => fields@[i as int].1));
        }
        let ghost fm = fields_model(prefix);
        proof {
            assert(fm.drop_last() =~= fields_model(fields@.subrange(0, i as int)));
            assert(fm.last() == (fields@[i as int].0@, document_model(fields@[i as int].1)));
        }
        if !value_is_well_formed(&fields[i].1) {
            proof {
                lemma_fields_model_prefix(fields@, i + 1);
                lemma_fields_model(fields@);
                if fields_wf(fields_model(fields@)) {
                    lemma_fields_wf_prefix(fields_model(fields@), i + 1);
                }
            }
            return false;
        }
        for j in 0..i
            invariant
                n == fields@.len(),
                i < n,
                prefix == fields@.subrange(0, i + 1),
                fields_model(prefix).len() == prefix.len(),
                forall|k: int|
                    0 <= k < prefix.len() ==> #[trigger] fields_model(prefix)[k] == (
                        prefix[k].0@,
                        document_model(prefix[k].1),
                    ),
                forall|k: int|
                    0 <= k < j ==> #[trigger] fields_model(prefix)[k].0 != fields_model(
                        prefix,
                    ).last().0,
        {
            if text_equals(fields[j].0.as_str(), fields[i].0.as_str()) {
                assert(fields_model(prefix)[j as int].0 == fields_model(prefix).last().0);
                proof {
                    lemma_fields_model_prefix(fields@, i + 1);
                    lemma_fields_model(fields@);
                    if fields_wf(fields_model(fields@)) {
                        lemma_fields_wf_prefix(fields_model(fields@), i + 1);
                    }
                }
                return false;
            }
        }
    }
    assert(fields@.subrange(0, n as int) =~= fields@);
    true
}

/// The JSON members of the fields of an object, field by field.
pub open spec fn fields_json(fields: Seq<(Seq<char>, DocumentModel)>) -> Seq<(Seq<char>, JsonModel)>
    decreases fields,
{
    if fields.len() == 0 {
        Seq::empty()
    } else {
        fields_json(fields.drop_last()).push((fields.last().0, document_json(fields.last().1)))
    }
}

/// The JSON of a document value: an object becomes a JSON object with the
/// JSON of each field, in order; every other value is its exported JSON.
pub open spec fn document_json(value: DocumentModel) -> JsonModel
    decreases value,
{
    match value {
        DocumentModel::Object(fields) => JsonModel::Object(fields_json(fields)),
        DocumentModel::Other(j) => j,
    }
}

/// The JSON members have one element per field, in order.
pub proof fn lemma_fields_json(fields: Seq<(Seq<char>, DocumentModel)>)
    ensures
        fields_json(fields).len() == fields.len(),
        forall|i: int|
            0 <= i < fields.len() ==> #[trigger] fields_json(fields)[i] == (
                fields[i].0,
                document_json(fields[i].1),
            ),
    decreases fields.len(),
{
    if fields.len() > 0 {
        lemma_fields_json(fields.drop_last());
    }
}

/// The JSON of a document value.
pub fn value_to_json(value: &DocumentValue) -> (j: Json)
    ensures
        j@ == document_json(value@),
    decreases value,
{
    match value {
        DocumentValue::Object(fields) => {
            proof {
                assert(decreases_to!(value => fields));
            }
            object_to_json(fields)
        },
        DocumentValue::Other(j) => j.duplicate(),
    }
}

/// The JSON object of the fields of a document object.
pub fn object_to_json(fields: &Vec<(String, DocumentValue)>) -> (j: Json)
    ensures
        j@ == JsonModel::Object(fields_json(fields_model(fields@))),
    decreases fields,
{
    let mut members: Vec<(String, Json)> = Vec::new();
    let n = fields.len();
    for i in 0..n
        invariant
            n == fields@.len(),
            members@.len() == i,
            forall|k: int|
                0 <= k < i ==> (#[trigger] members@[k]).0@ == fields@[k].0@ && members@[k].1@
                    == document_json(document_model(fields@[k].1)),
    {
        proof {
            assert(decreases_to!(fields => fields@));
            assert(decreases_to!(fields@ => fields@[i as int]));
            assert(decreases_to!(fields@[i as int] => fields@[i as int].1));
        }
        let name = fields[i].0.clone();
        let value = value_to_json(&fields[i].1);
        members.push((name, value));
    }
    proof {
        lemma_members_model(members@);
        lemma_fields_model(fields@);
        lemma_fields_json(fields_model(fields@));
        assert(members_model(members@) =~= fields_json(fields_model(fields@)));
    }
    Json::Object(members)
}

/// The value of the first field named `name`.
pub open spec fn field_lookup(fields: Seq<(Seq<char>, DocumentModel)>, name: Seq<char>) -> Option<
    DocumentModel,
>
    decreases fields.len(),
{
    if fields.len() == 0 {
        None
    } else if fields[0].0 == name {
        Some(fields[0].1)
    } else {
        field_lookup(fields.drop_first(), name)
    }
}

/// What a field path finds in a document object: the JSON of the value at the
/// path and `false`, or `null` and `true` where a step of the path finds no
/// field or a value that is not an object.
pub open spec fn field_value(fields: Seq<(Seq<char>, DocumentModel)>, path: Seq<Seq<char>>) -> (
    JsonModel,
    bool,
)
    decreases path.len(),
{
    if path.len() == 0 {
        (JsonModel::Null, true)
    } else {
        match field_lookup(fields, path[0]) {
            None => (JsonModel::Null, true),
            Some(v) => if path.len() == 1 {
                (document_json(v), false)
            } else {
                match v {
                    DocumentModel::Object(inner) => field_value(inner, path.drop_first()),
                    DocumentModel::Other(_) => (JsonModel::Null, true),
                }
            },
        }
    }
}

/// The index of the first field named `name`, if there is one.
fn find_field(fields: &Vec<(String, DocumentValue)>, name: &String) -> (index: Option<usize>)
    ensures
        match index {
            Some(i) => i < fields@.len() && field_lookup(fields_model(fields@), name@) == Some(
                document_model(fields@[i as int].1),
            ),
            None => field_lookup(fields_model(fields@), name@) is None,
        },
{
    let n = fields.len();
    proof {
        lemma_fields_model(fields@);
        assert(fields_model(fields@).subrange(0, n as int) =~= fields_model(fields@));
    }
    let mut i: usize = 0;
    while i < n
        invariant
            n == fields@.len(),
            i <= n,
            fields_model(fields@).len() == n,
            forall|k: int|
                0 <= k < n ==> #[trigger] fields_model(fields@)[k] == (
                    fields@[k].0@,
                    document_model(fields@[k].1),
                ),
            field_lookup(fields_model(fields@), name@) == field_lookup(
                fields_model(fields@).subrange(i as int, n as int),
                name@,
            ),
        decreases n - i,
    {
        let ghost rest = fields_model(fields@).subrange(i as int, n as int);
        assert(rest[0] == fields_model(fields@)[i as int]);
        if fields[i].0 == *name {
            return Some(i);
        }
        assert(rest.drop_first() =~= fields_model(fields@).subrange(i + 1, n as int));
        i = i + 1;
    }
    None
}

/// The value at `field_path` in the document object `doc`, and whether it is
/// missing, or the error that refuses the path.
pub fn get_field_value(doc: &Vec<(String, DocumentValue)>, field_path: &str) -> (found: Result<
    (Json, bool),
    MigrationError,
>)
    ensures
        match found {
            Ok((value, missing)) => valid_field_path(field_path@) && (value@, missing)
                == field_value(fields_model(doc@), split_dots(field_path@)),
            Err(e) => !valid_field_path(field_path@) && e@ == (
            MigrationErrorModel::InvalidIdentifier { text: field_path@ }),
        },
{
    let segments = match parse_field_path(field_path) {
        Ok(s) => s,
        Err(e) => return Err(e),
    };
    let ghost path = split_dots(field_path@);
    let n = segments.len();
    let mut current: &Vec<(String, DocumentValue)> = doc;
    let mut i: usize = 0;
    assert(path.subrange(0, n as int) =~= path);
    while i < n
        invariant
            n == segments@.len(),
            strings_model(segments@) == path,
            path == split_dots(field_path@),
            valid_field_path(field_path@),
            i <= n,
            field_value(fields_model(doc@), path) == field_value(
                fields_model(current@),
                path.subrange(i as int, n as int),
            ),
        decreases n - i,
    {
        let ghost rest = path.subrange(i as int, n as int);
        assert(rest[0] == segments@[i as int]@);
        match find_field(current, &segments[i]) {
            None => {
                return Ok((Json::Null, true));
            },
            Some(k) => {
                let value = &current[k].1;
                if i == n - 1 {
                    return Ok((value_to_json(value), false));
                }
                match value {
                    DocumentValue::Object(inner) => {
                        assert(rest.drop_first() =~= path.subrange(i + 1, n as int));
                        current = inner;
                    },
                    DocumentValue::Other(_) => {
                        return Ok((Json::Null, true));
                    },
                }
            },
        }
        i = i + 1;
    }
    Ok((Json::Null, true))
}

/// The JSON that holds `value` under the nested object keys `parts`, outermost first.
pub open spec fn nest_at(parts: Seq<Seq<char>>, value: JsonModel) -> JsonModel
    decreases parts.len(),
{
    if parts.len() == 0 {
        value
    } else {
        JsonModel::Object(seq![(parts[0], nest_at(parts.drop_first(), value))])
    }
}

/// The patch that sets the field at `field_path` (its dot-separated pieces,
/// outermost first) to `value`.
pub fn field_patch_json(field_path: &str, value: Json) -> (patch: Json)
    ensures
        patch@ == nest_at(split_dots(field_path@), value@),
{
    let mut parts = split_dots_exec(field_path);
    let ghost all = strings_model(parts@);
    let ghost n = parts@.len() as int;
    let mut current = value;
    proof {
        assert(all.subrange(n, n) =~= Seq::<Seq<char>>::empty());
    }
    while parts.len() > 0
        invariant
            all == split_dots(field_path@),
            n == all.len(),
            parts@.len() <= n,
            forall|k: int| 0 <= k < parts@.len() ==> #[trigger] parts@[k]@ == all[k],
            current@ == nest_at(all.subrange(parts@.len() as int, n), value@),
        decreases parts@.len(),
    {
        let ghost k = parts@.len() as int;
        let part = parts.pop().unwrap();
        assert(part@ == all[k - 1]);
        let ghost inner = current@;
        let members = vec![(part, current)];
        proof {
            lemma_members_model(members@);
            assert(members_model(members@) =~= seq![(all[k - 1], inner)]);
            assert(all.subrange(k - 1, n).drop_first() =~= all.subrange(k, n));
            assert(all.subrange(k - 1, n)[0] == all[k - 1]);
        }
        current = Json::Object(members);
    }
    assert(all.subrange(0, n) =~= all);
    current
}

/// The value of the first member named `key`.
pub open spec fn member_lookup(members: Seq<(Seq<char>, JsonModel)>, key: Seq<char>) -> Option<
    JsonModel,
>
    decreases members.len(),
{
    if members.len() == 0 {
        None
    } else if members[0].0 == key {
        Some(members[0].1)
    } else {
        member_lookup(members.drop_first(), key)
    }
}

/// The JSON value found by following the object keys `path` from `value`.
pub open spec fn json_at_path(value: JsonModel, path: Seq<Seq<char>>) -> Option<JsonModel>
    decreases path.len(),
{
    if path.len() == 0 {
        Some(value)
    } else {
        match value {
            JsonModel::Object(members) => match member_lookup(members, path[0]) {
                Some(v) => json_at_path(v, path.drop_first()),
                None => None,
            },
            _ => None,
        }
    }
}

/// Law: the patch of a field migration holds the handler's result exactly at
/// the migration's field path.
pub proof fn lemma_patch_holds_value_at_path(field_path: Seq<char>, value: JsonModel)
    ensures
        json_at_path(nest_at(split_dots(field_path), value), split_dots(field_path)) == Some(value),
{
    lemma_nest_at_path(split_dots(field_path), value);
}

/// The nested value sits at the path it was nested under.
pub proof fn lemma_nest_at_path(parts: Seq<Seq<char>>, value: JsonModel)
    ensures
        json_at_path(nest_at(parts, value), parts) == Some(value),
    decreases parts.len(),
{
    if parts.len() > 0 {
        lemma_nest_at_path(parts.drop_first(), value);
    }
}

proof fn lemma_fields_json_drop_first(fields: Seq<(Seq<char>, DocumentModel)>)
    requires
        fields.len() > 0,
    ensures
        fields_json(fields).drop_first() == fields_json(fields.drop_first()),
        fields_json(fields)[0] == (fields[0].0, document_json(fields[0].1)),
{
    lemma_fields_json(fields);
    lemma_fields_json(fields.drop_first());
    assert(fields_json(fields).drop_first() =~= fields_json(fields.drop_first()));
}

proof fn lemma_lookup_json(fields: Seq<(Seq<char>, DocumentModel)>, key: Seq<char>)
    ensures
        member_lookup(fields_json(fields), key) == match field_lookup(fields, key) {
            Some(v) => Some(document_json(v)),
            None => None,
        },
    decreases fields.len(),
{
    if fields.len() == 0 {
        lemma_fields_json(fields);
    } else {
        lemma_fields_json_drop_first(fields);
        lemma_fields_json(fields);
        lemma_lookup_json(fields.drop_first(), key);
    }
}

/// Law: where a field path finds a value in a document, the old value handed
/// to the migration is what the document's JSON holds at that path.
pub proof fn lemma_field_value_matches_document_json(
    fields: Seq<(Seq<char>, DocumentModel)>,
    path: Seq<Seq<char>>,
)
    requires
        !field_value(fields, path).1,
    ensures
        json_at_path(JsonModel::Object(fields_json(fields)), path) == Some(
            field_value(fields, path).0,
        ),
    decreases path.len(),
{
    lemma_lookup_json(fields, path[0]);
    match field_lookup(fields, path[0]) {
        None => {},
        Some(v) => {
            if path.len() == 1 {
                assert(path.drop_first().len() == 0);
                assert(json_at_path(document_json(v), path.drop_first()) == Some(document_json(v)));
            } else {
                match v {
                    DocumentModel::Object(inner) => {
                        lemma_field_value_matches_document_json(inner, path.drop_first());
                        assert(document_json(v) == JsonModel::Object(fields_json(inner)));
                    },
                    DocumentModel::Other(_) => {},
                }
            }
        },
    }
}

/// The document value that a path reaches by walking field names through
/// document objects, if every step finds a field.
pub open spec fn value_at_path(fields: Seq<(Seq<char>, DocumentModel)>, path: Seq<Seq<char>>) -> Option<
    DocumentModel,
>
    decreases path.len(),
{
    if path.len() == 0 {
        None
    } else {
        match field_lookup(fields, path[0]) {
            None => None,
            Some(v) => if path.len() == 1 {
                Some(v)
            } else {
                match v {
                    DocumentModel::Object(inner) => value_at_path(inner, path.drop_first()),
                    DocumentModel::Other(_) => None,
                }
            },
        }
    }
}

/// Law: the old value handed to a field migration is the JSON of the value
/// that the field path reaches, and it is missing exactly when the path
/// reaches nothing. A field that is there is never missing, whatever its
/// value, `null` included.
pub proof fn lemma_field_value_is_value_at_path(
    fields: Seq<(Seq<char>, DocumentModel)>,
    path: Seq<Seq<char>>,
)
    ensures
        match value_at_path(fields, path) {
            Some(v) => field_value(fields, path) == (document_json(v), false),
            None => field_value(fields, path) == (JsonModel::Null, true),
        },
    decreases path.len(),
{
    if path.len() > 0 {
        match field_lookup(fields, path[0]) {
            None => {},
            Some(v) => {
                if path.len() > 1 {
                    if let DocumentModel::Object(inner) = v {
                        lemma_field_value_is_value_at_path(inner, path.drop_first());
                    }
                }
            },
        }
    }
}

/// Law: a field path of one name finds the first field with that name,
/// whatever its value, `null` included: it is not missing.
pub proof fn lemma_present_field_is_not_missing(
    fields: Seq<(Seq<char>, DocumentModel)>,
    name: Seq<char>,
    i: int,
)
    requires
        0 <= i < fields.len(),
        fields[i].0 == name,
        forall|j: int| 0 <= j < i ==> #[trigger] fields[j].0 != name,
    ensures
        field_value(fields, seq![name]) == (document_json(fields[i].1), false),
{
    lemma_lookup_first(fields, name, i);
    assert(seq![name][0] == name);
}

/// Law: a field path of one name is missing where no field has that name.
pub proof fn lemma_absent_field_is_missing(fields: Seq<(Seq<char>, DocumentModel)>, name: Seq<char>)
    requires
        forall|j: int| 0 <= j < fields.len() ==> #[trigger] fields[j].0 != name,
    ensures
        field_value(fields, seq![name]) == (JsonModel::Null, true),
    decreases fields.len(),
{
    lemma_lookup_absent(fields, name);
    assert(seq![name][0] == name);
}

proof fn lemma_lookup_first(fields: Seq<(Seq<char>, DocumentModel)>, name: Seq<char>, i: int)
    requires
        0 <= i < fields.len(),
        fields[i].0 == name,
        forall|j: int| 0 <= j < i ==> #[trigger] fields[j].0 != name,
    ensures
        field_lookup(fields, name) == Some(fields[i].1),
    decreases i,
{
    if i > 0 {
        let rest = fields.drop_first();
        assert forall|j: int| 0 <= j < i - 1 implies #[trigger] rest[j].0 != name by {
            assert(rest[j] == fields[j + 1]);
        }
        assert(fields[0].0 != name);
        lemma_lookup_first(rest, name, i - 1);
    }
}

proof fn lemma_lookup_absent(fields: Seq<(Seq<char>, DocumentModel)>, name: Seq<char>)
    requires
        forall|j: int| 0 <= j < fields.len() ==> #[trigger] fields[j].0 != name,
    ensures
        field_lookup(fields, name) is None,
    decreases fields.len(),
{
    if fields.len() > 0 {
        let rest = fields.drop_first();
        assert forall|j: int| 0 <= j < rest.len() implies #[trigger] rest[j].0 != name by {
            assert(rest[j] == fields[j + 1]);
        }
        assert(fields[0].0 != name);
        lemma_lookup_absent(rest, name);
    }
}

} // verus!
