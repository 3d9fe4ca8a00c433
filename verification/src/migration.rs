use vstd::prelude::*;
use vstd::utf8::encode_utf8;
use sha2::Digest;
use crate::ident::TableName;
use crate::json::{Json, JsonModel};

verus! {

/// What a migration rewrites: one field of each document, or whole documents.
#[derive(Clone, Copy, Debug, PartialEq, Eq, Structural)]
pub enum SchemaMigrationScope {
    Field,
    Table,
}

/// A migration declared by a schema: a handler that rewrites the documents
/// of a table, or one field of them.
#[derive(Debug)]
pub struct SchemaMigration {
    pub id: String,
    pub table_name: TableName,
    pub scope: SchemaMigrationScope,
    pub field_path: Option<String>,
    /// The validator that the migrated values must meet, in its JSON form.
    pub target_validator: Option<Json>,
    pub handler_index: usize,
    pub handler_source: String,
    pub handler_hash: String,
}

/// The model of a [`SchemaMigration`].
pub ghost struct SchemaMigrationModel {
    pub id: Seq<char>,
    pub table_name: Seq<char>,
    pub scope: SchemaMigrationScope,
    pub field_path: Option<Seq<char>>,
    pub target_validator: Option<JsonModel>,
    pub handler_index: usize,
    pub handler_source: Seq<char>,
    pub handler_hash: Seq<char>,
}

/// The characters of an optional string.
pub open spec fn opt_string_model(s: Option<String>) -> Option<Seq<char>> {
    match s {
        Some(v) => Some(v@),
        None => None,
    }
}

/// The model of an optional JSON value.
pub open spec fn opt_json_model(j: Option<Json>) -> Option<JsonModel> {
    match j {
        Some(v) => Some(v@),
        None => None,
    }
}

impl View for SchemaMigration {
    type V = SchemaMigrationModel;

    open spec fn view(&self) -> SchemaMigrationModel {
        SchemaMigrationModel {
            id: self.id@,
            table_name: self.table_name@,
            scope: self.scope,
            field_path: opt_string_model(self.field_path),
            target_validator: opt_json_model(self.target_validator),
            handler_index: self.handler_index,
            handler_source: self.handler_source@,
            handler_hash: self.handler_hash@,
        }
    }
}

/// The SHA-256 digest of `data`.
pub uninterp spec fn sha256_digest(data: Seq<u8>) -> Seq<u8>;

/// Calls `sha2::Sha256::digest`; the contract claims that the digest it
/// returns is the one named `sha256_digest` of the bytes it was given, and
/// that it is 32 bytes long, the output size of SHA-256.
#[verifier::external_body]
fn sha256(data: &[u8]) -> (digest: Vec<u8>)
    ensures
        digest@ == sha256_digest(data@),
        digest@.len() == 32,
{
    sha2::Sha256::digest(data).to_vec()
}

/// The sixteen digits of lower-case hexadecimal.
pub const HEX_DIGITS: &'static str = "0123456789abcdef";

/// The lower-case hexadecimal digit of `n`, for `n` below 16.
pub open spec fn hex_digit(n: int) -> char {
    HEX_DIGITS@[n]
}

/// The lower-case hexadecimal text of `bytes`: two digits per byte, high
/// nibble first.
pub open spec fn hex_lower(bytes: Seq<u8>) -> Seq<char>
    decreases bytes.len(),
{
    if bytes.len() == 0 {
        Seq::empty()
    } else {
        hex_lower(bytes.drop_last()) + seq![
            hex_digit(bytes.last() as int / 16),
            hex_digit(bytes.last() as int % 16),
        ]
    }
}

/// A lower-case hexadecimal digit.
pub open spec fn is_hex_digit(c: char) -> bool {
    ('0' <= c && c <= '9') || ('a' <= c && c <= 'f')
}

/// The hexadecimal text has two digits per byte, each a lower-case
/// hexadecimal digit.
pub proof fn lemma_hex_lower_shape(bytes: Seq<u8>)
    ensures
        hex_lower(bytes).len() == 2 * bytes.len(),
        forall|i: int| 0 <= i < hex_lower(bytes).len() ==> is_hex_digit(#[trigger] hex_lower(bytes)[i]),
    decreases bytes.len(),
{
    reveal_strlit("0123456789abcdef");
    if bytes.len() > 0 {
        lemma_hex_lower_shape(bytes.drop_last());
        let b = bytes.last();
        assert(b as int / 16 < 16);
        assert(b as int % 16 < 16);
        assert forall|k: int| 0 <= k < 16 implies is_hex_digit(#[trigger] HEX_DIGITS@[k]) by {
        }
    }
}

/// Law: the digit of a nibble below ten is the decimal digit, and the digit
/// of a nibble from ten to fifteen is a lower-case letter from `a` to `f`.
pub proof fn lemma_hex_digit_values()
    ensures
        forall|n: int|
            0 <= n < 16 ==> #[trigger] hex_digit(n) as int == if n < 10 {
                '0' as int + n
            } else {
                'a' as int + n - 10
            },
{
    reveal_strlit("0123456789abcdef");
    assert forall|n: int| 0 <= n < 16 implies #[trigger] hex_digit(n) as int == if n < 10 {
        '0' as int + n
    } else {
        'a' as int + n - 10
    } by {
        if n == 0 {} else if n == 1 {} else if n == 2 {} else if n == 3 {} else if n == 4 {}
        else if n == 5 {} else if n == 6 {} else if n == 7 {} else if n == 8 {} else if n == 9 {}
        else if n == 10 {} else if n == 11 {} else if n == 12 {} else if n == 13 {}
        else if n == 14 {} else {}
    }
}

/// Law: byte `i` of the input gives digits `2i` and `2i + 1` of the text:
/// its high nibble, then its low nibble.
pub proof fn lemma_hex_lower_digits(bytes: Seq<u8>)
    ensures
        hex_lower(bytes).len() == 2 * bytes.len(),
        forall|i: int|
            0 <= i < bytes.len() ==> hex_lower(bytes)[2 * i] == hex_digit(#[trigger] bytes[i] as int
                / 16) && hex_lower(bytes)[2 * i + 1] == hex_digit(bytes[i] as int % 16),
    decreases bytes.len(),
{
    if bytes.len() > 0 {
        let rest = bytes.drop_last();
        lemma_hex_lower_digits(rest);
        assert forall|i: int| 0 <= i < bytes.len() implies hex_lower(bytes)[2 * i] == hex_digit(
            #[trigger] bytes[i] as int / 16,
        ) && hex_lower(bytes)[2 * i + 1] == hex_digit(bytes[i] as int % 16) by {
            if i < rest.len() {
                assert(bytes[i] == rest[i]);
            }
        }
    }
}

/// The lower-case hexadecimal text of `bytes`.
pub fn encode_hex_lower(bytes: &[u8]) -> (text: String)
    ensures
        text@ == hex_lower(bytes@),
{
    proof {
        reveal_strlit("0123456789abcdef");
    }
    let mut text = String::new();
    let n = bytes.len();
    assert(bytes@.subrange(0, 0) =~= Seq::<u8>::empty());
    for i in 0..n
        invariant
            n == bytes@.len(),
            HEX_DIGITS@.len() == 16,
            text@ == hex_lower(bytes@.subrange(0, i as int)),
    {
        let b = bytes[i];
        let hi = (b / 16) as usize;
        let lo = (b % 16) as usize;
        let hi_digit = HEX_DIGITS.substring_char(hi, hi + 1);
        let lo_digit = HEX_DIGITS.substring_char(lo, lo + 1);
        text.append(hi_digit);
        text.append(lo_digit);
        proof {
            let prefix = bytes@.subrange(0, i + 1);
            assert(prefix.drop_last() =~= bytes@.subrange(0, i as int));
            assert(prefix.last() == b);
            assert(hi_digit@ =~= seq![hex_digit(b as int / 16)]);
            assert(lo_digit@ =~= seq![hex_digit(b as int % 16)]);
            assert(text@ =~= hex_lower(prefix));
        }
    }
    assert(bytes@.subrange(0, n as int) =~= bytes@);
    text
}

/// The hash that identifies the code of a migration handler: the lower-case
/// hexadecimal SHA-256 digest of its source's UTF-8 bytes.
pub open spec fn handler_hash_of(source: Seq<char>) -> Seq<char> {
    hex_lower(sha256_digest(encode_utf8(source)))
}

/// A copy of an optional string.
pub fn clone_opt_string(s: &Option<String>) -> (copy: Option<String>)
    ensures
        opt_string_model(copy) == opt_string_model(*s),
{
    match s {
        Some(v) => Some(v.clone()),
        None => None,
    }
}

/// A copy of an optional JSON value.
pub fn clone_opt_json(j: &Option<Json>) -> (copy: Option<Json>)
    ensures
        opt_json_model(copy) == opt_json_model(*j),
{
    match j {
        Some(v) => Some(v.duplicate()),
        None => None,
    }
}

impl SchemaMigration {
    /// A migration with the given parts, whose handler hash is computed from
    /// its handler source.
    pub fn new(
        id: String,
        table_name: TableName,
        scope: SchemaMigrationScope,
        field_path: Option<String>,
        target_validator: Option<Json>,
        handler_index: usize,
        handler_source: String,
    ) -> (migration: Self)
        ensures
            migration@ == (SchemaMigrationModel {
                id: id@,
                table_name: table_name@,
                scope,
                field_path: opt_string_model(field_path),
                target_validator: opt_json_model(target_validator),
                handler_index,
                handler_source: handler_source@,
                handler_hash: handler_hash_of(handler_source@),
            }),
            migration.handler_hash@.len() == 64,
            forall|i: int|
                0 <= i < migration.handler_hash@.len() ==> is_hex_digit(
                    #[trigger] migration.handler_hash@[i],
                ),
    {
        let digest = sha256(handler_source.as_str().as_bytes());
        proof {
            lemma_hex_lower_shape(digest@);
        }
        let handler_hash = encode_hex_lower(digest.as_slice());
        SchemaMigration {
            id,
            table_name,
            scope,
            field_path,
            target_validator,
            handler_index,
            handler_source,
            handler_hash,
        }
    }

    /// Another migration equal to this one.
    pub fn duplicate(&self) -> (copy: Self)
        ensures
            copy@ == self@,
    {
        SchemaMigration {
            id: self.id.clone(),
            table_name: self.table_name.duplicate(),
            scope: self.scope,
            field_path: clone_opt_string(&self.field_path),
            target_validator: clone_opt_json(&self.target_validator),
            handler_index: self.handler_index,
            handler_source: self.handler_source.clone(),
            handler_hash: self.handler_hash.clone(),
        }
    }
}

/// Law: migrations built from the same handler source carry the same handler
/// hash, whatever else differs between them.
pub proof fn lemma_handler_hash_depends_only_on_source(a: SchemaMigrationModel, b: SchemaMigrationModel)
    requires
        a.handler_hash == handler_hash_of(a.handler_source),
        b.handler_hash == handler_hash_of(b.handler_source),
        a.handler_source == b.handler_source,
    ensures
        a.handler_hash == b.handler_hash,
{
}

} // verus!
