use vstd::prelude::*;
use crate::error::{MigrationError, MigrationErrorModel};

verus! {

/// The longest identifier, in characters.
pub const MAX_IDENTIFIER_LEN: usize = 64;

/// A character that may start an identifier: an ASCII letter or an underscore.
pub open spec fn is_identifier_start(c: char) -> bool {
    ('a' <= c && c <= 'z') || ('A' <= c && c <= 'Z') || c == '_'
}

/// A character that may continue an identifier: an ASCII letter, digit or underscore.
pub open spec fn is_identifier_char(c: char) -> bool {
    is_identifier_start(c) || ('0' <= c && c <= '9')
}

/// An identifier: between 1 and 64 characters, starting with a letter or an
/// underscore and going on with letters, digits and underscores.
pub open spec fn valid_identifier(s: Seq<char>) -> bool {
    &&& 0 < s.len() <= MAX_IDENTIFIER_LEN
    &&& is_identifier_start(s[0])
    &&& forall|i: int| 1 <= i < s.len() ==> is_identifier_char(#[trigger] s[i])
}

/// Whether `s` is an identifier.
pub fn is_valid_identifier(s: &str) -> (valid: bool)
    ensures
        valid == valid_identifier(s@),
{
    let n = s.unicode_len();
    if n == 0 || n > MAX_IDENTIFIER_LEN {
        return false;
    }
    let first = s.get_char(0);
    if !(('a' <= first && first <= 'z') || ('A' <= first && first <= 'Z') || first == '_') {
        return false;
    }
    let mut i: usize = 1;
    while i < n
        invariant
            n == s@.len(),
            1 <= i <= n,
            forall|j: int| 1 <= j < i ==> is_identifier_char(#[trigger] s@[j]),
        decreases n - i,
    {
        let c = s.get_char(i);
        if !(('a' <= c && c <= 'z') || ('A' <= c && c <= 'Z') || c == '_' || ('0' <= c && c
            <= '9')) {
            return false;
        }
        i = i + 1;
    }
    true
}

/// The pieces of `s` between its dots, as `str::split('.')` gives them: one
/// more piece than there are dots, empty pieces included.
pub open spec fn split_dots(s: Seq<char>) -> Seq<Seq<char>>
    decreases s.len(),
{
    if s.len() == 0 {
        seq![Seq::<char>::empty()]
    } else {
        let prev = split_dots(s.drop_last());
        if s.last() == '.' {
            prev.push(Seq::empty())
        } else {
            prev.update(prev.len() - 1, prev.last().push(s.last()))
        }
    }
}

/// Splitting always gives at least one piece.
pub proof fn lemma_split_dots_nonempty(s: Seq<char>)
    ensures
        split_dots(s).len() >= 1,
    decreases s.len(),
{
    if s.len() > 0 {
        lemma_split_dots_nonempty(s.drop_last());
    }
}

/// The pieces joined back together, with a dot between each two.
pub open spec fn join_dots(pieces: Seq<Seq<char>>) -> Seq<char>
    decreases pieces.len(),
{
    if pieces.len() == 0 {
        Seq::empty()
    } else if pieces.len() == 1 {
        pieces[0]
    } else {
        join_dots(pieces.drop_last()) + seq!['.'] + pieces.last()
    }
}

/// Law: the pieces between the dots hold no dot, and joining them back with
/// dots gives the text again.
pub proof fn lemma_split_dots_inverts_join(s: Seq<char>)
    ensures
        join_dots(split_dots(s)) == s,
        forall|i: int, j: int|
            0 <= i < split_dots(s).len() && 0 <= j < split_dots(s)[i].len() ==> split_dots(
                s,
            )[i][j] != '.',
    decreases s.len(),
{
    if s.len() > 0 {
        let prev = split_dots(s.drop_last());
        lemma_split_dots_inverts_join(s.drop_last());
        lemma_split_dots_nonempty(s.drop_last());
        let c = s.last();
        if c == '.' {
            let next = prev.push(Seq::<char>::empty());
            assert(next.drop_last() =~= prev);
            assert(next.len() >= 2);
            assert(join_dots(next) == join_dots(prev) + seq!['.'] + Seq::<char>::empty());
            assert(s =~= s.drop_last() + seq!['.']);
            assert(join_dots(prev) == s.drop_last());
            assert(s.drop_last() + seq!['.'] + Seq::<char>::empty() =~= s.drop_last() + seq!['.']);
            assert(join_dots(next) == s);
            assert forall|i: int, j: int|
                0 <= i < next.len() && 0 <= j < next[i].len() implies next[i][j] != '.' by {
                if i < prev.len() {
                    assert(next[i] == prev[i]);
                }
            }
        } else {
            let next = prev.update(prev.len() - 1, prev.last().push(c));
            if prev.len() == 1 {
                assert(join_dots(next) =~= s);
            } else {
                assert(next.drop_last() =~= prev.drop_last());
                let x = join_dots(prev.drop_last());
                assert(join_dots(prev) == x + seq!['.'] + prev.last());
                assert(next.last() == prev.last().push(c));
                assert(join_dots(next) == x + seq!['.'] + prev.last().push(c));
                assert((x + seq!['.'] + prev.last()).push(c) =~= x + seq!['.'] + prev.last().push(c));
                assert(s =~= s.drop_last().push(c));
                assert(join_dots(next) == s);
            }
            assert forall|i: int, j: int|
                0 <= i < next.len() && 0 <= j < next[i].len() implies next[i][j] != '.' by {
                if i < prev.len() - 1 {
                    assert(next[i] == prev[i]);
                } else if j < prev.last().len() {
                    assert(next[i][j] == prev.last()[j]);
                }
            }
        }
    } else {
        assert(join_dots(split_dots(s)) =~= s);
    }
}

/// The character sequences of a sequence of strings.
pub open spec fn strings_model(v: Seq<String>) -> Seq<Seq<char>> {
    v.map_values(|x: String| x@)
}

/// The pieces of `s` between its dots.
pub fn split_dots_exec(s: &str) -> (parts: Vec<String>)
    ensures
        strings_model(parts@) == split_dots(s@),
{
    let n = s.unicode_len();
    let mut parts: Vec<String> = Vec::new();
    let mut start: usize = 0;
    let mut i: usize = 0;
    proof {
        assert(s@.subrange(0, 0) =~= Seq::<char>::empty());
        assert(strings_model(parts@).push(s@.subrange(0, 0)) =~= seq![Seq::<char>::empty()]);
    }
    while i < n
        invariant
            n == s@.len(),
            start <= i <= n,
            strings_model(parts@).push(s@.subrange(start as int, i as int)) == split_dots(
                s@.subrange(0, i as int),
            ),
        decreases n - i,
    {
        let c = s.get_char(i);
        proof {
            let t = s@.subrange(0, i + 1);
            assert(t.drop_last() =~= s@.subrange(0, i as int));
            assert(t.last() == c);
            lemma_split_dots_nonempty(s@.subrange(0, i as int));
        }
        if c == '.' {
            let piece = s.substring_char(start, i).to_string();
            let ghost before = parts@;
            parts.push(piece);
            proof {
                assert(strings_model(parts@) =~= strings_model(before).push(piece@)) by {
                    assert(parts@ =~= before.push(piece));
                }
            }
            start = i + 1;
            assert(s@.subrange(start as int, (i + 1) as int) =~= Seq::<char>::empty());
        } else {
            assert(s@.subrange(start as int, (i + 1) as int) =~= s@.subrange(
                start as int,
                i as int,
            ).push(c));
        }
        i = i + 1;
    }
    let last = s.substring_char(start, n).to_string();
    let ghost before = parts@;
    parts.push(last);
    proof {
        assert(s@.subrange(0, n as int) =~= s@);
        assert(parts@ =~= before.push(last));
        assert(strings_model(parts@) =~= strings_model(before).push(last@));
    }
    parts
}

/// A field path: identifiers joined by dots.
pub open spec fn valid_field_path(s: Seq<char>) -> bool {
    forall|i: int| 0 <= i < split_dots(s).len() ==> valid_identifier(#[trigger] split_dots(s)[i])
}

/// The identifiers of a field path, or the error that refuses it.
pub fn parse_field_path(path: &str) -> (segments: Result<Vec<String>, MigrationError>)
    ensures
        match segments {
            Ok(parts) => valid_field_path(path@) && strings_model(parts@) == split_dots(path@),
            Err(e) => !valid_field_path(path@) && e@ == (MigrationErrorModel::InvalidIdentifier {
                text: path@,
            }),
        },
{
    let parts = split_dots_exec(path);
    let n = parts.len();
    for i in 0..n
        invariant
            n == parts@.len(),
            strings_model(parts@) == split_dots(path@),
            forall|j: int| 0 <= j < i ==> valid_identifier(#[trigger] split_dots(path@)[j]),
    {
        assert(strings_model(parts@)[i as int] == parts@[i as int]@);
        if !is_valid_identifier(parts[i].as_str()) {
            return Err(MigrationError::InvalidIdentifier { text: path.to_string() });
        }
    }
    Ok(parts)
}

/// The name of a table: always an identifier.
#[derive(Debug, PartialEq, Eq, Hash)]
pub struct TableName {
    name: String,
}

impl TableName {
    /// Every table name is an identifier.
    #[verifier::type_invariant]
    pub open spec fn is_identifier(self) -> bool {
        valid_identifier(self@)
    }
}

impl View for TableName {
    type V = Seq<char>;

    closed spec fn view(&self) -> Seq<char> {
        self.name@
    }
}

impl TableName {
    /// The table name `s`, or the error that refuses it.
    pub fn parse(s: &str) -> (name: Result<TableName, MigrationError>)
        ensures
            match name {
                Ok(t) => valid_identifier(s@) && t@ == s@,
                Err(e) => !valid_identifier(s@) && e@ == (MigrationErrorModel::InvalidIdentifier {
                    text: s@,
                }),
            },
    {
        if is_valid_identifier(s) {
            Ok(TableName { name: s.to_string() })
        } else {
            Err(MigrationError::InvalidIdentifier { text: s.to_string() })
        }
    }

    /// The table name `s`, already known to be an identifier.
    pub fn from_identifier(s: &str) -> (name: TableName)
        requires
            valid_identifier(s@),
        ensures
            name@ == s@,
    {
        TableName { name: s.to_string() }
    }

    /// The name as text.
    pub fn as_str(&self) -> (s: &str)
        ensures
            s@ == self@,
    {
        self.name.as_str()
    }

    /// The name as an owned string.
    pub fn to_string(&self) -> (s: String)
        ensures
            s@ == self@,
    {
        self.name.clone()
    }

    /// Another table name equal to this one.
    pub fn duplicate(&self) -> (copy: TableName)
        ensures
            copy@ == self@,
    {
        proof {
            use_type_invariant(self);
        }
        TableName { name: self.name.clone() }
    }
}

/// Whether two texts are the same characters.
pub fn text_equals(a: &str, b: &str) -> (same: bool)
    ensures
        same == (a@ == b@),
{
    let n = a.unicode_len();
    if n != b.unicode_len() {
        return false;
    }
    let mut i: usize = 0;
    while i < n
        invariant
            n == a@.len(),
            n == b@.len(),
            i <= n,
            forall|j: int| 0 <= j < i ==> a@[j] == b@[j],
        decreases n - i,
    {
        if a.get_char(i) != b.get_char(i) {
            return false;
        }
        i = i + 1;
    }
    assert(a@ =~= b@);
    true
}

/// The fewest characters of a document id.
pub const MIN_DOCUMENT_ID_LEN: usize = 31;

/// The most characters of a document id.
pub const MAX_DOCUMENT_ID_LEN: usize = 37;

/// A character of the base-32 alphabet of document ids: a digit or a
/// lower-case letter other than `i`, `l`, `o` and `u`.
pub open spec fn is_document_id_char(c: char) -> bool {
    ('0' <= c && c <= '9') || ('a' <= c && c <= 'z' && c != 'i' && c != 'l' && c != 'o' && c
        != 'u')
}

/// A document id: between 31 and 37 characters of the base-32 alphabet.
/// This is a check of the text's shape only; the contents it encodes are not
/// checked.
pub open spec fn valid_document_id(s: Seq<char>) -> bool {
    &&& MIN_DOCUMENT_ID_LEN <= s.len() <= MAX_DOCUMENT_ID_LEN
    &&& forall|i: int| 0 <= i < s.len() ==> is_document_id_char(#[trigger] s[i])
}

/// Whether `s` is a document id.
pub fn is_valid_document_id(s: &str) -> (valid: bool)
    ensures
        valid == valid_document_id(s@),
{
    let n = s.unicode_len();
    if n < MIN_DOCUMENT_ID_LEN || n > MAX_DOCUMENT_ID_LEN {
        return false;
    }
    let mut i: usize = 0;
    while i < n
        invariant
            n == s@.len(),
            i <= n,
            forall|j: int| 0 <= j < i ==> is_document_id_char(#[trigger] s@[j]),
        decreases n - i,
    {
        let c = s.get_char(i);
        if !(('0' <= c && c <= '9') || ('a' <= c && c <= 'z' && c != 'i' && c != 'l' && c != 'o'
            && c != 'u')) {
            return false;
        }
        i = i + 1;
    }
    true
}

/// The id of a document, in its text form: always a document id. Only the
/// length and the alphabet of the text are checked; what the text encodes
/// (a table number and a checksum among it) is not decoded here.
#[derive(Debug, PartialEq, Eq, Hash)]
pub struct DocumentId {
    id: String,
}

impl DocumentId {
    /// Every document id is in the id format.
    #[verifier::type_invariant]
    pub open spec fn is_document_id(self) -> bool {
        valid_document_id(self@)
    }
}

impl View for DocumentId {
    type V = Seq<char>;

    closed spec fn view(&self) -> Seq<char> {
        self.id@
    }
}

impl DocumentId {
    /// The document id `s`, or the error that refuses it.
    pub fn parse(s: &str) -> (id: Result<DocumentId, MigrationError>)
        ensures
            match id {
                Ok(d) => valid_document_id(s@) && d@ == s@,
                Err(e) => !valid_document_id(s@) && e@ == (MigrationErrorModel::InvalidDocumentId {
                    text: s@,
                }),
            },
    {
        if is_valid_document_id(s) {
            Ok(DocumentId { id: s.to_string() })
        } else {
            Err(MigrationError::InvalidDocumentId { text: s.to_string() })
        }
    }

    /// The id as text.
    pub fn as_str(&self) -> (s: &str)
        ensures
            s@ == self@,
    {
        self.id.as_str()
    }

    /// The id as an owned string.
    pub fn to_string(&self) -> (s: String)
        ensures
            s@ == self@,
    {
        self.id.clone()
    }

    /// Another id equal to this one.
    pub fn duplicate(&self) -> (copy: DocumentId)
        ensures
            copy@ == self@,
    {
        proof {
            use_type_invariant(self);
        }
        DocumentId { id: self.id.clone() }
    }
}

impl std::str::FromStr for TableName {
    type Err = MigrationError;

    fn from_str(s: &str) -> (name: Result<TableName, MigrationError>)
        ensures
            match name {
                Ok(t) => valid_identifier(s@) && t@ == s@,
                Err(e) => !valid_identifier(s@) && e@ == (MigrationErrorModel::InvalidIdentifier {
                    text: s@,
                }),
            },
    {
        TableName::parse(s)
    }
}

} // verus!
