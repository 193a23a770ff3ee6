use vstd::prelude::*;
use crate::codec::{decode, decoded, is_toml_table, toml_parses};
use crate::error::RepoError;

verus! {

/// An instant in UTC: whole seconds since the Unix epoch and the
/// nanoseconds past that second.
#[derive(Debug, Clone, Copy, PartialEq, Eq, Structural)]
pub struct UtcTime {
    pub seconds: i64,
    pub nanos: u32,
}

/// A value of the front matter as the mapper reads it.
pub enum FieldModel {
    Absent,
    Text(Seq<char>),
    Flag(bool),
    List(Seq<Option<Seq<char>>>),
    Other,
}

/// The value stored under a key of a front matter block: absent, a string, a
/// boolean, an array (each item a string or not), or anything else.
#[derive(Debug, Clone)]
pub enum FieldValue {
    Absent,
    Text(String),
    Flag(bool),
    List(Vec<Option<String>>),
    Other,
}

pub open spec fn opt_text(o: Option<String>) -> Option<Seq<char>> {
    match o {
        Some(s) => Some(s@),
        None => None,
    }
}

impl FieldValue {
    pub open spec fn model(&self) -> FieldModel {
        match self {
            FieldValue::Absent => FieldModel::Absent,
            FieldValue::Text(s) => FieldModel::Text(s@),
            FieldValue::Flag(b) => FieldModel::Flag(*b),
            FieldValue::List(items) => FieldModel::List(items@.map_values(|o: Option<String>| opt_text(o))),
            FieldValue::Other => FieldModel::Other,
        }
    }
}

/// What `toml::from_str` into a table, then a lookup of `key`, finds in `fm`.
pub uninterp spec fn toml_value_at(fm: Seq<char>, key: Seq<char>) -> FieldModel;

/// What chrono reads from `s` as a `DateTime<Utc>`.
pub uninterp spec fn utc_instant(s: Seq<char>) -> Option<UtcTime>;

/// Relies on `toml::from_str` into a `toml::Table` and on `Table::get`: the
/// value stored under `key`, told apart by its kind; `None` when the text is
/// no TOML table.
#[verifier::external_body]
fn toml_field(front_matter: &str, key: &str) -> (r: Option<FieldValue>)
    ensures
        r is Some == toml_parses(front_matter@),
        r matches Some(v) ==> v.model() == toml_value_at(front_matter@, key@),
{
    let table = toml::from_str::<toml::Table>(front_matter).ok()?;
    Some(match table.get(key) {
        None => FieldValue::Absent,
        Some(toml::Value::String(s)) => FieldValue::Text(s.clone()),
        Some(toml::Value::Boolean(b)) => FieldValue::Flag(*b),
        Some(toml::Value::Array(items)) => FieldValue::List(
            items.iter().map(|i| i.as_str().map(String::from)).collect(),
        ),
        Some(_) => FieldValue::Other,
    })
}

/// Relies on chrono's `FromStr` for `DateTime<Utc>` (RFC 3339, the offset
/// converted to UTC): the instant as seconds since the epoch and nanoseconds.
#[verifier::external_body]
fn parse_utc(s: &str) -> (r: Option<UtcTime>)
    ensures
        r == utc_instant(s@),
{
    s.parse::<chrono::DateTime<chrono::Utc>>().ok().map(
        |d| UtcTime { seconds: d.timestamp(), nanos: d.timestamp_subsec_nanos() },
    )
}

/// A post: its path under the content root, its front matter fields and its
/// body.
#[derive(Debug, Clone)]
pub struct Post {
    pub relative_path: String,
    pub tags: Option<Vec<String>>,
    pub title: String,
    pub description: Option<String>,
    pub draft: Option<bool>,
    pub content: String,
    pub date: Option<UtcTime>,
}

/// The fields of a post as values.
pub struct PostModel {
    pub relative_path: Seq<char>,
    pub tags: Option<Seq<Seq<char>>>,
    pub title: Seq<char>,
    pub description: Option<Seq<char>>,
    pub draft: Option<bool>,
    pub content: Seq<char>,
    pub date: Option<UtcTime>,
}

pub open spec fn texts_view(v: Vec<String>) -> Seq<Seq<char>> {
    v@.map_values(|s: String| s@)
}

impl View for Post {
    type V = PostModel;

    open spec fn view(&self) -> PostModel {
        PostModel {
            relative_path: self.relative_path@,
            tags: match self.tags {
                Some(v) => Some(texts_view(v)),
                None => None,
            },
            title: self.title@,
            description: opt_text(self.description),
            draft: self.draft,
            content: self.content@,
            date: self.date,
        }
    }
}

/// A string field: absent, or a string.
pub open spec fn text_field(m: FieldModel) -> Option<Option<Seq<char>>> {
    match m {
        FieldModel::Absent => Some(None),
        FieldModel::Text(s) => Some(Some(s)),
        _ => None,
    }
}

/// A boolean field: absent, or a boolean.
pub open spec fn flag_field(m: FieldModel) -> Option<Option<bool>> {
    match m {
        FieldModel::Absent => Some(None),
        FieldModel::Flag(b) => Some(Some(b)),
        _ => None,
    }
}

/// A list of strings: absent, or an array whose items are all strings.
pub open spec fn list_field(m: FieldModel) -> Option<Option<Seq<Seq<char>>>> {
    match m {
        FieldModel::Absent => Some(None),
        FieldModel::List(items) => if forall|k: int| 0 <= k < items.len() ==> items[k] is Some {
            Some(Some(items.map_values(|o: Option<Seq<char>>| o.unwrap())))
        } else {
            None
        },
        _ => None,
    }
}

/// A timestamp: absent, or a string that chrono reads as an instant.
pub open spec fn date_field(m: FieldModel) -> Option<Option<UtcTime>> {
    match m {
        FieldModel::Absent => Some(None),
        FieldModel::Text(s) => match utc_instant(s) {
            Some(t) => Some(Some(t)),
            None => None,
        },
        _ => None,
    }
}

pub open spec fn field(fm: Seq<char>, key: Seq<char>) -> FieldModel {
    toml_value_at(fm, key)
}

/// The post that a front matter block and a body describe, or `None` when
/// `title` is missing or a field has the wrong type.
pub open spec fn post_of(rel: Seq<char>, fm: Seq<char>, body: Seq<char>) -> Option<PostModel> {
    let title = text_field(field(fm, "title"@));
    let description = text_field(field(fm, "description"@));
    let tags = list_field(field(fm, "tags"@));
    let draft = flag_field(field(fm, "draft"@));
    let date = date_field(field(fm, "date"@));
    if title matches Some(Some(_)) && description is Some && tags is Some && draft is Some
        && date is Some {
        Some(
            PostModel {
                relative_path: rel,
                tags: tags.unwrap(),
                title: title.unwrap().unwrap(),
                description: description.unwrap(),
                draft: draft.unwrap(),
                content: body,
                date: date.unwrap(),
            },
        )
    } else {
        None
    }
}

/// What mapping a front matter block and a body gives.
pub open spec fn mapped(rel: Seq<char>, fm: Seq<char>, body: Seq<char>) -> Result<
    PostModel,
    RepoError,
> {
    if !toml_parses(fm) {
        Err(RepoError::MalformedDocument)
    } else {
        match post_of(rel, fm, body) {
            Some(p) => Ok(p),
            None => Err(RepoError::SchemaMismatch),
        }
    }
}

/// What loading the text of a post gives: decode, then map.
pub open spec fn loaded(rel: Seq<char>, raw: Seq<char>) -> Result<PostModel, RepoError> {
    match decoded(raw) {
        Some((fm, body)) => mapped(rel, fm, body),
        None => Err(RepoError::MalformedDocument),
    }
}

pub open spec fn result_view(r: Result<Post, RepoError>) -> Result<PostModel, RepoError> {
    match r {
        Ok(p) => Ok(p@),
        Err(e) => Err(e),
    }
}

/// A string field of `fm`.
fn read_text(fm: &str, key: &str) -> (r: Result<Option<String>, RepoError>)
    requires
        toml_parses(fm@),
    ensures
        match r {
            Ok(o) => text_field(field(fm@, key@)) == Some(opt_text(o)),
            Err(e) => text_field(field(fm@, key@)) is None && e == RepoError::SchemaMismatch,
        },
{
    match toml_field(fm, key) {
        Some(FieldValue::Absent) => Ok(None),
        Some(FieldValue::Text(s)) => Ok(Some(s)),
        _ => Err(RepoError::SchemaMismatch),
    }
}

/// A boolean field of `fm`.
fn read_flag(fm: &str, key: &str) -> (r: Result<Option<bool>, RepoError>)
    requires
        toml_parses(fm@),
    ensures
        match r {
            Ok(o) => flag_field(field(fm@, key@)) == Some(o),
            Err(e) => flag_field(field(fm@, key@)) is None && e == RepoError::SchemaMismatch,
        },
{
    match toml_field(fm, key) {
        Some(FieldValue::Absent) => Ok(None),
        Some(FieldValue::Flag(b)) => Ok(Some(b)),
        _ => Err(RepoError::SchemaMismatch),
    }
}

/// The items of an array that are all strings.
fn all_texts(items: Vec<Option<String>>) -> (r: Option<Vec<String>>)
    ensures
        ({
            let m = items@.map_values(|o: Option<String>| opt_text(o));
            match r {
                Some(v) => (forall|k: int| 0 <= k < m.len() ==> m[k] is Some) && texts_view(v)
                    == m.map_values(|o: Option<Seq<char>>| o.unwrap()),
                None => !(forall|k: int| 0 <= k < m.len() ==> m[k] is Some),
            }
        }),
{
    let ghost m = items@.map_values(|o: Option<String>| opt_text(o));
    let mut out: Vec<String> = Vec::new();
    let mut i: usize = 0;
    while i < items.len()
        invariant
            i <= items@.len(),
            m == items@.map_values(|o: Option<String>| opt_text(o)),
            out@.len() == i,
            forall|k: int| 0 <= k < i ==> m[k] is Some,
            forall|k: int| 0 <= k < i ==> #[trigger] out@[k]@ == m[k].unwrap(),
        decreases items@.len() - i,
    {
        match &items[i] {
            Some(s) => {
                out.push(s.clone());
            },
            None => {
                assert(m[i as int] is None);
                return None;
            },
        }
        i = i + 1;
    }
    assert(texts_view(out) =~= m.map_values(|o: Option<Seq<char>>| o.unwrap()));
    Some(out)
}

/// A field of `fm` that holds a list of strings.
fn read_list(fm: &str, key: &str) -> (r: Result<Option<Vec<String>>, RepoError>)
    requires
        toml_parses(fm@),
    ensures
        match r {
            Ok(Some(v)) => list_field(field(fm@, key@)) == Some(Some(texts_view(v))),
            Ok(None) => list_field(field(fm@, key@)) == Some(None::<Seq<Seq<char>>>),
            Err(e) => list_field(field(fm@, key@)) is None && e == RepoError::SchemaMismatch,
        },
{
    match toml_field(fm, key) {
        Some(FieldValue::Absent) => Ok(None),
        Some(FieldValue::List(items)) => match all_texts(items) {
            Some(v) => Ok(Some(v)),
            None => Err(RepoError::SchemaMismatch),
        },
        _ => Err(RepoError::SchemaMismatch),
    }
}

/// A timestamp field of `fm`.
fn read_date(fm: &str, key: &str) -> (r: Result<Option<UtcTime>, RepoError>)
    requires
        toml_parses(fm@),
    ensures
        match r {
            Ok(o) => date_field(field(fm@, key@)) == Some(o),
            Err(e) => date_field(field(fm@, key@)) is None && e == RepoError::SchemaMismatch,
        },
{
    match toml_field(fm, key) {
        Some(FieldValue::Absent) => Ok(None),
        Some(FieldValue::Text(s)) => match parse_utc(s.as_str()) {
            Some(t) => Ok(Some(t)),
            None => Err(RepoError::SchemaMismatch),
        },
        _ => Err(RepoError::SchemaMismatch),
    }
}

/// Builds the post that a front matter block and a body describe.
pub fn from_document(relative_path: String, front_matter: &str, body: String) -> (r: Result<
    Post,
    RepoError,
>)
    ensures
        result_view(r) == mapped(relative_path@, front_matter@, body@),
{
    if !is_toml_table(front_matter) {
        return Err(RepoError::MalformedDocument);
    }
    let title = read_text(front_matter, "title")?;
    let description = read_text(front_matter, "description")?;
    let tags = read_list(front_matter, "tags")?;
    let draft = read_flag(front_matter, "draft")?;
    let date = read_date(front_matter, "date")?;
    match title {
        Some(title) => Ok(
            Post { relative_path, tags, title, description, draft, content: body, date },
        ),
        None => Err(RepoError::SchemaMismatch),
    }
}

/// Loads a post from the text of its file: decodes it, then maps it.
pub fn load_post(relative_path: &str, raw: &str) -> (r: Result<Post, RepoError>)
    ensures
        result_view(r) == loaded(relative_path@, raw@),
{
    let doc = decode(raw)?;
    from_document(relative_path.to_string(), doc.front_matter.as_str(), doc.body)
}

} // verus!
