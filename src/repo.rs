use vstd::prelude::*;
use crate::codec::{decode, decoded, encode, lemma_new_body_decodes, lemma_with_body_idempotent, with_body};
use crate::error::RepoError;
use crate::post::{load_post, loaded, opt_text, result_view, Post, PostModel};
use crate::text::{concat, path_under, relative_to};

verus! {

/// A file that the scan found: its full path, and its text when it could be
/// read.
#[derive(Debug, Clone)]
pub struct ScanEntry {
    pub path: String,
    pub text: Option<String>,
}

/// The post that a scanned file gives, if its path lies under the root and
/// its text loads.
pub open spec fn entry_post(root: Seq<char>, e: ScanEntry) -> Option<PostModel> {
    match (path_under(root, e.path@), e.text) {
        (Some(rel), Some(raw)) => match loaded(rel, raw@) {
            Ok(p) => Some(p),
            Err(_) => None,
        },
        _ => None,
    }
}

/// The posts of the files that load, in the order they were found.
pub open spec fn scanned(root: Seq<char>, entries: Seq<ScanEntry>) -> Seq<PostModel> {
    entries.filter_map(|e: ScanEntry| entry_post(root, e))
}

pub open spec fn posts_view(v: Seq<Post>) -> Seq<PostModel> {
    v.map_values(|p: Post| p@)
}

/// Loads one file that the scan found; `None` on any failure.
pub fn load_entry(root: &str, entry: &ScanEntry) -> (r: Option<Post>)
    ensures
        match r {
            Some(p) => entry_post(root@, *entry) == Some(p@),
            None => entry_post(root@, *entry) is None,
        },
{
    let rel = relative_to(root, entry.path.as_str())?;
    match &entry.text {
        Some(raw) => match load_post(rel.as_str(), raw.as_str()) {
            Ok(p) => Some(p),
            Err(_) => None,
        },
        None => None,
    }
}

/// The posts of the scanned files under `root`. A file that cannot be read,
/// decoded or mapped is skipped.
pub fn scan(root: &str, entries: &Vec<ScanEntry>) -> (r: Vec<Post>)
    ensures
        posts_view(r@) == scanned(root@, entries@),
{
    let mut out: Vec<Post> = Vec::new();
    let mut i: usize = 0;
    while i < entries.len()
        invariant
            i <= entries@.len(),
            posts_view(out@) == scanned(root@, entries@.subrange(0, i as int)),
        decreases entries@.len() - i,
    {
        let found = load_entry(root, &entries[i]);
        let ghost prefix = entries@.subrange(0, i as int + 1);
        assert(prefix.drop_last() =~= entries@.subrange(0, i as int));
        assert(prefix.last() == entries@[i as int]);
        match found {
            Some(p) => {
                out.push(p);
                assert(posts_view(out@) =~= scanned(root@, prefix));
            },
            None => {},
        }
        i = i + 1;
    }
    assert(entries@.subrange(0, i as int) =~= entries@);
    out
}

/// Whether a scanned file loads.
pub open spec fn loads(root: Seq<char>, e: ScanEntry) -> bool {
    entry_post(root, e) is Some
}

/// A scan yields exactly one post for each file that loads and none for the
/// others, so files with malformed front matter only drop out.
pub proof fn lemma_scan_count(root: Seq<char>, entries: Seq<ScanEntry>)
    ensures
        scanned(root, entries).len() == entries.filter(|e: ScanEntry| loads(root, e)).len(),
    decreases entries.len(),
{
    reveal(Seq::filter);
    if entries.len() > 0 {
        lemma_scan_count(root, entries.drop_last());
    }
}

/// The text that replaces the post's file: its front matter as it stood,
/// over the new content.
pub open spec fn update_plan(source: Option<Seq<char>>, new_content: Seq<char>) -> Result<
    Seq<char>,
    RepoError,
> {
    match source {
        None => Err(RepoError::SourceUnreadable),
        Some(raw) => match with_body(raw, new_content) {
            Some(t) => Ok(t),
            None => Err(RepoError::MalformedDocument),
        },
    }
}

/// The text to write back for an update: `source` is the file's text, or
/// `None` when it could not be read. The front matter block is kept as it
/// stands; only the body becomes `new_content`.
pub fn plan_update(source: Option<String>, new_content: &str) -> (r: Result<String, RepoError>)
    ensures
        match r {
            Ok(t) => update_plan(opt_text(source), new_content@) == Ok::<Seq<char>, RepoError>(t@),
            Err(e) => update_plan(opt_text(source), new_content@) == Err::<Seq<char>, RepoError>(e),
        },
{
    match source {
        None => Err(RepoError::SourceUnreadable),
        Some(raw) => {
            let doc = decode(raw.as_str())?;
            Ok(encode(doc.front_matter.as_str(), new_content))
        },
    }
}

/// What an update returns once its text was written (or not) and the file
/// was read back (or could not be).
pub open spec fn update_result(
    rel: Seq<char>,
    written: bool,
    reloaded: Option<Seq<char>>,
) -> Result<PostModel, RepoError> {
    if !written {
        Err(RepoError::WriteFailure)
    } else {
        match reloaded {
            Some(raw) => match loaded(rel, raw) {
                Ok(p) => Ok(p),
                Err(_) => Err(RepoError::PostVanishedAfterWrite),
            },
            None => Err(RepoError::PostVanishedAfterWrite),
        }
    }
}

/// The result of an update: `written` says whether the new text was
/// written, `reloaded` is the file's text read again after that. Only a
/// post read back from the file is returned.
pub fn finish_update(relative_path: &str, written: bool, reloaded: Option<String>) -> (r: Result<
    Post,
    RepoError,
>)
    ensures
        result_view(r) == update_result(relative_path@, written, opt_text(reloaded)),
{
    if !written {
        return Err(RepoError::WriteFailure);
    }
    match reloaded {
        Some(raw) => match load_post(relative_path, raw.as_str()) {
            Ok(p) => Ok(p),
            Err(_) => Err(RepoError::PostVanishedAfterWrite),
        },
        None => Err(RepoError::PostVanishedAfterWrite),
    }
}

/// An update keeps the front matter: once its text is written and read back,
/// the post has the title, tags, description, draft flag and date it had
/// before, and the new content.
pub proof fn lemma_update_keeps_front_matter(rel: Seq<char>, raw: Seq<char>, x: Seq<char>)
    requires
        loaded(rel, raw) is Ok,
    ensures
        update_plan(Some(raw), x) is Ok,
        ({
            let before = loaded(rel, raw)->Ok_0;
            let after = update_result(rel, true, Some(update_plan(Some(raw), x)->Ok_0));
            &&& after is Ok
            &&& after->Ok_0.title == before.title
            &&& after->Ok_0.tags == before.tags
            &&& after->Ok_0.description == before.description
            &&& after->Ok_0.draft == before.draft
            &&& after->Ok_0.date == before.date
            &&& after->Ok_0.relative_path == rel
            &&& after->Ok_0.content == x
        }),
{
    lemma_new_body_decodes(raw, x);
}

/// Two updates with the same content write the same text as one, and return
/// the same post.
pub proof fn lemma_update_idempotent(rel: Seq<char>, raw: Seq<char>, x: Seq<char>)
    requires
        decoded(raw) is Some,
    ensures
        update_plan(Some(raw), x) is Ok,
        update_plan(Some(update_plan(Some(raw), x)->Ok_0), x) == update_plan(Some(raw), x),
        update_result(rel, true, Some(update_plan(Some(update_plan(Some(raw), x)->Ok_0), x)->Ok_0))
            == update_result(rel, true, Some(update_plan(Some(raw), x)->Ok_0)),
{
    lemma_new_body_decodes(raw, x);
    lemma_with_body_idempotent(raw, x);
}

/// What `slug::slugify` makes of `s`.
pub uninterp spec fn slug_of(s: Seq<char>) -> Seq<char>;

/// A character that a slug may hold.
pub open spec fn slug_char(c: char) -> bool {
    ('a' <= c && c <= 'z') || ('0' <= c && c <= '9') || c == '-'
}

/// Relies on `slug::slugify`, whose documentation promises a result made of
/// `a-z`, `0-9` and `-`, with no two `-` in a row and none at either end.
#[verifier::external_body]
fn slugify(s: &str) -> (r: String)
    ensures
        r@ == slug_of(s@),
        forall|k: int| 0 <= k < r@.len() ==> slug_char(#[trigger] r@[k]),
        forall|k: int| 0 <= k < r@.len() - 1 ==> !(#[trigger] r@[k] == '-' && r@[k + 1] == '-'),
        r@.len() > 0 ==> r@[0] != '-' && r@[r@.len() - 1] != '-',
{
    slug::slugify(s)
}

/// The slug of a title: lower case letters and digits, runs of anything else
/// turned into one `-`, none at either end.
pub fn to_slug(title: String) -> (r: String)
    ensures
        r@ == slug_of(title@),
        forall|k: int| 0 <= k < r@.len() ==> slug_char(#[trigger] r@[k]),
        r@.len() > 0 ==> r@[0] != '-' && r@[r@.len() - 1] != '-',
{
    slugify(title.as_str())
}

/// The path, under the content root, of the post with the given slug.
pub open spec fn post_path(slug: Seq<char>) -> Seq<char> {
    "content/posts/"@ + slug + ".md"@
}

/// The path of a new post with the given title; a title that holds no
/// letter or digit gives no file name.
pub open spec fn path_for_title(title: Seq<char>) -> Result<Seq<char>, RepoError> {
    if slug_of(title).len() == 0 {
        Err(RepoError::EmptySlug)
    } else {
        Ok(post_path(slug_of(title)))
    }
}

/// The relative path under which a post with this title is created.
pub fn new_post_path(title: &str) -> (r: Result<String, RepoError>)
    ensures
        match r {
            Ok(p) => path_for_title(title@) == Ok::<Seq<char>, RepoError>(p@),
            Err(e) => path_for_title(title@) == Err::<Seq<char>, RepoError>(e),
        },
{
    let slug = to_slug(title.to_string());
    if slug.as_str().is_empty() {
        return Err(RepoError::EmptySlug);
    }
    let head = concat("content/posts/", slug.as_str());
    Ok(concat(head.as_str(), ".md"))
}

/// What a creation returns: `launched` says whether the site generator
/// could be started, `created` is the text of the file it was asked to
/// create, when that could be read.
pub open spec fn create_result(
    rel: Seq<char>,
    launched: bool,
    created: Option<Seq<char>>,
) -> Result<PostModel, RepoError> {
    if !launched {
        Err(RepoError::GeneratorUnavailable)
    } else {
        match created {
            Some(raw) => match loaded(rel, raw) {
                Ok(p) => Ok(p),
                Err(_) => Err(RepoError::CreatedFileUnreadable),
            },
            None => Err(RepoError::CreatedFileUnreadable),
        }
    }
}

/// The result of a creation, once the generator ran (or could not) and its
/// file was read (or could not be).
pub fn finish_create(relative_path: &str, launched: bool, created: Option<String>) -> (r: Result<
    Post,
    RepoError,
>)
    ensures
        result_view(r) == create_result(relative_path@, launched, opt_text(created)),
{
    if !launched {
        return Err(RepoError::GeneratorUnavailable);
    }
    match created {
        Some(raw) => match load_post(relative_path, raw.as_str()) {
            Ok(p) => Ok(p),
            Err(_) => Err(RepoError::CreatedFileUnreadable),
        },
        None => Err(RepoError::CreatedFileUnreadable),
    }
}

} // verus!
