//! The text format of a post: the line `+++`, the TOML front matter, the
//! line `+++`, then the body. The format is written out here so that
//! decoding a document and encoding its parts again gives back the same
//! text, character for character.

use vstd::prelude::*;
use crate::error::RepoError;
use crate::text::{chars_of, push_str, string_of};

verus! {

/// The line that opens the front matter.
pub open spec fn open_marker() -> Seq<char> {
    seq!['+', '+', '+', '\n']
}

/// The line that closes the front matter, with the newline that ends the
/// front matter's last line.
pub open spec fn close_marker() -> Seq<char> {
    seq!['\n', '+', '+', '+', '\n']
}

/// The text of a document with the given front matter and body.
pub open spec fn document_text(front_matter: Seq<char>, body: Seq<char>) -> Seq<char> {
    open_marker() + front_matter + close_marker() + body
}

/// A closing marker starts at `i`, after the opening line.
pub open spec fn closes_at(s: Seq<char>, i: int) -> bool {
    4 <= i && i + 5 <= s.len() && s.subrange(i, i + 5) == close_marker()
}

/// The first closing marker starts at `i`.
pub open spec fn first_close(s: Seq<char>, i: int) -> bool {
    closes_at(s, i) && forall|j: int| 4 <= j < i ==> !#[trigger] closes_at(s, j)
}

/// `s` opens with the opening line and has a closing marker after it.
pub open spec fn is_framed(s: Seq<char>) -> bool {
    &&& s.len() >= 4
    &&& s.subrange(0, 4) == open_marker()
    &&& exists|i: int| first_close(s, i)
}

/// The front matter and the body of `s`, split at the first closing marker.
pub open spec fn split_document(s: Seq<char>) -> Option<(Seq<char>, Seq<char>)> {
    if is_framed(s) {
        let i = choose|i: int| first_close(s, i);
        Some((s.subrange(4, i), s.subrange(i + 5, s.len() as int)))
    } else {
        None
    }
}

/// Whether `toml::from_str` reads `s` as a TOML table.
pub uninterp spec fn toml_parses(s: Seq<char>) -> bool;

/// What `decode` accepts: a framed text whose front matter is a TOML table.
pub open spec fn decoded(s: Seq<char>) -> Option<(Seq<char>, Seq<char>)> {
    match split_document(s) {
        Some((fm, body)) => if toml_parses(fm) {
            Some((fm, body))
        } else {
            None
        },
        None => None,
    }
}

/// A document split into its front matter block and its body.
#[derive(Debug, Clone)]
pub struct Document {
    pub front_matter: String,
    pub body: String,
}

/// Relies on `toml::from_str` into a `toml::Table`: whether the text parses.
#[verifier::external_body]
pub(crate) fn is_toml_table(s: &str) -> (r: bool)
    ensures
        r == toml_parses(s@),
{
    toml::from_str::<toml::Table>(s).is_ok()
}

/// Whether a closing marker starts at `i`.
fn marker_at(v: &Vec<char>, i: usize) -> (r: bool)
    requires
        i + 5 <= v@.len(),
    ensures
        r == (v@.subrange(i as int, i + 5) == close_marker()),
{
    let _n = v.len();
    let r = v[i] == '\n' && v[i + 1] == '+' && v[i + 2] == '+' && v[i + 3] == '+' && v[i + 4]
        == '\n';
    proof {
        let w = v@.subrange(i as int, i + 5);
        if r {
            assert(w =~= close_marker());
        } else if w == close_marker() {
            assert(w[0] == v@[i as int] && w[1] == v@[i + 1] && w[2] == v@[i + 2]);
            assert(w[3] == v@[i + 3] && w[4] == v@[i + 4]);
        }
    }
    r
}

/// Two first closing markers are the same one.
proof fn lemma_first_close_unique(s: Seq<char>, i: int, k: int)
    requires
        first_close(s, i),
        first_close(s, k),
    ensures
        i == k,
{
    if i < k {
        assert(closes_at(s, i));
    } else if k < i {
        assert(closes_at(s, k));
    }
}

/// Where the first closing marker of a framed text stands.
proof fn lemma_split_at(s: Seq<char>, i: int)
    requires
        s.len() >= 4,
        s.subrange(0, 4) == open_marker(),
        first_close(s, i),
    ensures
        split_document(s) == Some((s.subrange(4, i), s.subrange(i + 5, s.len() as int))),
{
    let k = choose|k: int| first_close(s, k);
    lemma_first_close_unique(s, i, k);
}

/// A framed text is its own front matter and body put back together.
proof fn lemma_split_rebuilds(s: Seq<char>)
    requires
        split_document(s) is Some,
    ensures
        document_text(split_document(s).unwrap().0, split_document(s).unwrap().1) == s,
{
    let i = choose|i: int| first_close(s, i);
    assert(s =~= s.subrange(0, 4) + s.subrange(4, i) + s.subrange(i, i + 5) + s.subrange(
        i + 5,
        s.len() as int,
    ));
}

/// Decoding a valid document and encoding its unchanged front matter and
/// body gives back the original text, character for character.
pub proof fn lemma_round_trip(raw: Seq<char>)
    requires
        decoded(raw) is Some,
    ensures
        document_text(decoded(raw).unwrap().0, decoded(raw).unwrap().1) == raw,
{
    lemma_split_rebuilds(raw);
}

/// Putting a new body under the front matter of a framed text gives a text
/// that splits into that front matter and the new body.
proof fn lemma_split_new_body(raw: Seq<char>, body: Seq<char>)
    requires
        split_document(raw) is Some,
    ensures
        split_document(document_text(split_document(raw).unwrap().0, body)) == Some(
            (split_document(raw).unwrap().0, body),
        ),
{
    let fm = split_document(raw).unwrap().0;
    let i = choose|i: int| first_close(raw, i);
    lemma_split_rebuilds(raw);
    let t = document_text(fm, body);
    let head = open_marker() + fm + close_marker();
    assert(i == 4 + fm.len());
    assert(t == head + body);
    assert(raw == head + split_document(raw).unwrap().1);
    assert forall|k: int| 0 <= k < i + 5 implies t[k] == raw[k] by {
        assert(t[k] == head[k]);
        assert(raw[k] == head[k]);
    }
    assert forall|j: int| 4 <= j < i implies !#[trigger] closes_at(t, j) by {
        if closes_at(t, j) {
            assert(t.subrange(j, j + 5) =~= raw.subrange(j, j + 5));
            assert(closes_at(raw, j));
        }
    }
    assert(t.subrange(i, i + 5) =~= close_marker());
    assert(t.subrange(0, 4) =~= open_marker());
    assert(first_close(t, i));
    lemma_split_at(t, i);
    assert(t.subrange(4, i) =~= fm);
    assert(t.subrange(i + 5, t.len() as int) =~= body);
}

/// Decodes `raw`, then encodes its front matter, as it stood, over `body`.
pub open spec fn with_body(raw: Seq<char>, body: Seq<char>) -> Option<Seq<char>> {
    match decoded(raw) {
        Some((fm, _)) => Some(document_text(fm, body)),
        None => None,
    }
}

/// Replacing the body of a valid document keeps its front matter: the
/// new text decodes into the same front matter block and the new body.
pub proof fn lemma_new_body_decodes(raw: Seq<char>, body: Seq<char>)
    requires
        decoded(raw) is Some,
    ensures
        decoded(with_body(raw, body).unwrap()) == Some((decoded(raw).unwrap().0, body)),
{
    lemma_split_new_body(raw, body);
}

/// Replacing the body twice with the same text gives the same document as
/// replacing it once.
pub proof fn lemma_with_body_idempotent(raw: Seq<char>, body: Seq<char>)
    requires
        decoded(raw) is Some,
    ensures
        with_body(with_body(raw, body).unwrap(), body) == with_body(raw, body),
{
    lemma_split_new_body(raw, body);
}

/// Splits `raw` into its front matter and its body.
pub fn decode(raw: &str) -> (r: Result<Document, RepoError>)
    ensures
        match r {
            Ok(d) => decoded(raw@) == Some((d.front_matter@, d.body@)),
            Err(e) => decoded(raw@) is None && e == RepoError::MalformedDocument,
        },
{
    let v = chars_of(raw);
    let n = v.len();
    if n < 4 || !(v[0] == '+' && v[1] == '+' && v[2] == '+' && v[3] == '\n') {
        proof {
            if n >= 4 && v@.subrange(0, 4) == open_marker() {
                let w = v@.subrange(0, 4);
                assert(w[0] == v@[0] && w[1] == v@[1] && w[2] == v@[2] && w[3] == v@[3]);
            }
        }
        return Err(RepoError::MalformedDocument);
    }
    assert(v@.subrange(0, 4) =~= open_marker());
    let mut i: usize = 4;
    while n - i >= 5
        invariant
            4 <= i <= n,
            n == v@.len(),
            v@ == raw@,
            raw@.subrange(0, 4) == open_marker(),
            forall|j: int| 4 <= j < i ==> !#[trigger] closes_at(raw@, j),
        decreases n - i,
    {
        if marker_at(&v, i) {
            let fm = string_of(vstd::slice::slice_subrange(v.as_slice(), 4, i));
            let body = string_of(vstd::slice::slice_subrange(v.as_slice(), i + 5, n));
            proof {
                lemma_split_at(raw@, i as int);
            }
            if is_toml_table(fm.as_str()) {
                return Ok(Document { front_matter: fm, body });
            } else {
                return Err(RepoError::MalformedDocument);
            }
        }
        i = i + 1;
    }
    proof {
        if is_framed(raw@) {
            let k = choose|k: int| first_close(raw@, k);
            assert(closes_at(raw@, k));
        }
    }
    Err(RepoError::MalformedDocument)
}

/// The text of the document with the given front matter and body.
pub fn encode(front_matter: &str, body: &str) -> (r: String)
    ensures
        r@ == document_text(front_matter@, body@),
{
    let mut v: Vec<char> = Vec::new();
    push_str(&mut v, "+++\n");
    push_str(&mut v, front_matter);
    push_str(&mut v, "\n+++\n");
    push_str(&mut v, body);
    proof {
        reveal_strlit("+++\n");
        reveal_strlit("\n+++\n");
    }
    assert(v@ =~= document_text(front_matter@, body@));
    string_of(v.as_slice())
}

} // verus!
