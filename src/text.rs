use vstd::prelude::*;
use vstd::std_specs::iter::IteratorSpec;

verus! {

/// The characters of `s`, in order.
pub fn chars_of(s: &str) -> (r: Vec<char>)
    ensures
        r@ == s@,
{
    broadcast use vstd::string::axiom_spec_iter, vstd::string::next_postcondition;

    let mut it = s.chars();
    let mut out: Vec<char> = Vec::new();
    loop
        invariant
            out@ + it.remaining() == s@,
            it.decrease() is Some,
        ensures
            out@ == s@,
        decreases it.decrease()->0,
    {
        match it.next() {
            Some(c) => {
                out.push(c);
            },
            None => {
                assert(out@ + it.remaining() =~= out@);
                break;
            },
        }
    }
    out
}

/// Relies on std's `FromIterator<char>` for `String`: the string holds the
/// given characters in order.
#[verifier::external_body]
pub(crate) fn string_of(v: &[char]) -> (r: String)
    ensures
        r@ == v@,
{
    v.iter().collect::<String>()
}

/// Appends the characters of `s` to `out`.
pub fn push_str(out: &mut Vec<char>, s: &str)
    ensures
        final(out)@ == old(out)@ + s@,
{
    let v = chars_of(s);
    let mut i: usize = 0;
    while i < v.len()
        invariant
            i <= v@.len(),
            v@ == s@,
            out@ == old(out)@ + v@.subrange(0, i as int),
        decreases v@.len() - i,
    {
        out.push(v[i]);
        i = i + 1;
        assert(out@ =~= old(out)@ + v@.subrange(0, i as int));
    }
    assert(v@.subrange(0, i as int) =~= v@);
}

/// `a` followed by `b`.
pub fn concat(a: &str, b: &str) -> (r: String)
    ensures
        r@ == a@ + b@,
{
    let mut v: Vec<char> = Vec::new();
    push_str(&mut v, a);
    push_str(&mut v, b);
    assert(v@ =~= a@ + b@);
    string_of(v.as_slice())
}

/// The part of `full` after `root` and the separator `/` that follows it.
pub open spec fn path_under(root: Seq<char>, full: Seq<char>) -> Option<Seq<char>> {
    if full.len() > root.len() && full.subrange(0, root.len() as int) == root && full[root.len()
        as int] == '/' {
        Some(full.subrange(root.len() as int + 1, full.len() as int))
    } else {
        None
    }
}

/// The path of `full` relative to the directory `root`, if it lies under it.
pub fn relative_to(root: &str, full: &str) -> (r: Option<String>)
    ensures
        match r {
            Some(s) => path_under(root@, full@) == Some(s@),
            None => path_under(root@, full@) is None,
        },
{
    let rv = chars_of(root);
    let fv = chars_of(full);
    let n = rv.len();
    if fv.len() <= n {
        return None;
    }
    let mut i: usize = 0;
    while i < n
        invariant
            i <= n,
            n == rv@.len(),
            n < fv@.len(),
            rv@ == root@,
            fv@ == full@,
            forall|k: int| 0 <= k < i ==> rv@[k] == fv@[k],
        decreases n - i,
    {
        if rv[i] != fv[i] {
            proof {
                if fv@.subrange(0, n as int) == rv@ {
                    assert(fv@.subrange(0, n as int)[i as int] == fv@[i as int]);
                }
            }
            return None;
        }
        i = i + 1;
    }
    assert(fv@.subrange(0, n as int) =~= rv@);
    if fv[n] != '/' {
        return None;
    }
    Some(string_of(vstd::slice::slice_subrange(fv.as_slice(), n + 1, fv.len())))
}

/// The path of `rel` under the directory `root`.
pub open spec fn joined(root: Seq<char>, rel: Seq<char>) -> Seq<char> {
    root + seq!['/'] + rel
}

/// The path of `rel` under the directory `root`.
pub fn full_path(root: &str, rel: &str) -> (r: String)
    ensures
        r@ == joined(root@, rel@),
{
    let mut v: Vec<char> = Vec::new();
    push_str(&mut v, root);
    v.push('/');
    push_str(&mut v, rel);
    assert(v@ =~= joined(root@, rel@));
    string_of(v.as_slice())
}

/// A path joined under a root is found under that root again.
pub proof fn lemma_joined_under(root: Seq<char>, rel: Seq<char>)
    ensures
        path_under(root, joined(root, rel)) == Some(rel),
{
    let full = joined(root, rel);
    assert(full.subrange(0, root.len() as int) =~= root);
    assert(full.subrange(root.len() as int + 1, full.len() as int) =~= rel);
}

} // verus!
