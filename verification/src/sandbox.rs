//! Path sandboxing: caller-supplied relative paths are joined onto the
//! sandbox root and classified, so that no operation can escape the root.
//!
//! Canonicalization (resolving `..`, relative segments and symlinks) is the
//! operating system's: the filesystem driver attempts it on the joined path
//! and reports a [`CanonOutcome`], and the verified classification decides
//! from that report alone. Paths are modelled as strings whose segments are
//! joined by single `'/'` separators; the root is absolute, canonical and has
//! no trailing separator.

use vstd::prelude::*;

use crate::errors::FileError;
use crate::text::{
    drop_leading, is_prefix_of, str_concat, str_equal, str_starts_with, str_suffix,
    trim_leading_slashes,
};

verus! {

/// The result of joining a relative path onto the root: the root, one
/// separator, and the relative path with its leading separators stripped
/// (stripping them defeats absolute-path overrides).
pub open spec fn spec_join(root: Seq<char>, rel: Seq<char>) -> Seq<char> {
    root + seq!['/'] + drop_leading(rel, '/')
}

/// Component-wise "has the root as prefix": `p` is the root itself, or
/// continues it right after a separator. `"files2"` does not count as under
/// the root `"files"`.
pub open spec fn under_root(p: Seq<char>, root: Seq<char>) -> bool {
    p == root || is_prefix_of(root + seq!['/'], p)
}

/// `p` with the root prefix removed; meaningful only when
/// `under_root(p, root)` holds.
pub open spec fn spec_strip_root(p: Seq<char>, root: Seq<char>) -> Seq<char> {
    if p == root {
        Seq::empty()
    } else {
        p.subrange(root.len() as int + 1, p.len() as int)
    }
}

/// What the filesystem reported when asked to canonicalize a joined path.
pub enum CanonOutcome {
    /// Canonicalization succeeded and produced this absolute path.
    Canonical(String),
    /// Canonicalization failed and the path names nothing yet (a new upload
    /// target, for example).
    MissingTarget,
    /// Canonicalization failed even though the path exists.
    Unresolvable,
}

/// The traversal classification: a canonicalized path violates the sandbox
/// iff its canonical form leaves the root; a path that names nothing yet is
/// allowed (so new files can be created) and judged on its raw form; a path
/// that exists but cannot be canonicalized is always a violation.
pub open spec fn spec_is_traversal(root: Seq<char>, path: Seq<char>, outcome: CanonOutcome) -> bool {
    match outcome {
        CanonOutcome::Canonical(abs) => !under_root(abs@, root),
        CanonOutcome::MissingTarget => !under_root(path, root),
        CanonOutcome::Unresolvable => true,
    }
}

/// Join `s` onto the sandbox root, stripping leading separators first.
pub fn concat_path_str(root: &str, s: &str) -> (r: String)
    ensures
        r@ == spec_join(root@, s@),
{
    let t = trim_leading_slashes(s);
    let mut r = root.to_owned();
    r.append("/");
    r.append(t.as_str());
    proof {
        reveal_strlit("/");
        assert("/"@ =~= seq!['/']);
        assert(r@ =~= spec_join(root@, s@));
    }
    r
}

/// Component-wise check that `p` lies under `root`.
pub fn path_starts_with(p: &str, root: &str) -> (r: bool)
    ensures
        r == under_root(p@, root@),
{
    if str_equal(p, root) {
        return true;
    }
    let pref = str_concat(root, "/");
    proof {
        reveal_strlit("/");
        assert(pref@ =~= root@ + seq!['/']);
    }
    str_starts_with(p, pref.as_str())
}

/// The root-relative remainder of `p`, or `None` when `p` is not under the
/// root.
pub fn strip_root(p: &str, root: &str) -> (r: Option<String>)
    ensures
        r is Some <==> under_root(p@, root@),
        r matches Some(s) ==> s@ == spec_strip_root(p@, root@),
{
    if str_equal(p, root) {
        return Some(String::new());
    }
    if !path_starts_with(p, root) {
        return None;
    }
    let rn = root.unicode_len();
    let pn = p.unicode_len();
    assert(rn + 1 <= pn);
    Some(str_suffix(p, rn + 1))
}

/// Detect path traversal: decide, from the filesystem's canonicalization
/// report for `path`, whether `path` escapes the sandbox root.
pub fn is_traversal(root: &str, path: &str, outcome: &CanonOutcome) -> (r: bool)
    ensures
        r == spec_is_traversal(root@, path@, *outcome),
{
    match outcome {
        CanonOutcome::Canonical(abs) => !path_starts_with(abs.as_str(), root),
        CanonOutcome::MissingTarget => !path_starts_with(path, root),
        CanonOutcome::Unresolvable => true,
    }
}

/// A path that passed the sandbox check.
pub struct CheckedPath {
    path: String,
}

impl View for CheckedPath {
    type V = Seq<char>;

    closed spec fn view(&self) -> Seq<char> {
        self.path@
    }
}

impl CheckedPath {
    /// The checked path itself.
    pub fn path(&self) -> (r: &String)
        ensures
            r@ == self@,
    {
        &self.path
    }

    /// Give up the wrapper and hand the path to the filesystem driver.
    pub fn into_path(self) -> (r: String)
        ensures
            r@ == self@,
    {
        self.path
    }

    /// Validate a caller-supplied path that arrives percent-encoded, as the
    /// transport delivers it: decode it, join it onto the root, and classify
    /// the joined path by the filesystem's report `outcome` for it.
    pub fn from_request(raw: &str, root: &str, outcome: &CanonOutcome) -> (r: Result<
        CheckedPath,
        FileError,
    >)
        ensures
            percent_decoded(raw@) is None ==> (r matches Err(e) && e == FileError::PathError),
            percent_decoded(raw@) matches Some(d) ==> {
                &&& r is Ok <==> !spec_is_traversal(root@, spec_join(root@, d), *outcome)
                &&& (r matches Ok(c) ==> c@ == spec_join(root@, d) && under_root(c@, root@))
                &&& (r matches Err(e) ==> e == FileError::PathError)
            },
    {
        let decoded = match percent_decode(raw) {
            Some(d) => d,
            None => {
                return Err(FileError::PathError);
            },
        };
        resolve(root, decoded.as_str(), outcome)
    }
}

/// Resolve a caller-supplied relative path: join it onto the root and accept
/// it exactly when the filesystem's report `outcome` for the joined path
/// shows no traversal. An accepted path always has the root as prefix.
pub fn resolve(root: &str, rel: &str, outcome: &CanonOutcome) -> (r: Result<CheckedPath, FileError>)
    ensures
        r is Ok <==> !spec_is_traversal(root@, spec_join(root@, rel@), *outcome),
        r matches Ok(c) ==> c@ == spec_join(root@, rel@) && under_root(c@, root@),
        r matches Err(e) ==> e == FileError::PathError,
{
    let joined = concat_path_str(root, rel);
    if is_traversal(root, joined.as_str(), outcome) {
        Err(FileError::PathError)
    } else {
        proof {
            lemma_join_under_root(root@, rel@);
        }
        Ok(CheckedPath { path: joined })
    }
}

/// The result of pushing a caller-supplied segment onto a base path, with
/// the platform's join rule: an absolute segment replaces the base outright
/// (which is why a pushed path must be re-checked for traversal), an empty
/// segment leaves it alone, any other is appended after a separator.
pub open spec fn spec_push_segment(base: Seq<char>, sub: Seq<char>) -> Seq<char> {
    if sub.len() == 0 {
        base
    } else if sub[0] == '/' {
        sub
    } else {
        base + seq!['/'] + sub
    }
}

/// Push a caller-supplied segment onto a base path. The result is untrusted
/// until it passes the traversal check again.
pub fn push_segment(base: String, sub: &str) -> (r: String)
    ensures
        r@ == spec_push_segment(base@, sub@),
{
    let n = sub.unicode_len();
    if n == 0 {
        base
    } else if sub.get_char(0) == '/' {
        sub.to_owned()
    } else {
        let b = base.concat("/");
        let r = b.concat(sub);
        proof {
            reveal_strlit("/");
            assert(r@ =~= base@ + seq!['/'] + sub@);
        }
        r
    }
}

/// A joined path always lies under the root it was joined onto.
pub proof fn lemma_join_under_root(root: Seq<char>, rel: Seq<char>)
    ensures
        under_root(spec_join(root, rel), root),
{
    let j = spec_join(root, rel);
    assert(j.subrange(0, root.len() as int + 1) =~= root + seq!['/']);
}

/// Stripping the root from a joined path gives back the relative path (with
/// its leading separators gone).
pub proof fn lemma_strip_of_join(root: Seq<char>, rel: Seq<char>)
    ensures
        spec_strip_root(spec_join(root, rel), root) == drop_leading(rel, '/'),
{
    let j = spec_join(root, rel);
    assert(j.len() > root.len());
    assert(j != root);
    assert(j.subrange(root.len() as int + 1, j.len() as int) =~= drop_leading(rel, '/'));
}

/// A path extended by a separator and one more segment stays under the root.
pub proof fn lemma_extend_under_root(root: Seq<char>, p: Seq<char>, name: Seq<char>)
    requires
        under_root(p, root),
    ensures
        under_root(p + seq!['/'] + name, root),
{
    let e = p + seq!['/'] + name;
    if p == root {
        assert(e.subrange(0, root.len() as int + 1) =~= root + seq!['/']);
    } else {
        assert(e.subrange(0, root.len() as int + 1) =~= p.subrange(0, root.len() as int + 1));
    }
}

/// What percent-decoding an incoming path yields: the result of
/// `percent_encoding::percent_decode_str` followed by UTF-8 decoding, a
/// function of the input alone ("%20" becomes a space; invalid UTF-8 is
/// `None`).
pub uninterp spec fn percent_decoded(s: Seq<char>) -> Option<Seq<char>>;

/// Relies on percent_encoding::percent_decode_str: replaces each %XX escape
/// by the byte it names and decodes the result as UTF-8.
#[verifier::external_body]
fn percent_decode(s: &str) -> (r: Option<String>)
    ensures
        (match r {
            Some(d) => percent_decoded(s@) == Some(d@),
            None => percent_decoded(s@) is None,
        }),
{
    match percent_encoding::percent_decode_str(s).decode_utf8() {
        Ok(c) => Some(c.to_string()),
        Err(_) => None,
    }
}

} // verus!
