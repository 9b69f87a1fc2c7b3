//! Public share links: allocating collision-free tokens bound to sandboxed
//! paths, deleting and listing the records, and resolving an incoming token
//! back to a target inside the sandbox.
//!
//! The share table is modelled by [`ShareStore`], an in-memory image of the
//! storage layer whose uniqueness constraint on tokens is the store's
//! well-formedness invariant; insertion refuses a duplicate token, and the
//! allocator treats that refusal as a collision and retries.

use vstd::prelude::*;

use crate::errors::FileError;
use crate::sandbox::{
    concat_path_str, is_traversal, push_segment, spec_is_traversal, spec_join, spec_push_segment,
    CanonOutcome,
};
use crate::text::{opt_str_clone, opt_str_eq, opt_view, str_equal};

verus! {

/// A share-creation (or share-deletion) request.
pub struct AddShareArgs {
    pub path: String,
    pub password: Option<String>,
}

/// A share-resolution request: the public token, a caller-supplied sub-path
/// inside the shared folder, the password if the share carries one, and
/// whether raw bytes are wanted.
pub struct QueryShareArgs {
    pub url: String,
    pub file_path: String,
    pub password: Option<String>,
    pub download: Option<bool>,
}

/// One share listing row, verbatim as stored; every field is optional
/// because the storage columns are nullable.
pub struct ShareIndex {
    pub path: Option<String>,
    pub url: Option<String>,
    /// Password is optional in creation
    pub password: Option<String>,
}

/// One stored share row: a root-relative path, the unique public token, and
/// an optional password.
pub struct ShareRecord {
    pub path: String,
    pub url: String,
    pub password: Option<String>,
}

impl Clone for ShareRecord {
    fn clone(&self) -> (r: Self)
        ensures
            r.path@ == self.path@,
            r.url@ == self.url@,
            opt_view(r.password) == opt_view(self.password),
    {
        ShareRecord {
            path: self.path.clone(),
            url: self.url.clone(),
            password: opt_str_clone(&self.password),
        }
    }
}

/// Tokens are unique across the store — the storage layer's constraint.
pub open spec fn wf_shares(s: Seq<ShareRecord>) -> bool {
    forall|i: int, j: int| 0 <= i < j < s.len() ==> s[i].url@ != s[j].url@
}

/// Some row carries this token.
pub open spec fn has_share_url(s: Seq<ShareRecord>, url: Seq<char>) -> bool {
    exists|i: int| 0 <= i < s.len() && #[trigger] s[i].url@ == url
}

/// The row carrying this token; meaningful when it exists and the store is
/// well-formed.
pub open spec fn share_at(s: Seq<ShareRecord>, url: Seq<char>) -> ShareRecord {
    s[choose|i: int| 0 <= i < s.len() && #[trigger] s[i].url@ == url]
}

/// The store without the rows whose path equals `path` exactly (never a
/// prefix match); the others keep their order.
pub open spec fn spec_delete_shares(s: Seq<ShareRecord>, path: Seq<char>) -> Seq<ShareRecord>
    decreases s.len(),
{
    if s.len() == 0 {
        Seq::empty()
    } else {
        spec_delete_shares(s.drop_last(), path) + (if s.last().path@ == path {
            Seq::empty()
        } else {
            seq![s.last()]
        })
    }
}

/// The in-memory image of the share table.
pub struct ShareStore {
    records: Vec<ShareRecord>,
}

impl View for ShareStore {
    type V = Seq<ShareRecord>;

    closed spec fn view(&self) -> Seq<ShareRecord> {
        self.records@
    }
}

impl ShareStore {
    /// An empty store.
    pub fn new() -> (s: ShareStore)
        ensures
            s@ == Seq::<ShareRecord>::empty(),
            wf_shares(s@),
    {
        ShareStore { records: Vec::new() }
    }

    /// Optimistic insert: file the record unless its token is already taken,
    /// and report a collision instead of filing a duplicate. This is the
    /// storage layer's hard uniqueness constraint on tokens: no outcome of
    /// this call ever leaves two rows with one token.
    pub fn try_insert(&mut self, rec: ShareRecord) -> (r: bool)
        requires
            wf_shares(old(self)@),
        ensures
            wf_shares(final(self)@),
            r == !has_share_url(old(self)@, rec.url@),
            r ==> final(self)@ == old(self)@.push(rec),
            !r ==> final(self)@ == old(self)@,
    {
        let n = self.records.len();
        let mut i: usize = 0;
        while i < n
            invariant
                n == self.records@.len(),
                self@ == self.records@,
                self@ == old(self)@,
                wf_shares(self@),
                0 <= i <= n,
                forall|j: int| 0 <= j < i ==> self.records@[j].url@ != rec.url@,
            decreases n - i,
        {
            if str_equal(self.records[i].url.as_str(), rec.url.as_str()) {
                proof {
                    assert(self@[i as int].url@ == rec.url@);
                }
                return false;
            }
            i = i + 1;
        }
        let ghost pre = self@;
        self.records.push(rec);
        proof {
            assert forall|a: int, b: int| 0 <= a < b < self@.len() implies self@[a].url@
                != self@[b].url@ by {
                if b < pre.len() {
                } else {
                    assert(self@[a] == pre[a]);
                }
            }
        }
        true
    }

    /// The record carrying `url`, if any.
    pub fn lookup(&self, url: &String) -> (r: Option<ShareRecord>)
        requires
            wf_shares(self@),
        ensures
            r is Some <==> has_share_url(self@, url@),
            r matches Some(rec) ==> {
                &&& rec.path@ == share_at(self@, url@).path@
                &&& rec.url@ == url@
                &&& opt_view(rec.password) == opt_view(share_at(self@, url@).password)
            },
    {
        let n = self.records.len();
        let mut i: usize = 0;
        while i < n
            invariant
                n == self.records@.len(),
                self@ == self.records@,
                wf_shares(self@),
                0 <= i <= n,
                forall|j: int| 0 <= j < i ==> self.records@[j].url@ != url@,
            decreases n - i,
        {
            if str_equal(self.records[i].url.as_str(), url.as_str()) {
                proof {
                    assert(self@[i as int].url@ == url@);
                    let k = choose|k: int|
                        0 <= k < self@.len() && #[trigger] self@[k].url@ == url@;
                    assert(k == i);
                }
                return Some(self.records[i].clone());
            }
            i = i + 1;
        }
        None
    }
}

/// Relies on rand::random::<u32>: a token candidate drawn uniformly from the
/// 32-bit space, rendered in decimal. Random, so nothing is promised of the
/// result.
#[verifier::external_body]
fn random_token() -> String {
    rand::random::<u32>().to_string()
}

/// Create a share for `args.path`: validate the path through the sandbox
/// (the filesystem's report `outcome` is for the joined path), then allocate
/// a fresh random token, retrying on collision up to a fixed bound, and file
/// the record. A token that is handed out was in no record before and is
/// unique in the store after — concurrent allocation stays collision-free
/// because the store itself refuses duplicates.
pub fn add_share_file(
    store: &mut ShareStore,
    root: &str,
    args: &AddShareArgs,
    outcome: &CanonOutcome,
) -> (r: Result<String, FileError>)
    requires
        wf_shares(old(store)@),
    ensures
        wf_shares(final(store)@),
        r matches Err(_) ==> final(store)@ == old(store)@,
        (r matches Err(e) && e == FileError::PathError) <==> spec_is_traversal(
            root@,
            spec_join(root@, args.path@),
            *outcome,
        ),
        r matches Err(e) ==> (e == FileError::PathError || e == FileError::ServerError),
        r matches Ok(u) ==> {
            &&& !has_share_url(old(store)@, u@)
            &&& final(store)@.len() == old(store)@.len() + 1
            &&& final(store)@.drop_last() == old(store)@
            &&& final(store)@.last().url@ == u@
            &&& final(store)@.last().path@ == args.path@
            &&& opt_view(final(store)@.last().password) == opt_view(args.password)
            &&& has_share_url(final(store)@, u@)
        },
{
    let joined = concat_path_str(root, args.path.as_str());
    if is_traversal(root, joined.as_str(), outcome) {
        return Err(FileError::PathError);
    }
    let mut counter: u32 = 0;
    while counter <= 10
        invariant
            wf_shares(store@),
            store@ == old(store)@,
            !spec_is_traversal(root@, spec_join(root@, args.path@), *outcome),
            0 <= counter <= 11,
        decreases 11 - counter,
    {
        let candidate = random_token();
        let rec = ShareRecord {
            path: args.path.clone(),
            url: candidate.clone(),
            password: opt_str_clone(&args.password),
        };
        let ghost rec_v = rec;
        if store.try_insert(rec) {
            proof {
                assert(store@.drop_last() =~= old(store)@);
                assert(store@.last() == rec_v);
            }
            return Ok(candidate);
        }
        counter = counter + 1;
    }
    Err(FileError::ServerError)
}

/// Delete every share whose stored path equals `path` exactly; every other
/// record stays, in order.
pub fn delete_share(store: &mut ShareStore, path: &String)
    requires
        wf_shares(old(store)@),
    ensures
        wf_shares(final(store)@),
        final(store)@ == spec_delete_shares(old(store)@, path@),
        forall|k: int| 0 <= k < final(store)@.len() ==> final(store)@[k].path@ != path@,
{
    let n = store.records.len();
    let mut acc: Vec<ShareRecord> = Vec::new();
    let mut i: usize = 0;
    proof {
        assert(old(store)@.subrange(0, 0) =~= Seq::<ShareRecord>::empty());
        assert(acc@ =~= spec_delete_shares(old(store)@.subrange(0, 0), path@));
        assert(store.records@ =~= old(store)@.subrange(0, n as int));
    }
    while i < n
        invariant
            n == old(store)@.len(),
            wf_shares(old(store)@),
            0 <= i <= n,
            store.records@ == old(store)@.subrange(i as int, n as int),
            acc@ == spec_delete_shares(old(store)@.subrange(0, i as int), path@),
            forall|k: int| 0 <= k < acc@.len() ==> #[trigger] acc@[k].path@ != path@,
            forall|k: int|
                0 <= k < acc@.len() ==> exists|j: int|
                    0 <= j < i && #[trigger] acc@[k] == old(store)@[j],
            wf_shares(acc@),
        decreases n - i,
    {
        let ghost acc_pre = acc@;
        let rec = store.records.remove(0);
        proof {
            assert(rec == old(store)@[i as int]);
            assert(store.records@ =~= old(store)@.subrange(i + 1, n as int));
        }
        if !str_equal(rec.path.as_str(), path.as_str()) {
            acc.push(rec);
            proof {
                assert(acc@.last() == old(store)@[i as int]);
                assert forall|k: int| 0 <= k < acc@.len() implies exists|j: int|
                    0 <= j < i + 1 && #[trigger] acc@[k] == old(store)@[j] by {
                    if k < acc_pre.len() {
                        let j = choose|j: int|
                            0 <= j < i && #[trigger] acc_pre[k] == old(store)@[j];
                        assert(acc@[k] == old(store)@[j]);
                    } else {
                        assert(acc@[k] == old(store)@[i as int]);
                    }
                }
                assert forall|a: int, b: int| 0 <= a < b < acc@.len() implies acc@[a].url@
                    != acc@[b].url@ by {
                    if b == acc@.len() - 1 {
                        let j = choose|j: int|
                            0 <= j < i && #[trigger] acc_pre[a] == old(store)@[j];
                        assert(acc@[a] == old(store)@[j]);
                        assert(old(store)@[j].url@ != old(store)@[i as int].url@);
                    } else {
                        assert(acc_pre[a].url@ != acc_pre[b].url@);
                    }
                }
            }
        }
        proof {
            let pre = old(store)@.subrange(0, i as int);
            let cur = old(store)@.subrange(0, i + 1);
            assert(cur.drop_last() =~= pre);
            assert(cur.last() == old(store)@[i as int]);
            assert(acc@ =~= spec_delete_shares(cur, path@));
        }
        i = i + 1;
    }
    proof {
        assert(old(store)@.subrange(0, n as int) =~= old(store)@);
    }
    store.records = acc;
}

/// List every share verbatim, including the stored password: callers decide
/// on redaction.
pub fn get_share_index(store: &ShareStore) -> (r: Vec<ShareIndex>)
    ensures
        r@.len() == store@.len(),
        forall|i: int|
            0 <= i < r@.len() ==> {
                &&& opt_view(#[trigger] r@[i].path) == Some(store@[i].path@)
                &&& opt_view(r@[i].url) == Some(store@[i].url@)
                &&& opt_view(r@[i].password) == opt_view(store@[i].password)
            },
{
    let n = store.records.len();
    let mut acc: Vec<ShareIndex> = Vec::new();
    let mut i: usize = 0;
    while i < n
        invariant
            n == store.records@.len(),
            store@ == store.records@,
            0 <= i <= n,
            acc@.len() == i,
            forall|k: int|
                0 <= k < i ==> {
                    &&& opt_view(#[trigger] acc@[k].path) == Some(store@[k].path@)
                    &&& opt_view(acc@[k].url) == Some(store@[k].url@)
                    &&& opt_view(acc@[k].password) == opt_view(store@[k].password)
                },
        decreases n - i,
    {
        let rec = &store.records[i];
        acc.push(
            ShareIndex {
                path: Some(rec.path.clone()),
                url: Some(rec.url.clone()),
                password: opt_str_clone(&rec.password),
            },
        );
        i = i + 1;
    }
    acc
}

/// Look the token up and check the password: an unknown token is a path
/// error; a password that differs from the stored one (equality includes the
/// case both are absent) is a content error; otherwise the record is handed
/// back.
pub fn resolve_share(store: &ShareStore, url: &String, password: &Option<String>) -> (r: Result<
    ShareRecord,
    FileError,
>)
    requires
        wf_shares(store@),
    ensures
        (r matches Err(e) && e == FileError::PathError) <==> !has_share_url(store@, url@),
        (r matches Err(e) && e == FileError::ContentError) <==> (has_share_url(store@, url@)
            && opt_view(*password) != opt_view(share_at(store@, url@).password)),
        r is Ok <==> (has_share_url(store@, url@) && opt_view(*password) == opt_view(
            share_at(store@, url@).password,
        )),
        r matches Ok(rec) ==> {
            &&& rec.path@ == share_at(store@, url@).path@
            &&& rec.url@ == url@
            &&& opt_view(rec.password) == opt_view(share_at(store@, url@).password)
        },
{
    let rec = match store.lookup(url) {
        Some(rec) => rec,
        None => {
            return Err(FileError::PathError);
        },
    };
    if !opt_str_eq(password, &rec.password) {
        return Err(FileError::ContentError);
    }
    Ok(rec)
}

/// The facts the filesystem driver reports while a share is resolved:
/// whether the shared path itself is a single file, the canonicalization
/// report for the final target, and whether that target is a directory.
pub struct ShareProbe {
    pub base_is_file: bool,
    pub canon: CanonOutcome,
    pub target_is_dir: bool,
}

/// What a resolved share asks the filesystem driver to do with the target
/// path: list a folder, send a file's raw bytes, or describe the file.
pub enum ShareAction {
    ListFolder(String),
    SendBytes(String),
    Describe(String),
}

/// The filesystem path a share resolution targets: the shared path joined
/// onto the root and, unless the shared path is itself a single file, the
/// caller-supplied sub-path pushed onto it.
pub open spec fn spec_share_target(
    root: Seq<char>,
    path: Seq<char>,
    sub: Seq<char>,
    base_is_file: bool,
) -> Seq<char> {
    if base_is_file {
        spec_join(root, path)
    } else {
        spec_push_segment(spec_join(root, path), sub)
    }
}

/// Compute the target path of a share resolution. The sub-path is
/// caller-supplied and therefore untrusted even though the shared path was
/// validated at creation time: the result must pass the traversal check.
pub fn share_target_path(root: &str, path: &str, sub: &str, base_is_file: bool) -> (r: String)
    ensures
        r@ == spec_share_target(root@, path@, sub@, base_is_file),
{
    let joined = concat_path_str(root, path);
    if base_is_file {
        joined
    } else {
        push_segment(joined, sub)
    }
}

/// Resolve a share request end to end: look the token up (`PathError` when
/// absent), check the password (`ContentError` on mismatch), build the
/// target from the stored path and the caller's sub-path, re-validate it
/// through the sandbox, and decide the action: a directory is listed, a file
/// is sent raw when the download flag asks for it and described otherwise.
pub fn get_share_file(
    store: &ShareStore,
    root: &str,
    args: &QueryShareArgs,
    probe: &ShareProbe,
) -> (r: Result<ShareAction, FileError>)
    requires
        wf_shares(store@),
    ensures
        r matches Err(e) ==> (e == FileError::PathError || e == FileError::ContentError),
        (r matches Err(e) && e == FileError::ContentError) <==> (has_share_url(store@, args.url@)
            && opt_view(args.password) != opt_view(share_at(store@, args.url@).password)),
        (r matches Err(e) && e == FileError::PathError) <==> (!has_share_url(store@, args.url@) || (
        has_share_url(store@, args.url@) && opt_view(args.password) == opt_view(
            share_at(store@, args.url@).password,
        ) && spec_is_traversal(
            root@,
            spec_share_target(
                root@,
                share_at(store@, args.url@).path@,
                args.file_path@,
                probe.base_is_file,
            ),
            probe.canon,
        ))),
        r matches Ok(a) ==> ({
            let target = spec_share_target(
                root@,
                share_at(store@, args.url@).path@,
                args.file_path@,
                probe.base_is_file,
            );
            &&& has_share_url(store@, args.url@)
            &&& opt_view(args.password) == opt_view(share_at(store@, args.url@).password)
            &&& !spec_is_traversal(root@, target, probe.canon)
            &&& (if probe.target_is_dir {
                a matches ShareAction::ListFolder(p) && p@ == target
            } else if args.download matches Some(d) && d {
                a matches ShareAction::SendBytes(p) && p@ == target
            } else {
                a matches ShareAction::Describe(p) && p@ == target
            })
        }),
{
    let rec = match resolve_share(store, &args.url, &args.password) {
        Ok(rec) => rec,
        Err(e) => {
            return Err(e);
        },
    };
    let target = share_target_path(root, rec.path.as_str(), args.file_path.as_str(),
        probe.base_is_file);
    if is_traversal(root, target.as_str(), &probe.canon) {
        return Err(FileError::PathError);
    }
    if probe.target_is_dir {
        Ok(ShareAction::ListFolder(target))
    } else {
        match args.download {
            Some(true) => Ok(ShareAction::SendBytes(target)),
            _ => Ok(ShareAction::Describe(target)),
        }
    }
}

/// No two tokens ever collide: a token handed out by one successful share
/// creation is in the store any later creation starts from, and the later
/// creation's token is fresh for that store — so the two differ. Together
/// with the store's uniqueness constraint this keeps concurrent allocation
/// collision-free.
pub proof fn lemma_share_tokens_distinct(mid: Seq<ShareRecord>, t1: Seq<char>, t2: Seq<char>)
    requires
        has_share_url(mid, t1),
        !has_share_url(mid, t2),
    ensures
        t1 != t2,
{
}

} // verus!
