//! File and folder descriptors, directory listings and recursive name
//! search.
//!
//! Reading metadata and directory entries is the filesystem driver's work;
//! it reports plain facts ([`FsMetadata`], [`DirEntryInfo`]) and the verified
//! code builds the descriptors from them.

use vstd::prelude::*;

use crate::errors::FileError;
use crate::sandbox::{lemma_extend_under_root, spec_strip_root, strip_root, under_root};
use crate::text::{contains_substr, str_concat, str_contains, str_equal, str_suffix};

verus! {

/// Whether an entry is a plain file or a folder.
#[derive(Clone, Copy, Debug, PartialEq, Eq, Structural)]
pub enum FileKind {
    File,
    Folder,
}

impl FileKind {
    /// The kind as descriptors carry it on the wire.
    pub fn as_str(&self) -> (r: &'static str)
        ensures
            r@ == self.spec_str(),
    {
        match self {
            FileKind::File => "file",
            FileKind::Folder => "folder",
        }
    }

    /// The string `as_str` returns.
    pub open spec fn spec_str(&self) -> Seq<char> {
        match self {
            FileKind::File => "file"@,
            FileKind::Folder => "folder"@,
        }
    }
}

/// The plain facts the filesystem driver reports about one path. `modified`
/// is the modification time in unix seconds, or `None` when the clock
/// comparison failed.
#[derive(Clone, Copy, Debug)]
pub struct FsMetadata {
    pub size: u64,
    pub is_dir: bool,
    pub modified: Option<u64>,
}

/// One directory entry as the filesystem driver lists it: the entry's path
/// and its metadata.
pub struct DirEntryInfo {
    pub path: String,
    pub meta: FsMetadata,
}

/// A file or folder descriptor. `absolute_path`, when present, is
/// root-relative (it never includes the sandbox prefix) and is populated only
/// by the search and share flows, not by plain listing.
pub struct File {
    pub name: String,
    pub size: u64,
    pub kind: FileKind,
    pub last_modified_time: u64,
    pub absolute_path: Option<String>,
}

/// The mathematical model of a [`File`].
pub struct FileV {
    pub name: Seq<char>,
    pub size: u64,
    pub kind: FileKind,
    pub last_modified_time: u64,
    pub absolute_path: Option<Seq<char>>,
}

impl View for File {
    type V = FileV;

    open spec fn view(&self) -> FileV {
        FileV {
            name: self.name@,
            size: self.size,
            kind: self.kind,
            last_modified_time: self.last_modified_time,
            absolute_path: match self.absolute_path {
                Some(s) => Some(s@),
                None => None,
            },
        }
    }
}

impl Clone for File {
    fn clone(&self) -> (r: Self)
        ensures
            r@ == self@,
    {
        File {
            name: self.name.clone(),
            size: self.size,
            kind: self.kind,
            last_modified_time: self.last_modified_time,
            absolute_path: match &self.absolute_path {
                Some(s) => Some(s.clone()),
                None => None,
            },
        }
    }
}

/// The views of a sequence of descriptors.
pub open spec fn files_view(s: Seq<File>) -> Seq<FileV> {
    s.map_values(|f: File| f@)
}

/// The views of a sequence of strings.
pub open spec fn strs_view(s: Seq<String>) -> Seq<Seq<char>> {
    s.map_values(|p: String| p@)
}

/// The final segment of a path: everything after the last separator, empty
/// when the path is empty or ends in a separator.
pub open spec fn basename(p: Seq<char>) -> Seq<char>
    decreases p.len(),
{
    if p.len() == 0 {
        p
    } else if p[p.len() - 1] == '/' {
        Seq::empty()
    } else {
        basename(p.subrange(0, p.len() - 1)).push(p[p.len() - 1])
    }
}

/// `basename` yields the suffix that starts right after the last separator.
pub proof fn lemma_basename_subrange(p: Seq<char>, k: int)
    requires
        0 <= k <= p.len(),
        forall|j: int| k <= j < p.len() ==> p[j] != '/',
        k == 0 || p[k - 1] == '/',
    ensures
        basename(p) == p.subrange(k, p.len() as int),
    decreases p.len(),
{
    if k == p.len() {
        assert(p.subrange(k, p.len() as int) =~= Seq::empty());
        if p.len() > 0 {
            assert(p[k - 1] == '/');
        }
    } else {
        assert(p[p.len() - 1] != '/');
        let q = p.subrange(0, p.len() - 1);
        lemma_basename_subrange(q, k);
        assert(q.subrange(k, q.len() as int).push(p[p.len() - 1]) =~= p.subrange(
            k,
            p.len() as int,
        ));
    }
}

/// What a descriptor built at `path` with metadata `meta` holds, or `None`
/// when the path carries no final segment.
pub open spec fn spec_file_new(path: Seq<char>, meta: FsMetadata) -> Option<FileV> {
    if basename(path).len() == 0 {
        None
    } else {
        Some(
            FileV {
                name: basename(path),
                size: meta.size,
                kind: if meta.is_dir {
                    FileKind::Folder
                } else {
                    FileKind::File
                },
                last_modified_time: match meta.modified {
                    Some(m) => m,
                    None => 0,
                },
                absolute_path: None,
            },
        )
    }
}

/// The root-relative path recorded for an entry named `name` that sits in
/// `folder`.
pub open spec fn spec_abs_entry_path(folder: Seq<char>, root: Seq<char>, name: Seq<char>) -> Seq<
    char,
> {
    if folder == root {
        name
    } else {
        spec_strip_root(folder, root) + seq!['/'] + name
    }
}

/// The descriptors a listing of `entries` produces: one per entry that
/// constructs, in order; entries that fail to construct are skipped.
pub open spec fn spec_dir_files(s: Seq<DirEntryInfo>) -> Seq<FileV>
    decreases s.len(),
{
    if s.len() == 0 {
        Seq::empty()
    } else {
        spec_dir_files(s.drop_last()) + (match spec_file_new(s.last().path@, s.last().meta) {
            Some(f) => seq![f],
            None => Seq::empty(),
        })
    }
}

impl File {
    /// Build the descriptor of the entry at `path` from the metadata the
    /// filesystem reported. The name is the path's final segment; a path
    /// without one is rejected. A missing modification time defaults to 0.
    pub fn new(path: &str, meta: &FsMetadata) -> (r: Result<File, FileError>)
        ensures
            (match spec_file_new(path@, *meta) {
                Some(f) => r matches Ok(file) && file@ == f,
                None => r matches Err(e) && e == FileError::PathError,
            }),
    {
        let n = path.unicode_len();
        let mut k: usize = n;
        while k > 0 && path.get_char(k - 1) != '/'
            invariant
                n == path@.len(),
                0 <= k <= n,
                forall|j: int| k <= j < n ==> path@[j] != '/',
            decreases k,
        {
            k = k - 1;
        }
        proof {
            lemma_basename_subrange(path@, k as int);
        }
        if k == n {
            return Err(FileError::PathError);
        }
        let name = str_suffix(path, k);
        Ok(
            File {
                name,
                size: meta.size,
                kind: if meta.is_dir {
                    FileKind::Folder
                } else {
                    FileKind::File
                },
                last_modified_time: match meta.modified {
                    Some(m) => m,
                    None => 0,
                },
                absolute_path: None,
            },
        )
    }

    /// Record the root-relative location of this entry, which sits in
    /// `folder`: the folder with the sandbox prefix stripped, extended by the
    /// entry's name. Fails when `folder` is not under the root.
    pub fn absolute_path(self, folder: &str, root: &str) -> (r: Option<File>)
        ensures
            under_root(folder@, root@) ==> (r matches Some(f) && f@ == (FileV {
                absolute_path: Some(spec_abs_entry_path(folder@, root@, self.name@)),
                ..self@
            })),
            !under_root(folder@, root@) ==> r is None,
    {
        let rel = match strip_root(folder, root) {
            Some(s) => s,
            None => {
                return None;
            },
        };
        let abs: String;
        if str_equal(folder, root) {
            abs = self.name.clone();
        } else {
            let with_sep = rel.concat("/");
            proof {
                reveal_strlit("/");
                assert(with_sep@ =~= spec_strip_root(folder@, root@) + seq!['/']);
            }
            abs = with_sep.concat(self.name.as_str());
        }
        Some(
            File {
                name: self.name,
                size: self.size,
                kind: self.kind,
                last_modified_time: self.last_modified_time,
                absolute_path: Some(abs),
            },
        )
    }

    /// Build the descriptors of one directory's entries, as the filesystem
    /// driver listed them; entries that fail to construct are silently
    /// skipped.
    pub fn read_dir(entries: &Vec<DirEntryInfo>) -> (r: Vec<File>)
        ensures
            files_view(r@) == spec_dir_files(entries@),
    {
        let mut acc: Vec<File> = Vec::new();
        let mut i: usize = 0;
        proof {
            assert(entries@.subrange(0, 0) =~= Seq::<DirEntryInfo>::empty());
            assert(files_view(acc@) =~= spec_dir_files(entries@.subrange(0, 0)));
        }
        while i < entries.len()
            invariant
                0 <= i <= entries@.len(),
                files_view(acc@) == spec_dir_files(entries@.subrange(0, i as int)),
            decreases entries@.len() - i,
        {
            let e = &entries[i];
            match File::new(e.path.as_str(), &e.meta) {
                Ok(f) => {
                    acc.push(f);
                },
                Err(_) => {},
            }
            proof {
                let pre = entries@.subrange(0, i as int);
                let cur = entries@.subrange(0, i + 1);
                assert(cur.drop_last() =~= pre);
                assert(cur.last() == entries@[i as int]);
                assert(files_view(acc@) =~= spec_dir_files(cur));
            }
            i = i + 1;
        }
        proof {
            assert(entries@.subrange(0, entries@.len() as int) =~= entries@);
        }
        acc
    }
}

/// Listing a folder: reject a path that is not a directory, otherwise build
/// the descriptors of its entries.
pub fn get_folder(is_dir: bool, entries: &Vec<DirEntryInfo>) -> (r: Result<Vec<File>, FileError>)
    ensures
        !is_dir ==> (r matches Err(e) && e == FileError::PathError),
        is_dir ==> (r matches Ok(files) && files_view(files@) == spec_dir_files(entries@)),
{
    if !is_dir {
        return Err(FileError::PathError);
    }
    Ok(File::read_dir(entries))
}

/// The folder paths one search step appends to the work list: one per folder
/// entry, the scanned folder extended by the entry's name.
pub open spec fn spec_search_pending(files: Seq<FileV>, folder: Seq<char>) -> Seq<Seq<char>>
    decreases files.len(),
{
    if files.len() == 0 {
        Seq::empty()
    } else {
        spec_search_pending(files.drop_last(), folder) + (if files.last().kind is Folder {
            seq![folder + seq!['/'] + files.last().name]
        } else {
            Seq::empty()
        })
    }
}

/// The matches one search step collects: every entry whose name contains the
/// query (case-sensitive), with its root-relative path recorded.
pub open spec fn spec_search_found(
    files: Seq<FileV>,
    folder: Seq<char>,
    root: Seq<char>,
    query: Seq<char>,
) -> Seq<FileV>
    decreases files.len(),
{
    if files.len() == 0 {
        Seq::empty()
    } else {
        spec_search_found(files.drop_last(), folder, root, query) + (if contains_substr(
            files.last().name,
            query,
        ) {
            seq![
                FileV {
                    absolute_path: Some(spec_abs_entry_path(folder, root, files.last().name)),
                    ..files.last()
                },
            ]
        } else {
            Seq::empty()
        })
    }
}

/// Round trip of the search annotation: the descriptor of the entry at
/// `folder ++ '/' ++ name` carries exactly the name `name`, that path is
/// again under the root, and the root-relative path recorded for the entry
/// equals that path with the root prefix stripped.
pub proof fn lemma_absolute_path_round_trip(root: Seq<char>, folder: Seq<char>, name: Seq<char>)
    requires
        under_root(folder, root),
        name.len() > 0,
        !name.contains('/'),
    ensures
        under_root(folder + seq!['/'] + name, root),
        basename(folder + seq!['/'] + name) == name,
        spec_abs_entry_path(folder, root, name) == spec_strip_root(
            folder + seq!['/'] + name,
            root,
        ),
{
    let p = folder + seq!['/'] + name;
    lemma_extend_under_root(root, folder, name);
    assert forall|j: int| folder.len() + 1 <= j < p.len() implies p[j] != '/' by {
        assert(p[j] == name[j - (folder.len() + 1)]);
        if name[j - (folder.len() + 1)] == '/' {
            assert(name.contains('/'));
        }
    }
    lemma_basename_subrange(p, folder.len() as int + 1);
    assert(p.subrange(folder.len() as int + 1, p.len() as int) =~= name);
    if folder == root {
        assert(p.len() != root.len());
        assert(p.subrange(root.len() as int + 1, p.len() as int) =~= name);
    } else {
        assert(p.len() != root.len());
        assert(p.subrange(root.len() as int + 1, p.len() as int) =~= folder.subrange(
            root.len() as int + 1,
            folder.len() as int,
        ) + seq!['/'] + name);
    }
}

/// One step of the recursive name search: scan the descriptors of `folder`,
/// append every subfolder to the work list `pending`, and append every entry
/// whose name contains `query` to `found` with its root-relative path set.
/// Every path this step appends to the work list is again under the root, so
/// a search that starts at the root only ever scans folders under it.
pub fn search_step(
    folder: &String,
    files: &Vec<File>,
    query: &str,
    found: &mut Vec<File>,
    pending: &mut Vec<String>,
    root: &str,
)
    requires
        under_root(folder@, root@),
    ensures
        files_view(final(found)@) == files_view(old(found)@) + spec_search_found(
            files_view(files@),
            folder@,
            root@,
            query@,
        ),
        strs_view(final(pending)@) == strs_view(old(pending)@) + spec_search_pending(
            files_view(files@),
            folder@,
        ),
        forall|i: int|
            old(pending)@.len() <= i < final(pending)@.len() ==> under_root(
                #[trigger] final(pending)@[i]@,
                root@,
            ),
{
    let mut j: usize = 0;
    proof {
        assert(files_view(files@.subrange(0, 0)) =~= Seq::<FileV>::empty());
        assert(files_view(found@) =~= files_view(found@) + spec_search_found(
            files_view(files@.subrange(0, 0)),
            folder@,
            root@,
            query@,
        ));
        assert(strs_view(pending@) =~= strs_view(pending@) + spec_search_pending(
            files_view(files@.subrange(0, 0)),
            folder@,
        ));
    }
    while j < files.len()
        invariant
            under_root(folder@, root@),
            0 <= j <= files@.len(),
            files_view(found@) == files_view(old(found)@) + spec_search_found(
                files_view(files@.subrange(0, j as int)),
                folder@,
                root@,
                query@,
            ),
            strs_view(pending@) == strs_view(old(pending)@) + spec_search_pending(
                files_view(files@.subrange(0, j as int)),
                folder@,
            ),
            forall|i: int|
                old(pending)@.len() <= i < pending@.len() ==> under_root(
                    #[trigger] pending@[i]@,
                    root@,
                ),
        decreases files@.len() - j,
    {
        let ghost found_pre = found@;
        let ghost pending_pre = pending@;
        let f = &files[j];
        let ghost fv = files@[j as int]@;
        if matches!(f.kind, FileKind::Folder) {
            let sub = str_concat(folder.as_str(), "/");
            let sub = sub.concat(f.name.as_str());
            proof {
                reveal_strlit("/");
                assert(sub@ =~= folder@ + seq!['/'] + f.name@);
                lemma_extend_under_root(root@, folder@, f.name@);
            }
            pending.push(sub);
            proof {
                assert(strs_view(pending@) =~= strs_view(pending_pre).push(
                    folder@ + seq!['/'] + fv.name,
                ));
            }
        }
        if str_contains(f.name.as_str(), query) {
            let g = f.clone().absolute_path(folder.as_str(), root);
            match g {
                Some(file) => {
                    found.push(file);
                    proof {
                        assert(file@ == (FileV {
                            absolute_path: Some(spec_abs_entry_path(folder@, root@, fv.name)),
                            ..fv
                        }));
                        assert(files_view(found@) =~= files_view(found_pre).push(file@));
                    }
                },
                None => {
                    proof {
                        assert(false);
                    }
                },
            }
        }
        proof {
            let pre = files_view(files@.subrange(0, j as int));
            let cur = files_view(files@.subrange(0, j + 1));
            assert(cur.drop_last() =~= pre);
            assert(cur.last() == fv);
            assert(spec_search_found(cur, folder@, root@, query@) == spec_search_found(
                pre,
                folder@,
                root@,
                query@,
            ) + (if contains_substr(fv.name, query@) {
                seq![
                    FileV {
                        absolute_path: Some(spec_abs_entry_path(folder@, root@, fv.name)),
                        ..fv
                    },
                ]
            } else {
                Seq::<FileV>::empty()
            }));
            assert(spec_search_pending(cur, folder@) == spec_search_pending(pre, folder@) + (
            if fv.kind is Folder {
                seq![folder@ + seq!['/'] + fv.name]
            } else {
                Seq::<Seq<char>>::empty()
            }));
            assert(files_view(found@) =~= files_view(old(found)@) + spec_search_found(
                cur,
                folder@,
                root@,
                query@,
            ));
            assert(strs_view(pending@) =~= strs_view(old(pending)@) + spec_search_pending(
                cur,
                folder@,
            ));
        }
        j = j + 1;
    }
    proof {
        assert(files@.subrange(0, files@.len() as int) =~= files@);
    }
}

} // verus!
