//! The desktop's filesystem: files and directories under `/apps`, `/data`
//! and `/system`, with each app's private folders.
use crate::ordered::{TextMap, text_listing};
use crate::text::{
    chars_of, concat2, contains_char, contains_text, copy_range, has_prefix, starts_with_chars,
    strip_both, strip_leading, strip_leading_chars, strip_trailing, strip_trailing_chars,
    string_from, text_contains, text_eq, text_starts_with,
};
use vstd::prelude::*;

verus! {

/// An entry of a directory listing: its path, `dir` or `file`, and its size.
#[derive(Debug)]
pub struct DirEntry {
    pub path: String,
    pub kind: &'static str,
    pub size: usize,
}

impl DirEntry {
    pub open spec fn view(&self) -> (Seq<char>, Seq<char>, usize) {
        (self.path@, self.kind@, self.size)
    }
}

/// The folders an app is given: its install root and its private data.
#[derive(Debug)]
pub struct AppFsView {
    pub root: String,
    pub data: String,
}

/// Why a filesystem request was refused.
#[derive(Debug, Clone, Copy, PartialEq, Eq, Structural)]
pub enum FsRefusal {
    Traversal,
    OutsideRoots,
    NotFound,
}

pub open spec fn refusal_text(e: FsRefusal) -> Seq<char> {
    match e {
        FsRefusal::Traversal => "directory traversal is forbidden"@,
        FsRefusal::OutsideRoots => "writes are limited to /data, /apps, or /system"@,
        FsRefusal::NotFound => "path not found"@,
    }
}

impl FsRefusal {
    /// The message the refusal is reported with.
    pub fn message(&self) -> (s: String)
        ensures
            s@ == refusal_text(*self),
    {
        match self {
            FsRefusal::Traversal => "directory traversal is forbidden".to_string(),
            FsRefusal::OutsideRoots => "writes are limited to /data, /apps, or /system".to_string(),
            FsRefusal::NotFound => "path not found".to_string(),
        }
    }
}

// ---------------------------------------------------------------------------
// Paths
// ---------------------------------------------------------------------------
/// A path with its surrounding `/` trimmed and one `/` put in front.
pub open spec fn normalized(p: Seq<char>) -> Seq<char> {
    seq!['/'] + strip_both(p, '/')
}

/// The position of the last `c` in `s`, if any.
pub open spec fn last_index(s: Seq<char>, c: char) -> Option<int>
    decreases s.len(),
{
    if s.len() == 0 {
        None
    } else if s.last() == c {
        Some(s.len() - 1)
    } else {
        last_index(s.drop_last(), c)
    }
}

/// Everything before the last `/`, or `/` when that is empty or there is no
/// `/`.
pub open spec fn parent_of(p: Seq<char>) -> Seq<char> {
    match last_index(p, '/') {
        Some(j) => if j == 0 {
            seq!['/']
        } else {
            p.subrange(0, j)
        },
        None => seq!['/'],
    }
}

/// `candidate` lies directly under `parent`: it starts with `parent` and a
/// `/`, and no further `/` follows.
pub open spec fn immediate_child(parent: Seq<char>, candidate: Seq<char>) -> bool {
    let prefix = if parent == seq!['/'] {
        seq!['/']
    } else {
        parent + seq!['/']
    };
    &&& parent != candidate
    &&& has_prefix(candidate, prefix)
    &&& !candidate.subrange(prefix.len() as int, candidate.len() as int).contains('/')
}

/// Whether a path may be touched: it must not climb with `..` and must lie
/// in one of the three roots.
pub open spec fn safety(path: Seq<char>) -> Result<(), FsRefusal> {
    let p = normalized(path);
    if contains_text(p, ".."@) {
        Err(FsRefusal::Traversal)
    } else if !(has_prefix(p, "/data"@) || has_prefix(p, "/apps"@) || has_prefix(p, "/system"@)) {
        Err(FsRefusal::OutsideRoots)
    } else {
        Ok(())
    }
}

/// Whether an app's two folders may be made: the refusal of its install
/// folder, else that of its data folder.
pub open spec fn app_gate(app_id: Seq<char>) -> Result<(), FsRefusal> {
    match safety("/apps/"@ + app_id) {
        Err(e) => Err(e),
        Ok(_) => safety("/data/apps/"@ + app_id),
    }
}

/// A path with its surrounding `/` trimmed and one `/` put in front.
pub fn normalize(path: &str) -> (r: String)
    ensures
        r@ == normalized(path@),
{
    let cs = chars_of(path);
    let lead = strip_leading_chars(cs.as_slice(), '/');
    let t = strip_trailing_chars(lead.as_slice(), '/');
    let mut out: Vec<char> = Vec::new();
    out.push('/');
    let mut i: usize = 0;
    while i < t.len()
        invariant
            i <= t@.len(),
            out@ == seq!['/'] + t@.take(i as int),
        decreases t@.len() - i,
    {
        proof {
            assert(t@.take(i + 1) =~= t@.take(i as int).push(t@[i as int]));
        }
        out.push(t[i]);
        i = i + 1;
    }
    proof {
        assert(t@.take(t@.len() as int) =~= t@);
    }
    string_from(out.as_slice())
}

proof fn lemma_last_index(s: Seq<char>, c: char, j: int)
    requires
        0 <= j <= s.len(),
        forall|k: int| j <= k < s.len() ==> s[k] != c,
    ensures
        j == 0 ==> last_index(s, c) is None,
        j > 0 && s[j - 1] == c ==> last_index(s, c) == Some(j - 1),
    decreases s.len(),
{
    if s.len() > 0 && s.len() > j {
        lemma_last_index(s.drop_last(), c, j);
    }
}

/// The directory a path lies in.
pub fn parent_dir(path: &str) -> (r: String)
    ensures
        r@ == parent_of(path@),
{
    let cs = chars_of(path);
    let mut j: usize = cs.len();
    while j > 0 && cs[j - 1] != '/'
        invariant
            j <= cs@.len(),
            cs@ == path@,
            forall|k: int| j <= k < cs@.len() ==> cs@[k] != '/',
        decreases j,
    {
        j = j - 1;
    }
    proof {
        lemma_last_index(cs@, '/', j as int);
    }
    if j <= 1 {
        return string_from(&['/']);
    }
    let head = copy_range(cs.as_slice(), 0, j - 1);
    string_from(head.as_slice())
}

/// Whether `candidate` lies directly under `parent`.
pub fn is_immediate_child(parent: &str, candidate: &str) -> (b: bool)
    ensures
        b == immediate_child(parent@, candidate@),
{
    if text_eq(parent, candidate) {
        return false;
    }
    let pc = chars_of(parent);
    let cc = chars_of(candidate);
    let mut prefix: Vec<char> = Vec::new();
    if pc.len() == 1 && pc[0] == '/' {
        prefix.push('/');
        proof {
            assert(pc@ =~= seq!['/']);
            assert(prefix@ =~= seq!['/']);
        }
    } else {
        prefix = copy_range(pc.as_slice(), 0, pc.len());
        prefix.push('/');
        proof {
            if pc@ == seq!['/'] {
                assert(pc@[0] == '/');
            }
            assert(prefix@ =~= pc@ + seq!['/']);
        }
    }
    if !starts_with_chars(cc.as_slice(), prefix.as_slice()) {
        return false;
    }
    let rest = copy_range(cc.as_slice(), prefix.len(), cc.len());
    !contains_char(rest.as_slice(), '/')
}

// ---------------------------------------------------------------------------
// Listings
// ---------------------------------------------------------------------------
/// The directories of a table that lie directly under `p`, as listing
/// entries.
pub open spec fn listed_dirs(s: Seq<(String, ())>, p: Seq<char>) -> Seq<(Seq<char>, Seq<char>, usize)>
    decreases s.len(),
{
    if s.len() == 0 {
        Seq::empty()
    } else {
        let rest = listed_dirs(s.drop_last(), p);
        if immediate_child(p, s.last().0@) {
            rest.push((s.last().0@, "dir"@, 0usize))
        } else {
            rest
        }
    }
}

/// The files of a table that lie directly under `p`, as listing entries.
pub open spec fn listed_files(s: Seq<(String, Vec<u8>)>, p: Seq<char>) -> Seq<
    (Seq<char>, Seq<char>, usize),
>
    decreases s.len(),
{
    if s.len() == 0 {
        Seq::empty()
    } else {
        let rest = listed_files(s.drop_last(), p);
        if immediate_child(p, s.last().0@) {
            rest.push((s.last().0@, "file"@, s.last().1@.len() as usize))
        } else {
            rest
        }
    }
}

/// The directories among `s` that lie directly under `p`, in the order of
/// `s`, as listing entries.
pub open spec fn dirs_under(s: Seq<(Seq<char>, ())>, p: Seq<char>) -> Seq<(Seq<char>, Seq<char>, usize)>
    decreases s.len(),
{
    if s.len() == 0 {
        Seq::empty()
    } else {
        let rest = dirs_under(s.drop_last(), p);
        if immediate_child(p, s.last().0) {
            rest.push((s.last().0, "dir"@, 0usize))
        } else {
            rest
        }
    }
}

/// The files among `s` that lie directly under `p`, in the order of `s`,
/// as listing entries with their sizes.
pub open spec fn files_under(s: Seq<(Seq<char>, Vec<u8>)>, p: Seq<char>) -> Seq<
    (Seq<char>, Seq<char>, usize),
>
    decreases s.len(),
{
    if s.len() == 0 {
        Seq::empty()
    } else {
        let rest = files_under(s.drop_last(), p);
        if immediate_child(p, s.last().0) {
            rest.push((s.last().0, "file"@, s.last().1@.len() as usize))
        } else {
            rest
        }
    }
}

proof fn lemma_dirs_under(s: Seq<(String, ())>, p: Seq<char>)
    ensures
        listed_dirs(s, p) == dirs_under(s.map_values(|e: (String, ())| (e.0@, e.1)), p),
    decreases s.len(),
{
    if s.len() > 0 {
        lemma_dirs_under(s.drop_last(), p);
        assert(s.map_values(|e: (String, ())| (e.0@, e.1)).drop_last() =~= s.drop_last().map_values(
            |e: (String, ())| (e.0@, e.1),
        ));
    } else {
        assert(s.map_values(|e: (String, ())| (e.0@, e.1)).len() == 0);
    }
}

proof fn lemma_files_under(s: Seq<(String, Vec<u8>)>, p: Seq<char>)
    ensures
        listed_files(s, p) == files_under(s.map_values(|e: (String, Vec<u8>)| (e.0@, e.1)), p),
    decreases s.len(),
{
    if s.len() > 0 {
        lemma_files_under(s.drop_last(), p);
        assert(s.map_values(|e: (String, Vec<u8>)| (e.0@, e.1)).drop_last() =~= s.drop_last().map_values(
            |e: (String, Vec<u8>)| (e.0@, e.1),
        ));
    } else {
        assert(s.map_values(|e: (String, Vec<u8>)| (e.0@, e.1)).len() == 0);
    }
}

/// The views of listing entries.
pub open spec fn entry_views(v: Seq<DirEntry>) -> Seq<(Seq<char>, Seq<char>, usize)> {
    v.map_values(|e: DirEntry| e@)
}

/// The desktop's files and directories.
#[derive(Debug)]
pub struct VirtualFileSystem {
    files: TextMap<Vec<u8>>,
    directories: TextMap<()>,
}

impl VirtualFileSystem {
    pub closed spec fn wf(&self) -> bool {
        self.files.wf() && self.directories.wf()
    }

    /// The content of each file.
    pub closed spec fn files(&self) -> Map<Seq<char>, Vec<u8>> {
        self.files@
    }

    /// The directories.
    pub closed spec fn dirs(&self) -> Set<Seq<char>> {
        self.directories@.dom()
    }

    /// What listing `path` gives: its subdirectories, then its files, each in
    /// path order.
    pub closed spec fn listing(&self, path: Seq<char>) -> Seq<(Seq<char>, Seq<char>, usize)> {
        listed_dirs(self.directories.items(), normalized(path)) + listed_files(
            self.files.items(),
            normalized(path),
        )
    }

    /// The directories, in path order.
    pub closed spec fn dir_order(&self) -> Seq<(Seq<char>, ())> {
        self.directories.items().map_values(|e: (String, ())| (e.0@, e.1))
    }

    /// The files with their contents, in path order.
    pub closed spec fn file_order(&self) -> Seq<(Seq<char>, Vec<u8>)> {
        self.files.items().map_values(|e: (String, Vec<u8>)| (e.0@, e.1))
    }

    /// The directories and the files in path order list each directory and
    /// each file once, and listing a path gives the directories directly under
    /// it, then the files directly under it, each in path order.
    pub proof fn lemma_listing(&self, path: Seq<char>)
        requires
            self.wf(),
        ensures
            text_listing(self.dir_order(), self.dirs().mk_map(|k: Seq<char>| ())),
            text_listing(self.file_order(), self.files()),
            self.listing(path) == dirs_under(self.dir_order(), normalized(path)) + files_under(
                self.file_order(),
                normalized(path),
            ),
    {
        let f = |u: ()| u;
        self.directories.lemma_listing(f);
        assert(self.dir_order() =~= self.directories.items().map_values(
            |e: (String, ())| (e.0@, f(e.1)),
        ));
        assert(self.dirs().mk_map(|k: Seq<char>| ()) =~= self.directories@.map_values(f));
        let g = |v: Vec<u8>| v;
        self.files.lemma_listing(g);
        assert(self.file_order() =~= self.files.items().map_values(
            |e: (String, Vec<u8>)| (e.0@, g(e.1)),
        ));
        assert(self.files() =~= self.files@.map_values(g));
        lemma_dirs_under(self.directories.items(), normalized(path));
        lemma_files_under(self.files.items(), normalized(path));
    }

    /// Writing `contents` at `path` took `self` to `post` with outcome `r`:
    /// a refused path changes nothing; otherwise the file is stored and its
    /// directory exists.
    pub open spec fn write_file_effect(
        &self,
        post: VirtualFileSystem,
        path: Seq<char>,
        contents: Vec<u8>,
        r: Result<(), FsRefusal>,
    ) -> bool {
        match safety(path) {
            Err(e) => r == Err::<(), FsRefusal>(e) && post.files() == self.files() && post.dirs()
                == self.dirs(),
            Ok(_) => {
                let p = normalized(path);
                &&& r is Ok
                &&& post.files() == self.files().insert(p, contents)
                &&& post.dirs() == self.dirs().insert(normalized(parent_of(p)))
            },
        }
    }

    /// Deleting `path` took `self` to `post` with outcome `r`: a file goes
    /// first, else a directory; nothing there is an error.
    pub open spec fn delete_effect(
        &self,
        post: VirtualFileSystem,
        path: Seq<char>,
        r: Result<(), FsRefusal>,
    ) -> bool {
        match safety(path) {
            Err(e) => r == Err::<(), FsRefusal>(e) && post.files() == self.files() && post.dirs()
                == self.dirs(),
            Ok(_) => {
                let p = normalized(path);
                if self.files().dom().contains(p) {
                    r is Ok && post.files() == self.files().remove(p) && post.dirs() == self.dirs()
                } else if self.dirs().contains(p) {
                    r is Ok && post.files() == self.files() && post.dirs() == self.dirs().remove(p)
                } else {
                    r == Err::<(), FsRefusal>(FsRefusal::NotFound) && post.files() == self.files()
                        && post.dirs() == self.dirs()
                }
            },
        }
    }

    /// The five system directories and no file.
    pub fn bootstrap() -> (fs: Self)
        ensures
            fs.wf(),
            fs.files() == Map::<Seq<char>, Vec<u8>>::empty(),
            fs.dirs() == set!["/"@, "/apps"@, "/data"@, "/system"@, "/system/apps"@],
    {
        let mut directories = TextMap::new();
        directories.insert("/".to_string(), ());
        directories.insert("/apps".to_string(), ());
        directories.insert("/data".to_string(), ());
        directories.insert("/system".to_string(), ());
        directories.insert("/system/apps".to_string(), ());
        proof {
            assert(directories@.dom() =~= set!["/"@, "/apps"@, "/data"@, "/system"@, "/system/apps"@]);
        }
        VirtualFileSystem { files: TextMap::new(), directories }
    }

    fn ensure_dir(&mut self, path: &str)
        requires
            old(self).wf(),
        ensures
            final(self).wf(),
            final(self).files() == old(self).files(),
            final(self).dirs() == old(self).dirs().insert(normalized(path@)),
    {
        self.directories.insert(normalize(path), ());
    }

    /// Whether a path may be touched.
    pub fn assert_safe(&self, path: &str) -> (r: Result<(), FsRefusal>)
        ensures
            r == safety(path@),
    {
        let p = normalize(path);
        if text_contains(p.as_str(), "..") {
            return Err(FsRefusal::Traversal);
        }
        if !(text_starts_with(p.as_str(), "/data") || text_starts_with(p.as_str(), "/apps")
            || text_starts_with(p.as_str(), "/system")) {
            return Err(FsRefusal::OutsideRoots);
        }
        Ok(())
    }

    /// Makes sure an app has its install folder `/apps/<id>` and its private
    /// data folder `/data/apps/<id>`, and names them; an id that would lead
    /// either folder out of the roots is refused and nothing is made.
    pub fn app_view(&mut self, app_id: &str) -> (r: Result<AppFsView, FsRefusal>)
        requires
            old(self).wf(),
        ensures
            final(self).wf(),
            final(self).files() == old(self).files(),
            match app_gate(app_id@) {
                Err(e) => r == Err::<AppFsView, FsRefusal>(e) && *final(self) == *old(self),
                Ok(_) => {
                    &&& r matches Ok(v) && v.root@ == "/apps/"@ + app_id@ && v.data@ == "/data/apps/"@
                        + app_id@
                    &&& final(self).dirs() == old(self).dirs().insert(normalized("/apps/"@ + app_id@)).insert(
                        normalized("/data/apps"@),
                    ).insert(normalized("/data/apps/"@ + app_id@))
                },
            },
    {
        let root = concat2("/apps/", app_id);
        let data = concat2("/data/apps/", app_id);
        match self.assert_safe(root.as_str()) {
            Err(e) => {
                return Err(e);
            },
            Ok(_) => {},
        }
        match self.assert_safe(data.as_str()) {
            Err(e) => {
                return Err(e);
            },
            Ok(_) => {},
        }
        self.ensure_dir(root.as_str());
        self.ensure_dir("/data/apps");
        self.ensure_dir(data.as_str());
        Ok(AppFsView { root, data })
    }

    /// The entries directly under a path.
    pub fn read_dir(&self, path: &str) -> (r: Result<Vec<DirEntry>, FsRefusal>)
        requires
            self.wf(),
        ensures
            safety(path@) is Err ==> r == Err::<Vec<DirEntry>, FsRefusal>(safety(path@)->Err_0),
            safety(path@) is Ok ==> (r matches Ok(v) && entry_views(v@) == self.listing(path@)),
    {
        match self.assert_safe(path) {
            Err(e) => {
                return Err(e);
            },
            Ok(()) => {},
        }
        let p = normalize(path);
        let mut entries: Vec<DirEntry> = Vec::new();
        let mut i: usize = 0;
        while i < self.directories.len()
            invariant
                i <= self.directories.items().len(),
                entry_views(entries@) == listed_dirs(self.directories.items().take(i as int), p@),
            decreases self.directories.items().len() - i,
        {
            let name = self.directories.key_at(i);
            proof {
                let s = self.directories.items();
                assert(s.take(i + 1).drop_last() =~= s.take(i as int));
                assert(s.take(i + 1).last() == s[i as int]);
            }
            if is_immediate_child(p.as_str(), name.as_str()) {
                let e = DirEntry { path: name.clone(), kind: "dir", size: 0 };
                proof {
                    assert(entry_views(entries@.push(e)) =~= entry_views(entries@).push(e@));
                }
                entries.push(e);
            }
            i = i + 1;
        }
        proof {
            assert(self.directories.items().take(self.directories.items().len() as int)
                =~= self.directories.items());
        }
        let ghost dirs_part = entry_views(entries@);
        let mut j: usize = 0;
        while j < self.files.len()
            invariant
                j <= self.files.items().len(),
                dirs_part == listed_dirs(self.directories.items(), p@),
                entry_views(entries@) == dirs_part + listed_files(
                    self.files.items().take(j as int),
                    p@,
                ),
            decreases self.files.items().len() - j,
        {
            let name = self.files.key_at(j);
            let bytes = self.files.value_at(j);
            proof {
                let s = self.files.items();
                assert(s.take(j + 1).drop_last() =~= s.take(j as int));
                assert(s.take(j + 1).last() == s[j as int]);
            }
            if is_immediate_child(p.as_str(), name.as_str()) {
                let e = DirEntry { path: name.clone(), kind: "file", size: bytes.len() };
                proof {
                    assert(entry_views(entries@.push(e)) =~= entry_views(entries@).push(e@));
                    assert(dirs_part + listed_files(self.files.items().take(j as int), p@).push(e@)
                        =~= (dirs_part + listed_files(self.files.items().take(j as int), p@)).push(
                        e@,
                    ));
                }
                entries.push(e);
            }
            j = j + 1;
        }
        proof {
            assert(self.files.items().take(self.files.items().len() as int) =~= self.files.items());
        }
        Ok(entries)
    }

    /// Stores a file, making sure its directory exists.
    pub fn write_file(&mut self, path: &str, contents: Vec<u8>) -> (r: Result<(), FsRefusal>)
        requires
            old(self).wf(),
        ensures
            final(self).wf(),
            old(self).write_file_effect(*final(self), path@, contents, r),
    {
        match self.assert_safe(path) {
            Err(e) => {
                return Err(e);
            },
            Ok(()) => {},
        }
        let p = normalize(path);
        let parent = parent_dir(p.as_str());
        self.ensure_dir(parent.as_str());
        self.files.insert(p, contents);
        Ok(())
    }

    /// Removes a file, or else a directory, at a path.
    pub fn delete(&mut self, path: &str) -> (r: Result<(), FsRefusal>)
        requires
            old(self).wf(),
        ensures
            final(self).wf(),
            old(self).delete_effect(*final(self), path@, r),
    {
        match self.assert_safe(path) {
            Err(e) => {
                return Err(e);
            },
            Ok(()) => {},
        }
        let p = normalize(path);
        if self.files.contains_key(p.as_str()) {
            let _ = self.files.remove(p.as_str());
            return Ok(());
        }
        if self.directories.contains_key(p.as_str()) {
            let _ = self.directories.remove(p.as_str());
            return Ok(());
        }
        Err(FsRefusal::NotFound)
    }
}

/// Any path whose normalized form climbs with `..` is refused.
pub proof fn law_traversal_refused(path: Seq<char>)
    requires
        contains_text(normalized(path), ".."@),
    ensures
        safety(path) == Err::<(), FsRefusal>(FsRefusal::Traversal),
{
}

/// No `/` in `p` is directly followed by another.
pub open spec fn single_slashes(p: Seq<char>) -> bool {
    forall|i: int| #![trigger p[i]] 0 <= i < p.len() - 1 && p[i] == '/' ==> p[i + 1] != '/'
}

proof fn lemma_last_index_shape(s: Seq<char>, c: char)
    ensures
        match last_index(s, c) {
            Some(j) => 0 <= j < s.len() && s[j] == c && forall|k: int| j < k < s.len() ==> s[k] != c,
            None => forall|k: int| 0 <= k < s.len() ==> s[k] != c,
        },
    decreases s.len(),
{
    if s.len() > 0 && s.last() != c {
        let t = s.drop_last();
        lemma_last_index_shape(t, c);
        match last_index(t, c) {
            Some(j) => {
                assert forall|k: int| j < k < s.len() implies s[k] != c by {
                    if k < s.len() - 1 {
                        assert(s[k] == t[k]);
                    }
                }
            },
            None => {
                assert forall|k: int| 0 <= k < s.len() implies s[k] != c by {
                    if k < s.len() - 1 {
                        assert(s[k] == t[k]);
                    }
                }
            },
        }
    }
}

proof fn lemma_listed_file(s: Seq<(String, Vec<u8>)>, q: Seq<char>, i: int)
    requires
        0 <= i < s.len(),
        immediate_child(q, s[i].0@),
    ensures
        listed_files(s, q).contains((s[i].0@, "file"@, s[i].1@.len() as usize)),
    decreases s.len(),
{
    let e = (s[i].0@, "file"@, s[i].1@.len() as usize);
    let rest = listed_files(s.drop_last(), q);
    if i == s.len() - 1 {
        assert(listed_files(s, q) == rest.push(e));
        assert(listed_files(s, q)[rest.len() as int] == e);
    } else {
        assert(s.drop_last()[i] == s[i]);
        lemma_listed_file(s.drop_last(), q, i);
        let k = choose|k: int| 0 <= k < rest.len() && rest[k] == e;
        if immediate_child(q, s.last().0@) {
            assert(listed_files(s, q)[k] == e);
        } else {
            assert(listed_files(s, q)[k] == e);
        }
    }
}

/// The directory a safe path is stored in lists it directly: normalizing the
/// parent of such a path gives back its part before the last `/`.
proof fn lemma_parent_lists_child(p: Seq<char>)
    requires
        p.len() > 1,
        p[0] == '/',
        single_slashes(p),
    ensures
        immediate_child(normalized(parent_of(p)), p),
{
    lemma_last_index_shape(p, '/');
    let j = last_index(p, '/')->0;
    assert(p[1] != '/');
    if j == 0 {
        let root = seq!['/'];
        assert(strip_leading(root, '/') == strip_leading(root.drop_first(), '/'));
        assert(root.drop_first() =~= Seq::<char>::empty());
        assert(normalized(root) =~= root);
        assert(parent_of(p) == root);
        assert(p.subrange(1, p.len() as int).contains('/') ==> false) by {
            if p.subrange(1, p.len() as int).contains('/') {
                let rest = p.subrange(1, p.len() as int);
                let k = choose|k: int| 0 <= k < rest.len() && rest[k] == '/';
                assert(p[k + 1] == '/');
            }
        }
        assert(has_prefix(p, root)) by {
            assert(p.subrange(0, 1) =~= root);
        }
    } else {
        assert(j >= 2) by {
            if j == 1 {
                assert(p[1] == '/');
            }
        }
        let head = p.subrange(0, j);
        let u = p.subrange(1, j);
        assert(head =~= seq!['/'] + u);
        assert(u[0] == p[1]);
        assert(strip_leading(head, '/') == strip_leading(head.drop_first(), '/'));
        assert(head.drop_first() =~= u);
        assert(strip_leading(u, '/') == u);
        assert(u.last() == p[j - 1]);
        assert(p[j - 1] != '/');
        assert(strip_trailing(u, '/') == u);
        assert(normalized(head) =~= head);
        assert(parent_of(p) == head);
        assert(head != seq!['/']) by {
            assert(head.len() >= 2);
        }
        let prefix = head + seq!['/'];
        assert(prefix =~= p.subrange(0, j + 1));
        assert(has_prefix(p, prefix));
        assert(p.subrange(j + 1, p.len() as int).contains('/') ==> false) by {
            if p.subrange(j + 1, p.len() as int).contains('/') {
                let rest = p.subrange(j + 1, p.len() as int);
                let k = choose|k: int| 0 <= k < rest.len() && rest[k] == '/';
                assert(p[j + 1 + k] == '/');
            }
        }
        assert(head != p) by {
            assert(head.len() != p.len());
        }
    }
}

/// A file stored under one of the roots, at a path without doubled slashes,
/// shows up with its size in the listing of the directory it was stored in.
pub proof fn law_written_file_is_listed(
    pre: VirtualFileSystem,
    post: VirtualFileSystem,
    path: Seq<char>,
    contents: Vec<u8>,
    r: Result<(), FsRefusal>,
)
    requires
        post.wf(),
        pre.write_file_effect(post, path, contents, r),
        safety(path) is Ok,
        single_slashes(normalized(path)),
    ensures
        r is Ok,
        post.listing(parent_of(normalized(path))).contains(
            (normalized(path), "file"@, contents@.len() as usize),
        ),
{
    let p = normalized(path);
    assert(p.len() > 1) by {
        reveal_strlit("/data");
        reveal_strlit("/apps");
        reveal_strlit("/system");
    }
    lemma_parent_lists_child(p);
    let q = normalized(parent_of(p));
    post.files.lemma_items();
    assert(post.files@.dom().contains(p));
    let i = choose|i: int| 0 <= i < post.files.items().len() && post.files.items()[i].0@ == p;
    assert(post.files.items()[i].1 == contents);
    lemma_listed_file(post.files.items(), q, i);
    let dirs_part = listed_dirs(post.directories.items(), q);
    let files_part = listed_files(post.files.items(), q);
    let e = (p, "file"@, contents@.len() as usize);
    let k = choose|k: int| 0 <= k < files_part.len() && files_part[k] == e;
    assert((dirs_part + files_part)[dirs_part.len() + k] == e);
}

} // verus!
