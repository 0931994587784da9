//! In-memory virtual filesystem with per-task access policies and
//! descriptor-based file access.
use crate::ordered::{IdMap, TextMap, id_listing, id_values, text_listing, texts_increasing};
use crate::text::{
    chars_of, contains_char, decimal, has_prefix, push_decimal, push_text, starts_with_chars,
    string_from, strip_leading, strip_leading_chars, strip_trailing, strip_trailing_chars, text_eq,
    trim, trim_chars,
};
use vstd::prelude::*;

verus! {

pub type FileDescriptor = u64;

pub const OPEN_READ: u32 = 1;

pub const OPEN_WRITE: u32 = 2;

pub const OPEN_CREATE: u32 = 4;

pub const OPEN_TRUNCATE: u32 = 8;

pub const OPEN_APPEND: u32 = 16;

#[derive(Debug, Clone, Copy, PartialEq, Eq, Structural)]
pub enum SeekWhence {
    Start,
    Current,
    End,
}

#[derive(Debug, Clone, Copy, PartialEq, Eq, Structural)]
pub enum NodeKind {
    File,
    Directory,
}

#[derive(Debug)]
pub struct VfsMetadata {
    pub kind: NodeKind,
    pub len: usize,
    pub mapped_host_path: Option<String>,
}

#[derive(Debug)]
pub struct VfsNode {
    pub path: String,
    pub metadata: VfsMetadata,
    pub content: Vec<u8>,
}

/// What a node holds, with its text and bytes as sequences.
pub struct NodeView {
    pub path: Seq<char>,
    pub kind: NodeKind,
    pub len: usize,
    pub mapped_host_path: Option<Seq<char>>,
    pub content: Seq<u8>,
}

impl View for VfsNode {
    type V = NodeView;

    open spec fn view(&self) -> NodeView {
        NodeView {
            path: self.path@,
            kind: self.metadata.kind,
            len: self.metadata.len,
            mapped_host_path: match self.metadata.mapped_host_path {
                Some(p) => Some(p@),
                None => None,
            },
            content: self.content@,
        }
    }
}

impl VfsNode {
    /// A copy of this node.
    pub fn duplicate(&self) -> (r: VfsNode)
        ensures
            r@ == self@,
    {
        let mapped = match &self.metadata.mapped_host_path {
            Some(p) => Some(p.clone()),
            None => None,
        };
        VfsNode {
            path: self.path.clone(),
            metadata: VfsMetadata { kind: self.metadata.kind, len: self.metadata.len, mapped_host_path: mapped },
            content: copy_bytes(&self.content),
        }
    }
}

#[derive(Debug)]
pub struct VfsDirEntry {
    pub path: String,
    pub kind: NodeKind,
    pub len: usize,
}

pub struct DirEntryView {
    pub path: Seq<char>,
    pub kind: NodeKind,
    pub len: usize,
}

impl View for VfsDirEntry {
    type V = DirEntryView;

    open spec fn view(&self) -> DirEntryView {
        DirEntryView { path: self.path@, kind: self.kind, len: self.len }
    }
}

/// What a task may do in the filesystem.
#[derive(Debug)]
pub struct TaskVfsPolicy {
    pub allow_read: bool,
    pub allow_write: bool,
    pub allow_create: bool,
    pub allow_delete: bool,
    pub allowed_prefixes: Vec<String>,
}

pub struct PolicyView {
    pub allow_read: bool,
    pub allow_write: bool,
    pub allow_create: bool,
    pub allow_delete: bool,
    pub allowed_prefixes: Seq<Seq<char>>,
}

impl View for TaskVfsPolicy {
    type V = PolicyView;

    open spec fn view(&self) -> PolicyView {
        PolicyView {
            allow_read: self.allow_read,
            allow_write: self.allow_write,
            allow_create: self.allow_create,
            allow_delete: self.allow_delete,
            allowed_prefixes: self.allowed_prefixes@.map_values(|p: String| p@),
        }
    }
}

/// Read, write and create are allowed, delete is not, and every path is in reach.
pub open spec fn default_policy() -> PolicyView {
    PolicyView {
        allow_read: true,
        allow_write: true,
        allow_create: true,
        allow_delete: false,
        allowed_prefixes: seq![seq!['/']],
    }
}

impl Default for TaskVfsPolicy {
    fn default() -> (p: Self)
        ensures
            p@ == default_policy(),
    {
        let root = string_from(&['/']);
        let mut prefixes: Vec<String> = Vec::new();
        prefixes.push(root);
        assert(prefixes@.map_values(|p: String| p@)[0] == seq!['/']);
        let p = TaskVfsPolicy {
            allow_read: true,
            allow_write: true,
            allow_create: true,
            allow_delete: false,
            allowed_prefixes: prefixes,
        };
        assert(p@.allowed_prefixes =~= seq![seq!['/']]);
        p
    }
}

#[derive(Debug)]
struct VfsHandle {
    task_id: u64,
    path: String,
    cursor: usize,
    readable: bool,
    writable: bool,
    append: bool,
}

pub struct HandleView {
    pub task_id: u64,
    pub path: Seq<char>,
    pub cursor: usize,
    pub readable: bool,
    pub writable: bool,
    pub append: bool,
}

impl View for VfsHandle {
    type V = HandleView;

    closed spec fn view(&self) -> HandleView {
        HandleView {
            task_id: self.task_id,
            path: self.path@,
            cursor: self.cursor,
            readable: self.readable,
            writable: self.writable,
            append: self.append,
        }
    }
}

#[derive(Debug)]
pub struct VfsHandleInfo {
    pub fd: FileDescriptor,
    pub path: String,
    pub cursor: usize,
    pub readable: bool,
    pub writable: bool,
    pub append: bool,
}

#[derive(Debug)]
pub enum VfsError {
    NotFound(String),
    AlreadyExists(String),
    NotAFile(String),
    NotADirectory(String),
    PermissionDenied(String),
    InvalidFd(FileDescriptor),
    InvalidOpenFlags,
    InvalidSeek,
    Snapshot(String),
}

/// A filesystem error with its text as a sequence.
pub enum Fault {
    NotFound(Seq<char>),
    AlreadyExists(Seq<char>),
    NotAFile(Seq<char>),
    NotADirectory(Seq<char>),
    PermissionDenied(Seq<char>),
    InvalidFd(u64),
    InvalidOpenFlags,
    InvalidSeek,
    Snapshot(Seq<char>),
}

impl View for VfsError {
    type V = Fault;

    open spec fn view(&self) -> Fault {
        match self {
            VfsError::NotFound(s) => Fault::NotFound(s@),
            VfsError::AlreadyExists(s) => Fault::AlreadyExists(s@),
            VfsError::NotAFile(s) => Fault::NotAFile(s@),
            VfsError::NotADirectory(s) => Fault::NotADirectory(s@),
            VfsError::PermissionDenied(s) => Fault::PermissionDenied(s@),
            VfsError::InvalidFd(fd) => Fault::InvalidFd(*fd),
            VfsError::InvalidOpenFlags => Fault::InvalidOpenFlags,
            VfsError::InvalidSeek => Fault::InvalidSeek,
            VfsError::Snapshot(s) => Fault::Snapshot(s@),
        }
    }
}

/// The outcome of an operation, with its error seen as a `Fault`.
pub open spec fn outcome<T>(r: Result<T, VfsError>) -> Result<T, Fault> {
    match r {
        Ok(v) => Ok(v),
        Err(e) => Err(e@),
    }
}

// ---------------------------------------------------------------------------
// Paths
// ---------------------------------------------------------------------------
/// The canonical form of a path: trimmed, and rooted at exactly one `/`.
pub open spec fn normalized(p: Seq<char>) -> Seq<char> {
    let t = trim(p);
    if t == seq!['/'] {
        seq!['/']
    } else {
        seq!['/'] + strip_leading(t, '/')
    }
}

/// `child` lies directly under `parent`.
pub open spec fn direct_child(parent: Seq<char>, child: Seq<char>) -> bool {
    let base = if parent == seq!['/'] {
        seq!['/']
    } else {
        strip_trailing(parent, '/') + seq!['/']
    };
    &&& parent != child
    &&& has_prefix(child, base)
    &&& child.len() > base.len()
    &&& !child.subrange(base.len() as int, child.len() as int).contains('/')
}

/// A path that a policy prefix lets a task reach.
pub open spec fn prefix_admits(prefix: Seq<char>, path: Seq<char>) -> bool {
    path == prefix || has_prefix(path, strip_trailing(prefix, '/') + seq!['/'])
}

proof fn lemma_strip_leading_shape(s: Seq<char>, c: char)
    ensures
        strip_leading(s, c).len() <= s.len(),
        strip_leading(s, c).len() > 0 ==> strip_leading(s, c)[0] != c,
        strip_leading(s, c) == s.subrange(s.len() - strip_leading(s, c).len(), s.len() as int),
    decreases s.len(),
{
    if s.len() > 0 && s[0] == c {
        lemma_strip_leading_shape(s.drop_first(), c);
        let r = strip_leading(s, c);
        assert(s.drop_first().subrange(s.len() - 1 - r.len(), s.len() - 1) =~= s.subrange(
            s.len() - r.len(),
            s.len() as int,
        ));
    } else {
        assert(s.subrange(0, s.len() as int) =~= s);
    }
}

proof fn lemma_strip_leading_noop(s: Seq<char>, c: char)
    requires
        s.len() == 0 || s[0] != c,
    ensures
        strip_leading(s, c) == s,
{
}

proof fn lemma_trim_shape(s: Seq<char>)
    ensures
        trim(s).len() > 0 ==> !crate::text::is_space(trim(s)[0]) && !crate::text::is_space(
            trim(s).last(),
        ),
        trim(trim(s)) == trim(s),
{
    lemma_trim_start_shape(s);
    let a = crate::text::trim_start(s);
    lemma_trim_end_shape(a);
    let b = crate::text::trim_end(a);
    if b.len() > 0 {
        assert(b[0] == a[0]);
    }
    lemma_trim_start_shape(b);
    assert(crate::text::trim_start(b) == b);
    lemma_trim_end_shape(b);
}

proof fn lemma_trim_start_shape(s: Seq<char>)
    ensures
        crate::text::trim_start(s).len() > 0 ==> !crate::text::is_space(
            crate::text::trim_start(s)[0],
        ),
        crate::text::trim_start(s).len() == 0 || !crate::text::is_space(
            crate::text::trim_start(s)[0],
        ) ==> crate::text::trim_start(crate::text::trim_start(s)) == crate::text::trim_start(s),
    decreases s.len(),
{
    if s.len() > 0 && crate::text::is_space(s[0]) {
        lemma_trim_start_shape(s.drop_first());
    }
}

proof fn lemma_trim_end_shape(s: Seq<char>)
    ensures
        crate::text::trim_end(s).len() > 0 ==> !crate::text::is_space(crate::text::trim_end(s).last()),
        crate::text::trim_end(s).len() <= s.len(),
        crate::text::trim_end(s) == s.subrange(0, crate::text::trim_end(s).len() as int),
        crate::text::trim_end(crate::text::trim_end(s)) == crate::text::trim_end(s),
    decreases s.len(),
{
    if s.len() > 0 && crate::text::is_space(s.last()) {
        lemma_trim_end_shape(s.drop_last());
        let r = crate::text::trim_end(s);
        assert(s.drop_last().subrange(0, r.len() as int) =~= s.subrange(0, r.len() as int));
    } else {
        assert(s.subrange(0, s.len() as int) =~= s);
    }
}

/// Normalizing a normalized path changes nothing.
pub proof fn lemma_normalized_idempotent(p: Seq<char>)
    ensures
        normalized(normalized(p)) == normalized(p),
{
    let t = trim(p);
    lemma_trim_shape(p);
    if t == seq!['/'] {
        assert(trim(seq!['/']) == seq!['/']) by {
            reveal_with_fuel(crate::text::trim_start, 2);
            reveal_with_fuel(crate::text::trim_end, 2);
        }
    } else {
        let x = strip_leading(t, '/');
        lemma_strip_leading_shape(t, '/');
        let n = seq!['/'] + x;
        // n has no surrounding whitespace, so trimming keeps it.
        assert(n[0] == '/');
        assert(trim(n) == n) by {
            assert(crate::text::trim_start(n) == n);
            if x.len() > 0 {
                assert(n.last() == x.last());
                assert(x.last() == t.last());
            }
            assert(crate::text::trim_end(n) == n);
        }
        if n == seq!['/'] {
        } else {
            assert(n.drop_first() =~= x);
            assert(strip_leading(n, '/') == strip_leading(x, '/'));
            if x.len() > 0 {
                lemma_strip_leading_noop(x, '/');
            }
        }
    }
}

/// `str::trim` then the canonical leading `/`.
pub fn normalize(path: String) -> (r: String)
    ensures
        r@ == normalized(path@),
{
    let cs = chars_of(path.as_str());
    let t = trim_chars(cs.as_slice());
    if t.len() == 1 && t[0] == '/' {
        proof {
            assert(t@ =~= seq!['/']);
        }
        return string_from(&['/']);
    }
    proof {
        if t@ == seq!['/'] {
            assert(t@[0] == '/');
        }
    }
    let rest = strip_leading_chars(t.as_slice(), '/');
    let mut out: Vec<char> = Vec::new();
    out.push('/');
    let mut i: usize = 0;
    while i < rest.len()
        invariant
            i <= rest@.len(),
            out@ == seq!['/'] + rest@.subrange(0, i as int),
        decreases rest@.len() - i,
    {
        out.push(rest[i]);
        proof {
            assert(rest@.subrange(0, i + 1) =~= rest@.subrange(0, i as int).push(rest@[i as int]));
        }
        i = i + 1;
    }
    proof {
        assert(rest@.subrange(0, rest@.len() as int) =~= rest@);
    }
    string_from(out.as_slice())
}

/// Whether `child` lies directly under `parent`.
pub fn is_direct_child(parent: &str, child: &str) -> (b: bool)
    ensures
        b == direct_child(parent@, child@),
{
    if text_eq(parent, child) {
        return false;
    }
    let pc = chars_of(parent);
    let cc = chars_of(child);
    let base: Vec<char> = if pc.len() == 1 && pc[0] == '/' {
        proof {
            assert(pc@ =~= seq!['/']);
        }
        let mut b: Vec<char> = Vec::new();
        b.push('/');
        b
    } else {
        proof {
            if pc@ == seq!['/'] {
                assert(pc@[0] == '/');
            }
        }
        let mut b = strip_trailing_chars(pc.as_slice(), '/');
        b.push('/');
        b
    };
    proof {
        if pc@ == seq!['/'] {
            assert(base@ =~= seq!['/']);
        } else {
            assert(base@ =~= strip_trailing(pc@, '/') + seq!['/']);
        }
    }
    if !starts_with_chars(cc.as_slice(), base.as_slice()) {
        return false;
    }
    if cc.len() <= base.len() {
        return false;
    }
    let rem = crate::text::copy_range(cc.as_slice(), base.len(), cc.len());
    !contains_char(rem.as_slice(), '/')
}

// ---------------------------------------------------------------------------
// Policy checks
// ---------------------------------------------------------------------------
pub open spec fn msg_task(task_id: u64, tail: Seq<char>) -> Seq<char> {
    "task "@ + decimal(task_id as nat) + tail
}

/// The decision of the policy gate for one request.
pub open spec fn enforce_outcome(
    policy: PolicyView,
    task_id: u64,
    path: Seq<char>,
    need_read: bool,
    need_write: bool,
    need_create: bool,
    need_delete: bool,
) -> Result<(), Fault> {
    if need_read && !policy.allow_read {
        Err(Fault::PermissionDenied(msg_task(task_id, " cannot read"@)))
    } else if need_write && !policy.allow_write {
        Err(Fault::PermissionDenied(msg_task(task_id, " cannot write"@)))
    } else if need_create && !policy.allow_create {
        Err(Fault::PermissionDenied(msg_task(task_id, " cannot create"@)))
    } else if need_delete && !policy.allow_delete {
        Err(Fault::PermissionDenied(msg_task(task_id, " cannot delete"@)))
    } else if policy.allowed_prefixes.len() > 0 && !(exists|i: int|
        0 <= i < policy.allowed_prefixes.len() && prefix_admits(
            #[trigger] policy.allowed_prefixes[i],
            path,
        )) {
        Err(Fault::PermissionDenied("path "@ + path + " not permitted"@))
    } else {
        Ok(())
    }
}

fn prefix_admits_exec(prefix: &str, path: &str) -> (b: bool)
    ensures
        b == prefix_admits(prefix@, path@),
{
    if text_eq(path, prefix) {
        return true;
    }
    let pc = chars_of(prefix);
    let mut base = strip_trailing_chars(pc.as_slice(), '/');
    base.push('/');
    assert(base@ =~= strip_trailing(prefix@, '/') + seq!['/']);
    let cs = chars_of(path);
    starts_with_chars(cs.as_slice(), base.as_slice())
}

fn task_message(task_id: u64, tail: &str) -> (s: String)
    ensures
        s@ == msg_task(task_id, tail@),
{
    let mut out: Vec<char> = Vec::new();
    push_text(&mut out, "task ");
    push_decimal(&mut out, task_id);
    push_text(&mut out, tail);
    proof {
        assert(out@ =~= msg_task(task_id, tail@));
    }
    string_from(out.as_slice())
}

fn fd_message(task_id: u64, verb: &str, fd: u64) -> (s: String)
    ensures
        s@ == msg_task(task_id, verb@ + decimal(fd as nat)),
{
    let mut out: Vec<char> = Vec::new();
    push_text(&mut out, "task ");
    push_decimal(&mut out, task_id);
    push_text(&mut out, verb);
    push_decimal(&mut out, fd);
    proof {
        assert(out@ =~= msg_task(task_id, verb@ + decimal(fd as nat)));
    }
    string_from(out.as_slice())
}

/// Checks a request against a policy.
pub fn check_policy(
    policy: &TaskVfsPolicy,
    task_id: u64,
    path: &str,
    need_read: bool,
    need_write: bool,
    need_create: bool,
    need_delete: bool,
) -> (r: Result<(), VfsError>)
    ensures
        outcome(r) == enforce_outcome(
            policy@,
            task_id,
            path@,
            need_read,
            need_write,
            need_create,
            need_delete,
        ),
{
    if need_read && !policy.allow_read {
        return Err(VfsError::PermissionDenied(task_message(task_id, " cannot read")));
    }
    if need_write && !policy.allow_write {
        return Err(VfsError::PermissionDenied(task_message(task_id, " cannot write")));
    }
    if need_create && !policy.allow_create {
        return Err(VfsError::PermissionDenied(task_message(task_id, " cannot create")));
    }
    if need_delete && !policy.allow_delete {
        return Err(VfsError::PermissionDenied(task_message(task_id, " cannot delete")));
    }
    if policy.allowed_prefixes.len() > 0 {
        let mut i: usize = 0;
        let mut found = false;
        while i < policy.allowed_prefixes.len()
            invariant
                i <= policy.allowed_prefixes@.len(),
                found == exists|j: int|
                    0 <= j < i && prefix_admits(#[trigger] policy@.allowed_prefixes[j], path@),
            decreases policy.allowed_prefixes@.len() - i,
        {
            let hit = prefix_admits_exec(policy.allowed_prefixes[i].as_str(), path);
            proof {
                assert(policy@.allowed_prefixes[i as int] == policy.allowed_prefixes@[i as int]@);
                if hit {
                    assert(prefix_admits(policy@.allowed_prefixes[i as int], path@));
                }
                if found || hit {
                    let j = if hit { i as int } else {
                        choose|j: int|
                            0 <= j < i && prefix_admits(#[trigger] policy@.allowed_prefixes[j], path@)
                    };
                    assert(0 <= j < i + 1 && prefix_admits(policy@.allowed_prefixes[j], path@));
                }
                if !(found || hit) {
                    assert forall|j: int|
                        0 <= j < i + 1 implies !prefix_admits(
                        #[trigger] policy@.allowed_prefixes[j],
                        path@,
                    ) by {
                        if j == i {
                        }
                    }
                }
            }
            found = found || hit;
            i = i + 1;
        }
        if !found {
            let mut out: Vec<char> = Vec::new();
            push_text(&mut out, "path ");
            push_text(&mut out, path);
            push_text(&mut out, " not permitted");
            proof {
                assert(out@ =~= "path "@ + path@ + " not permitted"@);
            }
            return Err(VfsError::PermissionDenied(string_from(out.as_slice())));
        }
    }
    Ok(())
}


// ---------------------------------------------------------------------------
// The filesystem
// ---------------------------------------------------------------------------
pub open spec fn dir_node(p: Seq<char>) -> NodeView {
    NodeView {
        path: p,
        kind: NodeKind::Directory,
        len: 0,
        mapped_host_path: None,
        content: Seq::empty(),
    }
}

pub open spec fn file_node(p: Seq<char>, content: Seq<u8>) -> NodeView {
    NodeView {
        path: p,
        kind: NodeKind::File,
        len: content.len() as usize,
        mapped_host_path: None,
        content,
    }
}

/// The entry that a directory listing shows for a node.
pub open spec fn entry_of(n: NodeView) -> DirEntryView {
    DirEntryView { path: n.path, kind: n.kind, len: n.len }
}

/// The entries directly under `dir`, in path order.
pub open spec fn listing(s: Seq<(Seq<char>, NodeView)>, dir: Seq<char>) -> Seq<DirEntryView>
    decreases s.len(),
{
    if s.len() == 0 {
        Seq::empty()
    } else {
        let rest = listing(s.drop_last(), dir);
        if direct_child(dir, s.last().0) {
            rest.push(entry_of(s.last().1))
        } else {
            rest
        }
    }
}

pub struct HandleInfoView {
    pub fd: u64,
    pub path: Seq<char>,
    pub cursor: usize,
    pub readable: bool,
    pub writable: bool,
    pub append: bool,
}

impl View for VfsHandleInfo {
    type V = HandleInfoView;

    open spec fn view(&self) -> HandleInfoView {
        HandleInfoView {
            fd: self.fd,
            path: self.path@,
            cursor: self.cursor,
            readable: self.readable,
            writable: self.writable,
            append: self.append,
        }
    }
}

pub open spec fn info_of(fd: u64, h: HandleView) -> HandleInfoView {
    HandleInfoView {
        fd,
        path: h.path,
        cursor: h.cursor,
        readable: h.readable,
        writable: h.writable,
        append: h.append,
    }
}

/// The descriptors of `task_id`, in descriptor order.
pub open spec fn handles_listing(s: Seq<(u64, HandleView)>, task_id: u64) -> Seq<HandleInfoView>
    decreases s.len(),
{
    if s.len() == 0 {
        Seq::empty()
    } else {
        let rest = handles_listing(s.drop_last(), task_id);
        if s.last().1.task_id == task_id {
            rest.push(info_of(s.last().0, s.last().1))
        } else {
            rest
        }
    }
}

/// The content of a file after writing `b` at position `at`: the gap up to
/// `at` is filled with zeros and the file grows to hold the bytes.
pub open spec fn written(c: Seq<u8>, at: int, b: Seq<u8>) -> Seq<u8> {
    let end = at + b.len();
    let total = if c.len() > end {
        c.len() as int
    } else {
        end
    };
    Seq::new(
        total as nat,
        |i: int|
            if at <= i < end {
                b[i - at]
            } else if i < c.len() {
                c[i]
            } else {
                0u8
            },
    )
}

pub open spec fn saturating_next(n: u64) -> u64 {
    if n == u64::MAX {
        n
    } else {
        (n + 1) as u64
    }
}

pub struct VirtualFileSystem {
    nodes: TextMap<VfsNode>,
    task_policies: IdMap<TaskVfsPolicy>,
    handles: IdMap<VfsHandle>,
    next_fd: FileDescriptor,
}

proof fn lemma_node_map_insert(m: Map<Seq<char>, VfsNode>, k: Seq<char>, n: VfsNode)
    ensures
        m.insert(k, n).map_values(|x: VfsNode| x@) == m.map_values(|x: VfsNode| x@).insert(k, n@),
{
    assert(m.insert(k, n).map_values(|x: VfsNode| x@) =~= m.map_values(|x: VfsNode| x@).insert(
        k,
        n@,
    ));
}

proof fn lemma_node_map_remove(m: Map<Seq<char>, VfsNode>, k: Seq<char>)
    ensures
        m.remove(k).map_values(|x: VfsNode| x@) == m.map_values(|x: VfsNode| x@).remove(k),
{
    assert(m.remove(k).map_values(|x: VfsNode| x@) =~= m.map_values(|x: VfsNode| x@).remove(k));
}

proof fn lemma_handle_map_insert(m: Map<u64, VfsHandle>, k: u64, h: VfsHandle)
    ensures
        m.insert(k, h).map_values(|x: VfsHandle| x@) == m.map_values(|x: VfsHandle| x@).insert(
            k,
            h@,
        ),
{
    assert(m.insert(k, h).map_values(|x: VfsHandle| x@) =~= m.map_values(
        |x: VfsHandle| x@,
    ).insert(k, h@));
}

proof fn lemma_handle_map_remove(m: Map<u64, VfsHandle>, k: u64)
    ensures
        m.remove(k).map_values(|x: VfsHandle| x@) == m.map_values(|x: VfsHandle| x@).remove(k),
{
    assert(m.remove(k).map_values(|x: VfsHandle| x@) =~= m.map_values(|x: VfsHandle| x@).remove(
        k,
    ));
}

impl VirtualFileSystem {
    pub closed spec fn wf(&self) -> bool {
        &&& self.nodes.wf()
        &&& self.task_policies.wf()
        &&& self.handles.wf()
        &&& forall|k: u64| #[trigger]
            self.handles@.dom().contains(k) ==> k < self.next_fd || self.next_fd == u64::MAX
    }

    /// Walking the nodes in path order lists every node once.
    pub proof fn lemma_node_entries(&self)
        requires
            self.wf(),
        ensures
            text_listing(self.node_entries(), self.nodes()),
    {
        let f = |n: VfsNode| n@;
        self.nodes.lemma_listing(f);
        assert(self.node_entries() =~= self.nodes.items().map_values(
            |e: (String, VfsNode)| (e.0@, f(e.1)),
        ));
        assert(self.nodes() =~= self.nodes@.map_values(f));
    }

    /// Walking the descriptors in order lists every open descriptor once, and
    /// every open descriptor lies below the next one handed out, unless the
    /// numbers ran out.
    pub proof fn lemma_handle_entries(&self)
        requires
            self.wf(),
        ensures
            id_listing(self.handle_entries(), self.handles()),
            forall|k: u64| #[trigger]
                self.handles().dom().contains(k) ==> k < self.next_fd() || self.next_fd() == u64::MAX,
    {
        let f = |h: VfsHandle| h@;
        self.handles.lemma_listing(f);
        assert(self.handle_entries() =~= self.handles.items().map_values(
            |e: (u64, VfsHandle)| (e.0, f(e.1)),
        ));
        assert(self.handles() =~= self.handles@.map_values(f));
    }

    /// The nodes, by path.
    pub closed spec fn nodes(&self) -> Map<Seq<char>, NodeView> {
        self.nodes@.map_values(|n: VfsNode| n@)
    }

    /// The nodes in path order.
    pub closed spec fn node_entries(&self) -> Seq<(Seq<char>, NodeView)> {
        self.nodes.items().map_values(|e: (String, VfsNode)| (e.0@, e.1@))
    }

    /// The policies that tasks were given.
    pub closed spec fn policies(&self) -> Map<u64, PolicyView> {
        self.task_policies@.map_values(|p: TaskVfsPolicy| p@)
    }

    /// The policy in force for a task: its own, or the default one.
    pub open spec fn policy_of(&self, task_id: u64) -> PolicyView {
        if self.policies().dom().contains(task_id) {
            self.policies()[task_id]
        } else {
            default_policy()
        }
    }

    /// The open descriptors.
    pub closed spec fn handles(&self) -> Map<u64, HandleView> {
        self.handles@.map_values(|h: VfsHandle| h@)
    }

    /// The open descriptors in descriptor order.
    pub closed spec fn handle_entries(&self) -> Seq<(u64, HandleView)> {
        self.handles.items().map_values(|e: (u64, VfsHandle)| (e.0, e.1@))
    }

    /// The descriptor the next open hands out.
    pub closed spec fn next_fd(&self) -> u64 {
        self.next_fd
    }

    /// Everything but the nodes is as in `other`.
    pub open spec fn same_but_nodes(&self, other: &Self) -> bool {
        &&& self.policies() == other.policies()
        &&& self.handles() == other.handles()
        &&& self.next_fd() == other.next_fd()
    }

    /// Everything but the descriptors is as in `other`.
    pub open spec fn same_but_handles(&self, other: &Self) -> bool {
        &&& self.nodes() == other.nodes()
        &&& self.policies() == other.policies()
        &&& self.next_fd() == other.next_fd()
    }

    /// Nothing differs from `other`.
    pub open spec fn same_as(&self, other: &Self) -> bool {
        &&& self.nodes() == other.nodes()
        &&& self.same_but_nodes(other)
    }

    /// A filesystem that holds only the root directory.
    pub fn new() -> (vfs: Self)
        ensures
            vfs.wf(),
            vfs.nodes() == Map::<Seq<char>, NodeView>::empty().insert(seq!['/'], dir_node(seq!['/'])),
            vfs.policies() == Map::<u64, PolicyView>::empty(),
            vfs.handles() == Map::<u64, HandleView>::empty(),
            vfs.next_fd() == 3,
    {
        let mut vfs = VirtualFileSystem {
            nodes: TextMap::new(),
            task_policies: IdMap::new(),
            handles: IdMap::new(),
            next_fd: 3,
        };
        let root = root_path();
        proof {
            assert(vfs.nodes() =~= Map::<Seq<char>, NodeView>::empty());
        }
        let r = vfs.create_dir(root.as_str());
        proof {
            reveal_with_fuel(crate::text::trim_start, 2);
            reveal_with_fuel(crate::text::trim_end, 2);
            assert(trim(seq!['/']) == seq!['/']);
            assert(vfs.nodes() =~= Map::<Seq<char>, NodeView>::empty().insert(
                seq!['/'],
                dir_node(seq!['/']),
            ));
            assert(vfs.policies() =~= Map::<u64, PolicyView>::empty());
            assert(vfs.handles() =~= Map::<u64, HandleView>::empty());
        }
        vfs
    }

    /// Gives a task its own policy.
    pub fn set_task_policy(&mut self, task_id: u64, policy: TaskVfsPolicy)
        requires
            old(self).wf(),
        ensures
            final(self).wf(),
            final(self).policies() == old(self).policies().insert(task_id, policy@),
            final(self).nodes() == old(self).nodes(),
            final(self).handles() == old(self).handles(),
            final(self).next_fd() == old(self).next_fd(),
    {
        let ghost pv = policy@;
        self.task_policies.insert(task_id, policy);
        proof {
            assert(self.policies() =~= old(self).policies().insert(task_id, pv));
        }
    }

    /// Creates a directory; fails if anything is already at the path.
    pub fn create_dir(&mut self, path: &str) -> (r: Result<(), VfsError>)
        requires
            old(self).wf(),
        ensures
            final(self).wf(),
            final(self).same_but_nodes(old(self)),
            ({
                let p = normalized(path@);
                if old(self).nodes().dom().contains(p) {
                    outcome(r) == Err::<(), Fault>(Fault::AlreadyExists(p)) && final(self).nodes()
                        == old(self).nodes()
                } else {
                    r is Ok && final(self).nodes() == old(self).nodes().insert(p, dir_node(p))
                }
            }),
    {
        let p = normalize(path.to_string());
        if self.nodes.contains_key(p.as_str()) {
            return Err(VfsError::AlreadyExists(p));
        }
        let node = VfsNode {
            path: p.clone(),
            metadata: VfsMetadata { kind: NodeKind::Directory, len: 0, mapped_host_path: None },
            content: Vec::new(),
        };
        let ghost nv = node@;
        self.nodes.insert(p, node);
        proof {
            lemma_node_map_insert(old(self).nodes@, nv.path, node);
            assert(nv == dir_node(normalized(path@)));
        }
        Ok(())
    }

    /// Writes a whole file, replacing whatever node was at the path.
    pub fn write_file(&mut self, path: &str, content: Vec<u8>) -> (r: Result<(), VfsError>)
        requires
            old(self).wf(),
        ensures
            final(self).wf(),
            final(self).same_but_nodes(old(self)),
            r is Ok,
            final(self).nodes() == old(self).nodes().insert(
                normalized(path@),
                file_node(normalized(path@), content@),
            ),
    {
        let p = normalize(path.to_string());
        let len = content.len();
        let node = VfsNode {
            path: p.clone(),
            metadata: VfsMetadata { kind: NodeKind::File, len, mapped_host_path: None },
            content,
        };
        proof {
            lemma_node_map_insert(old(self).nodes@, p@, node);
        }
        self.nodes.insert(p, node);
        Ok(())
    }

    /// The content of a file.
    pub fn read_file(&self, path: &str) -> (r: Result<Vec<u8>, VfsError>)
        requires
            self.wf(),
        ensures
            read_view(r) == file_read(self.nodes(), path@),
    {
        let p = normalize(path.to_string());
        match self.nodes.get(p.as_str()) {
            None => Err(VfsError::NotFound(p)),
            Some(node) => {
                match node.metadata.kind {
                    NodeKind::File => Ok(copy_bytes(&node.content)),
                    NodeKind::Directory => Err(VfsError::NotAFile(p)),
                }
            },
        }
    }

    /// Removes the node at a path.
    pub fn delete(&mut self, path: &str) -> (r: Result<(), VfsError>)
        requires
            old(self).wf(),
        ensures
            final(self).wf(),
            final(self).same_but_nodes(old(self)),
            ({
                let p = normalized(path@);
                if old(self).nodes().dom().contains(p) {
                    r is Ok && final(self).nodes() == old(self).nodes().remove(p)
                } else {
                    outcome(r) == Err::<(), Fault>(Fault::NotFound(p)) && final(self).nodes()
                        == old(self).nodes()
                }
            }),
    {
        let p = normalize(path.to_string());
        proof {
            lemma_node_map_remove(old(self).nodes@, p@);
        }
        match self.nodes.remove(p.as_str()) {
            Some(_) => Ok(()),
            None => {
                proof {
                    assert(self.nodes() =~= old(self).nodes());
                }
                Err(VfsError::NotFound(p))
            },
        }
    }

    /// Records the host path that a node stands for.
    pub fn map_host_path(&mut self, virtual_path: &str, host_path: String) -> (r: Result<
        (),
        VfsError,
    >)
        requires
            old(self).wf(),
        ensures
            final(self).wf(),
            final(self).same_but_nodes(old(self)),
            ({
                let p = normalized(virtual_path@);
                if old(self).nodes().dom().contains(p) {
                    r is Ok && final(self).nodes() == old(self).nodes().insert(
                        p,
                        NodeView { mapped_host_path: Some(host_path@), ..old(self).nodes()[p] },
                    )
                } else {
                    outcome(r) == Err::<(), Fault>(Fault::NotFound(p)) && final(self).nodes()
                        == old(self).nodes()
                }
            }),
    {
        let p = normalize(virtual_path.to_string());
        let ghost hv = host_path@;
        match self.nodes.remove(p.as_str()) {
            Some((key, node)) => {
                let mut node = node;
                node.metadata.mapped_host_path = Some(host_path);
                proof {
                    lemma_node_map_remove(old(self).nodes@, p@);
                    lemma_node_map_insert(old(self).nodes@.remove(p@), p@, node);
                    assert(old(self).nodes@.remove(p@).insert(p@, node) =~= old(self).nodes@.insert(
                        p@,
                        node,
                    ));
                    lemma_node_map_insert(old(self).nodes@, p@, node);
                }
                self.nodes.insert(key, node);
                Ok(())
            },
            None => {
                proof {
                    assert(self.nodes@ =~= old(self).nodes@);
                }
                Err(VfsError::NotFound(p))
            },
        }
    }

    /// Checks a request of a task against the policy in force for it.
    fn enforce(
        &self,
        task_id: u64,
        path: &str,
        need_read: bool,
        need_write: bool,
        need_create: bool,
        need_delete: bool,
    ) -> (r: Result<(), VfsError>)
        requires
            self.wf(),
        ensures
            outcome(r) == enforce_outcome(
                self.policy_of(task_id),
                task_id,
                path@,
                need_read,
                need_write,
                need_create,
                need_delete,
            ),
    {
        match self.task_policies.get(task_id) {
            Some(policy) => {
                check_policy(policy, task_id, path, need_read, need_write, need_create, need_delete)
            },
            None => {
                let policy = TaskVfsPolicy::default();
                check_policy(&policy, task_id, path, need_read, need_write, need_create, need_delete)
            },
        }
    }

    /// Creates a directory on behalf of a task.
    pub fn create_dir_for_task(&mut self, task_id: u64, path: &str) -> (r: Result<(), VfsError>)
        requires
            old(self).wf(),
        ensures
            final(self).wf(),
            final(self).same_but_nodes(old(self)),
            create_dir_effect(*old(self), *final(self), task_id, path@, outcome(r)),
    {
        let p = normalize(path.to_string());
        self.enforce(task_id, p.as_str(), false, false, true, false)?;
        proof {
            lemma_normalized_idempotent(path@);
        }
        self.create_dir(p.as_str())
    }

    /// Deletes a node on behalf of a task.
    pub fn delete_for_task(&mut self, task_id: u64, path: &str) -> (r: Result<(), VfsError>)
        requires
            old(self).wf(),
        ensures
            final(self).wf(),
            final(self).same_but_nodes(old(self)),
            delete_effect(*old(self), *final(self), task_id, path@, outcome(r)),
    {
        let p = normalize(path.to_string());
        self.enforce(task_id, p.as_str(), false, false, false, true)?;
        proof {
            lemma_normalized_idempotent(path@);
        }
        self.delete(p.as_str())
    }

    /// Lists a directory on behalf of a task.
    pub fn list_dir_for_task(&self, task_id: u64, path: &str) -> (r: Result<
        Vec<VfsDirEntry>,
        VfsError,
    >)
        requires
            self.wf(),
        ensures
            list_dir_effect(*self, task_id, path@, outcome(r)),
    {
        let p = normalize(path.to_string());
        self.enforce(task_id, p.as_str(), true, false, false, false)?;
        match self.nodes.get(p.as_str()) {
            None => {
                return Err(VfsError::NotFound(p));
            },
            Some(node) => {
                if node.metadata.kind != NodeKind::Directory {
                    return Err(VfsError::NotADirectory(p));
                }
            },
        }
        let mut out: Vec<VfsDirEntry> = Vec::new();
        let mut i: usize = 0;
        let ghost s = self.node_entries();
        while i < self.nodes.len()
            invariant
                i <= self.nodes.items().len(),
                s == self.node_entries(),
                s.len() == self.nodes.items().len(),
                out@.map_values(|e: VfsDirEntry| e@) == listing(s.take(i as int), p@),
            decreases self.nodes.items().len() - i,
        {
            let key = self.nodes.key_at(i);
            let node = self.nodes.value_at(i);
            proof {
                assert(s.take(i + 1).drop_last() =~= s.take(i as int));
                assert(s.take(i + 1).last() == s[i as int]);
                assert(s[i as int] == (key@, node@));
            }
            if is_direct_child(p.as_str(), key.as_str()) {
                out.push(
                    VfsDirEntry { path: node.path.clone(), kind: node.metadata.kind, len: node.metadata.len },
                );
                proof {
                    assert(out@.map_values(|e: VfsDirEntry| e@) =~= listing(
                        s.take(i as int),
                        p@,
                    ).push(entry_of(node@)));
                }
            }
            i = i + 1;
        }
        proof {
            assert(s.take(s.len() as int) =~= s);
        }
        Ok(out)
    }
}


/// The node that opening a path leaves in place: the existing file, or a new
/// empty one, emptied when truncation was asked for.
pub open spec fn opened_node(
    nodes: Map<Seq<char>, NodeView>,
    p: Seq<char>,
    truncate: bool,
) -> NodeView {
    let base = if nodes.dom().contains(p) {
        nodes[p]
    } else {
        file_node(p, Seq::empty())
    };
    if truncate {
        NodeView { content: Seq::empty(), len: 0, ..base }
    } else {
        base
    }
}

/// What reading a whole file gives.
pub open spec fn file_read(
    nodes: Map<Seq<char>, NodeView>,
    path: Seq<char>,
) -> Result<Seq<u8>, Fault> {
    let p = normalized(path);
    if !nodes.dom().contains(p) {
        Err(Fault::NotFound(p))
    } else if nodes[p].kind == NodeKind::File {
        Ok(nodes[p].content)
    } else {
        Err(Fault::NotAFile(p))
    }
}

/// The outcome of a read, with its bytes as a sequence.
pub open spec fn read_view(r: Result<Vec<u8>, VfsError>) -> Result<Seq<u8>, Fault> {
    match r {
        Ok(v) => Ok(v@),
        Err(e) => Err(e@),
    }
}

/// The entries of a snapshot, later ones replacing earlier ones with the same key.
pub open spec fn entries_map(s: Seq<(Seq<char>, NodeView)>) -> Map<Seq<char>, NodeView>
    decreases s.len(),
{
    if s.len() == 0 {
        Map::empty()
    } else {
        entries_map(s.drop_last()).insert(s.last().0, s.last().1)
    }
}

pub open spec fn min_int(a: int, b: int) -> int {
    if a < b {
        a
    } else {
        b
    }
}

impl VirtualFileSystem {
    /// Opens a file for a task and hands out a new descriptor.
    pub fn open_for_task(&mut self, task_id: u64, path: &str, flags: u32) -> (r: Result<
        FileDescriptor,
        VfsError,
    >)
        requires
            old(self).wf(),
        ensures
            final(self).wf(),
            open_effect(*old(self), *final(self), task_id, path@, flags, outcome(r)),
            old(self).next_fd() < u64::MAX ==> !old(self).handles().dom().contains(old(self).next_fd()),
    {
        let p = normalize(path.to_string());
        let readable = flags & OPEN_READ != 0;
        let writable = flags & OPEN_WRITE != 0 || flags & OPEN_APPEND != 0;
        if !readable && !writable {
            return Err(VfsError::InvalidOpenFlags);
        }
        let wants_create = flags & OPEN_CREATE != 0;
        let wants_truncate = flags & OPEN_TRUNCATE != 0;
        self.enforce(task_id, p.as_str(), readable, writable || wants_truncate, wants_create, false)?;
        proof {
            lemma_normalized_idempotent(path@);
        }
        if !self.nodes.contains_key(p.as_str()) {
            if wants_create {
                let _ = self.write_file(p.as_str(), Vec::new());
            } else {
                return Err(VfsError::NotFound(p));
            }
        }
        let ghost mid = self.nodes();
        proof {
            if old(self).nodes().dom().contains(p@) {
                assert(mid == old(self).nodes());
            } else {
                assert(mid == old(self).nodes().insert(p@, file_node(p@, Seq::empty())));
            }
        }
        match self.nodes.get(p.as_str()) {
            Some(node) => {
                proof {
                    assert(self.nodes()[p@] == node@);
                }
                if node.metadata.kind != NodeKind::File {
                    proof {
                        if !old(self).nodes().dom().contains(p@) {
                            assert(mid[p@] == file_node(p@, Seq::empty()));
                        }
                    }
                    return Err(VfsError::NotAFile(p));
                }
            },
            None => {},
        }
        if wants_truncate {
            match self.nodes.remove(p.as_str()) {
                Some((key, node)) => {
                    let mut node = node;
                    node.content = Vec::new();
                    node.metadata.len = 0;
                    proof {
                        lemma_node_map_remove(self.nodes@.insert(p@, node), p@);
                        lemma_node_map_insert(self.nodes@, p@, node);
                        assert(self.nodes@.insert(p@, node).map_values(|x: VfsNode| x@) =~= mid.insert(
                            p@,
                            node@,
                        ));
                    }
                    self.nodes.insert(key, node);
                },
                None => {},
            }
        }
        proof {
            assert(self.nodes() =~= old(self).nodes().insert(
                p@,
                opened_node(old(self).nodes(), p@, wants_truncate),
            ));
        }
        let ghost opened = opened_node(old(self).nodes(), p@, wants_truncate);
        let cursor = if flags & OPEN_APPEND != 0 {
            match self.nodes.get(p.as_str()) {
                Some(node) => {
                    proof {
                        assert(self.nodes()[p@] == node@);
                    }
                    node.content.len()
                },
                None => 0,
            }
        } else {
            0
        };
        proof {
            assert(self.nodes().dom().contains(p@));
            if flags & OPEN_APPEND != 0 {
                assert(cursor == opened.content.len());
            }
        }
        let fd = self.next_fd;
        self.next_fd = if self.next_fd == u64::MAX {
            self.next_fd
        } else {
            self.next_fd + 1
        };
        let handle = VfsHandle {
            task_id,
            path: p,
            cursor,
            readable,
            writable,
            append: flags & OPEN_APPEND != 0,
        };
        proof {
            lemma_handle_map_insert(self.handles@, fd, handle);
        }
        self.handles.insert(fd, handle);
        Ok(fd)
    }

    /// Closes a descriptor of a task.
    pub fn close_for_task(&mut self, task_id: u64, fd: FileDescriptor) -> (r: Result<(), VfsError>)
        requires
            old(self).wf(),
        ensures
            final(self).wf(),
            final(self).same_but_handles(old(self)),
            close_effect(*old(self), *final(self), task_id, fd, outcome(r)),
    {
        match self.handles.get(fd) {
            None => {
                return Err(VfsError::InvalidFd(fd));
            },
            Some(handle) => {
                if handle.task_id != task_id {
                    let mut out: Vec<char> = Vec::new();
                    push_text(&mut out, "fd ");
                    push_decimal(&mut out, fd);
                    push_text(&mut out, " does not belong to task ");
                    push_decimal(&mut out, task_id);
                    proof {
                        assert(out@ =~= "fd "@ + decimal(fd as nat) + " does not belong to task "@
                            + decimal(task_id as nat));
                    }
                    return Err(VfsError::PermissionDenied(string_from(out.as_slice())));
                }
            },
        }
        proof {
            lemma_handle_map_remove(self.handles@, fd);
        }
        self.handles.remove(fd);
        Ok(())
    }

    /// The descriptors a task holds, in descriptor order.
    pub fn handles_for_task(&self, task_id: u64) -> (v: Vec<VfsHandleInfo>)
        requires
            self.wf(),
        ensures
            v@.map_values(|h: VfsHandleInfo| h@) == handles_listing(self.handle_entries(), task_id),
    {
        let mut out: Vec<VfsHandleInfo> = Vec::new();
        let mut i: usize = 0;
        let ghost s = self.handle_entries();
        while i < self.handles.len()
            invariant
                i <= self.handles.items().len(),
                s == self.handle_entries(),
                s.len() == self.handles.items().len(),
                out@.map_values(|h: VfsHandleInfo| h@) == handles_listing(
                    s.take(i as int),
                    task_id,
                ),
            decreases self.handles.items().len() - i,
        {
            let fd = self.handles.key_at(i);
            let handle = self.handles.value_at(i);
            proof {
                assert(s.take(i + 1).drop_last() =~= s.take(i as int));
                assert(s.take(i + 1).last() == s[i as int]);
                assert(s[i as int] == (fd, handle@));
            }
            if handle.task_id == task_id {
                out.push(
                    VfsHandleInfo {
                        fd,
                        path: handle.path.clone(),
                        cursor: handle.cursor,
                        readable: handle.readable,
                        writable: handle.writable,
                        append: handle.append,
                    },
                );
                proof {
                    assert(out@.map_values(|h: VfsHandleInfo| h@) =~= handles_listing(
                        s.take(i as int),
                        task_id,
                    ).push(info_of(fd, handle@)));
                }
            }
            i = i + 1;
        }
        proof {
            assert(s.take(s.len() as int) =~= s);
        }
        out
    }

    /// A read of `len` bytes through `fd` stays within the machine's sizes.
    pub open spec fn read_fits(&self, fd: FileDescriptor, len: usize) -> bool {
        self.handles().dom().contains(fd) && self.nodes().dom().contains(self.handles()[fd].path)
            ==> min_int(
            self.handles()[fd].cursor as int,
            self.nodes()[self.handles()[fd].path].content.len() as int,
        ) + len <= usize::MAX
    }

    /// The position at which a write through `fd` lands.
    pub open spec fn write_position(&self, fd: FileDescriptor) -> int {
        let h = self.handles()[fd];
        if h.append {
            self.nodes()[h.path].content.len() as int
        } else {
            h.cursor as int
        }
    }

    /// A write of `len` bytes through `fd` stays within the machine's sizes.
    pub open spec fn write_fits(&self, fd: FileDescriptor, len: int) -> bool {
        self.handles().dom().contains(fd) && self.nodes().dom().contains(self.handles()[fd].path)
            ==> self.write_position(fd) + len <= usize::MAX
    }

    /// Whether a read of `len` bytes through `fd` stays within the machine's sizes.
    pub fn read_span_fits(&self, fd: FileDescriptor, len: usize) -> (b: bool)
        requires
            self.wf(),
        ensures
            b == self.read_fits(fd, len),
    {
        match self.handles.get(fd) {
            None => true,
            Some(handle) => {
                match self.nodes.get(handle.path.as_str()) {
                    None => true,
                    Some(node) => {
                        let clen = node.content.len();
                        let start = if handle.cursor < clen {
                            handle.cursor
                        } else {
                            clen
                        };
                        len <= usize::MAX - start
                    },
                }
            },
        }
    }

    /// Whether a write of `len` bytes through `fd` stays within the machine's sizes.
    pub fn write_span_fits(&self, fd: FileDescriptor, len: usize) -> (b: bool)
        requires
            self.wf(),
        ensures
            b == self.write_fits(fd, len as int),
    {
        match self.handles.get(fd) {
            None => true,
            Some(handle) => {
                match self.nodes.get(handle.path.as_str()) {
                    None => true,
                    Some(node) => {
                        let at = if handle.append {
                            node.content.len()
                        } else {
                            handle.cursor
                        };
                        len <= usize::MAX - at
                    },
                }
            },
        }
    }

    /// Reads up to `len` bytes through a descriptor and moves its cursor.
    pub fn read_for_task(&mut self, task_id: u64, fd: FileDescriptor, len: usize) -> (r: Result<
        Vec<u8>,
        VfsError,
    >)
        requires
            old(self).wf(),
            old(self).read_fits(fd, len),
        ensures
            final(self).wf(),
            final(self).same_but_handles(old(self)),
            read_effect(*old(self), *final(self), task_id, fd, len, outcome(r)),
    {
        let (path, cursor) = match self.handles.get(fd) {
            None => {
                return Err(VfsError::InvalidFd(fd));
            },
            Some(handle) => {
                if handle.task_id != task_id || !handle.readable {
                    return Err(VfsError::PermissionDenied(fd_message(task_id, " cannot read fd ", fd)));
                }
                (handle.path.clone(), handle.cursor)
            },
        };
        self.enforce(task_id, path.as_str(), true, false, false, false)?;
        let payload;
        let end;
        match self.nodes.get(path.as_str()) {
            None => {
                return Err(VfsError::NotFound(path));
            },
            Some(node) => {
                if node.metadata.kind != NodeKind::File {
                    return Err(VfsError::NotAFile(path));
                }
                let clen = node.content.len();
                let start = if cursor < clen {
                    cursor
                } else {
                    clen
                };
                end = if start + len < clen {
                    start + len
                } else {
                    clen
                };
                payload = slice_bytes(&node.content, start, end);
            },
        }
        match self.handles.remove(fd) {
            Some(handle) => {
                let mut handle = handle;
                handle.cursor = end;
                proof {
                    lemma_handle_map_remove(old(self).handles@, fd);
                    lemma_handle_map_insert(old(self).handles@, fd, handle);
                    assert(old(self).handles@.remove(fd).insert(fd, handle) =~= old(self).handles@.insert(
                        fd,
                        handle,
                    ));
                    lemma_handle_map_insert(old(self).handles@.remove(fd), fd, handle);
                }
                self.handles.insert(fd, handle);
            },
            None => {},
        }
        Ok(payload)
    }

    /// Writes bytes through a descriptor at its cursor (or at the end when it
    /// appends) and moves the cursor past them.
    pub fn write_for_task(&mut self, task_id: u64, fd: FileDescriptor, bytes: &[u8]) -> (r: Result<
        usize,
        VfsError,
    >)
        requires
            old(self).wf(),
            old(self).write_fits(fd, bytes@.len() as int),
        ensures
            final(self).wf(),
            final(self).policies() == old(self).policies(),
            final(self).next_fd() == old(self).next_fd(),
            write_effect(*old(self), *final(self), task_id, fd, bytes@, outcome(r)),
    {
        let (path, cursor, append) = match self.handles.get(fd) {
            None => {
                return Err(VfsError::InvalidFd(fd));
            },
            Some(handle) => {
                if handle.task_id != task_id || !handle.writable {
                    return Err(
                        VfsError::PermissionDenied(fd_message(task_id, " cannot write fd ", fd)),
                    );
                }
                (handle.path.clone(), handle.cursor, handle.append)
            },
        };
        self.enforce(task_id, path.as_str(), false, true, false, false)?;
        let (key, node) = match self.nodes.remove(path.as_str()) {
            None => {
                proof {
                    assert(self.nodes@ =~= old(self).nodes@);
                }
                return Err(VfsError::NotFound(path));
            },
            Some(entry) => entry,
        };
        if node.metadata.kind != NodeKind::File {
            proof {
                assert(old(self).nodes@.remove(path@).insert(path@, node) =~= old(self).nodes@);
            }
            self.nodes.insert(key, node);
            return Err(VfsError::NotAFile(path));
        }
        proof {
            assert(old(self).nodes@[path@] == node);
            assert(old(self).nodes()[path@] == node@);
            assert(old(self).handles()[fd].path == path@);
        }
        let mut node = node;
        let at = if append {
            node.content.len()
        } else {
            cursor
        };
        proof {
            assert(old(self).handles().dom().contains(fd));
            assert(old(self).nodes@.dom().contains(path@));
            assert(old(self).nodes().dom().contains(path@));
            assert(at == old(self).write_position(fd));
            assert(old(self).write_fits(fd, bytes@.len() as int));
            assert(old(self).nodes().dom().contains(old(self).handles()[fd].path));
            assert(at + bytes@.len() <= usize::MAX);
        }
        write_at(&mut node.content, at, bytes);
        node.metadata.len = node.content.len();
        proof {
            lemma_node_map_insert(old(self).nodes@.remove(path@), path@, node);
            assert(old(self).nodes@.remove(path@).insert(path@, node) =~= old(self).nodes@.insert(
                path@,
                node,
            ));
            lemma_node_map_insert(old(self).nodes@, path@, node);
        }
        self.nodes.insert(key, node);
        let end = at + bytes.len();
        match self.handles.remove(fd) {
            Some(handle) => {
                let mut handle = handle;
                handle.cursor = end;
                proof {
                    lemma_handle_map_insert(old(self).handles@.remove(fd), fd, handle);
                    assert(old(self).handles@.remove(fd).insert(fd, handle) =~= old(self).handles@.insert(
                        fd,
                        handle,
                    ));
                    lemma_handle_map_insert(old(self).handles@, fd, handle);
                }
                self.handles.insert(fd, handle);
            },
            None => {},
        }
        Ok(bytes.len())
    }

    /// Moves the cursor of a descriptor.
    pub fn seek_for_task(
        &mut self,
        task_id: u64,
        fd: FileDescriptor,
        offset: i64,
        whence: SeekWhence,
    ) -> (r: Result<u64, VfsError>)
        requires
            old(self).wf(),
        ensures
            final(self).wf(),
            final(self).same_but_handles(old(self)),
            seek_effect(*old(self), *final(self), task_id, fd, offset, whence, outcome(r)),
    {
        let (path, cursor) = match self.handles.get(fd) {
            None => {
                return Err(VfsError::InvalidFd(fd));
            },
            Some(handle) => {
                if handle.task_id != task_id {
                    return Err(VfsError::PermissionDenied(fd_message(task_id, " cannot seek fd ", fd)));
                }
                (handle.path.clone(), handle.cursor)
            },
        };
        let file_len: i64 = match self.nodes.get(path.as_str()) {
            None => {
                return Err(VfsError::NotFound(path));
            },
            Some(node) => node.content.len() as i64,
        };
        let base: i64 = match whence {
            SeekWhence::Start => 0,
            SeekWhence::Current => cursor as i64,
            SeekWhence::End => file_len,
        };
        let new_offset = match base.checked_add(offset) {
            None => {
                return Err(VfsError::InvalidSeek);
            },
            Some(v) => v,
        };
        if new_offset < 0 {
            return Err(VfsError::InvalidSeek);
        }
        let new_cursor = new_offset as usize;
        match self.handles.remove(fd) {
            Some(handle) => {
                let mut handle = handle;
                handle.cursor = new_cursor;
                proof {
                    lemma_handle_map_insert(old(self).handles@.remove(fd), fd, handle);
                    assert(old(self).handles@.remove(fd).insert(fd, handle) =~= old(self).handles@.insert(
                        fd,
                        handle,
                    ));
                    lemma_handle_map_insert(old(self).handles@, fd, handle);
                }
                self.handles.insert(fd, handle);
            },
            None => {},
        }
        Ok(new_cursor as u64)
    }

    /// Copies of all nodes, in path order, keyed as they are stored.
    pub fn snapshot_nodes(&self) -> (v: Vec<(String, VfsNode)>)
        requires
            self.wf(),
        ensures
            v@.map_values(|e: (String, VfsNode)| (e.0@, e.1@)) == self.node_entries(),
    {
        let mut out: Vec<(String, VfsNode)> = Vec::new();
        let mut i: usize = 0;
        let ghost s = self.node_entries();
        while i < self.nodes.len()
            invariant
                i <= self.nodes.items().len(),
                s == self.node_entries(),
                s.len() == self.nodes.items().len(),
                out@.map_values(|e: (String, VfsNode)| (e.0@, e.1@)) == s.take(i as int),
            decreases self.nodes.items().len() - i,
        {
            let key = self.nodes.key_at(i);
            let node = self.nodes.value_at(i);
            let ghost before = out@;
            let k2 = key.clone();
            let n2 = node.duplicate();
            out.push((k2, n2));
            proof {
                assert(s[i as int] == (key@, node@));
                assert(out@ == before.push((k2, n2)));
                assert(out@.map_values(|e: (String, VfsNode)| (e.0@, e.1@)) =~= before.map_values(
                    |e: (String, VfsNode)| (e.0@, e.1@),
                ).push((key@, node@)));
                assert(s.take(i + 1) =~= s.take(i as int).push(s[i as int]));
            }
            i = i + 1;
        }
        proof {
            assert(s.take(s.len() as int) =~= s);
        }
        out
    }

    /// Replaces all nodes by the entries of a snapshot; the root directory is
    /// created again when the snapshot lacks it.
    pub fn restore_nodes(&mut self, entries: Vec<(String, VfsNode)>)
        requires
            old(self).wf(),
        ensures
            final(self).wf(),
            final(self).same_but_nodes(old(self)),
            ({
                let m = entries_map(entries@.map_values(|e: (String, VfsNode)| (e.0@, e.1@)));
                final(self).nodes() == if m.dom().contains(seq!['/']) {
                    m
                } else {
                    m.insert(seq!['/'], dir_node(seq!['/']))
                }
            }),
    {
        let ghost es = entries@.map_values(|e: (String, VfsNode)| (e.0@, e.1@));
        let mut nodes: TextMap<VfsNode> = TextMap::new();
        let mut i: usize = 0;
        proof {
            assert(nodes@.map_values(|n: VfsNode| n@) =~= entries_map(es.take(0)));
        }
        while i < entries.len()
            invariant
                i <= entries@.len(),
                es == entries@.map_values(|e: (String, VfsNode)| (e.0@, e.1@)),
                nodes.wf(),
                nodes@.map_values(|n: VfsNode| n@) == entries_map(es.take(i as int)),
            decreases entries@.len() - i,
        {
            let key = entries[i].0.clone();
            let node = entries[i].1.duplicate();
            proof {
                assert(es.take(i + 1).drop_last() =~= es.take(i as int));
                assert(es.take(i + 1).last() == es[i as int]);
                lemma_node_map_insert(nodes@, key@, node);
            }
            nodes.insert(key, node);
            i = i + 1;
        }
        proof {
            assert(es.take(es.len() as int) =~= es);
        }
        self.nodes = nodes;
        let root = root_path();
        if !self.nodes.contains_key(root.as_str()) {
            let _ = self.create_dir(root.as_str());
            proof {
                reveal_with_fuel(crate::text::trim_start, 2);
                reveal_with_fuel(crate::text::trim_end, 2);
                assert(trim(seq!['/']) == seq!['/']);
            }
        }
    }
}

/// The bytes of `v` from `lo` up to `hi`.
fn slice_bytes(v: &Vec<u8>, lo: usize, hi: usize) -> (r: Vec<u8>)
    requires
        lo <= hi <= v@.len(),
    ensures
        r@ == v@.subrange(lo as int, hi as int),
{
    let mut r: Vec<u8> = Vec::new();
    let mut i = lo;
    while i < hi
        invariant
            lo <= i <= hi <= v@.len(),
            r@ == v@.subrange(lo as int, i as int),
        decreases hi - i,
    {
        r.push(v[i]);
        proof {
            assert(v@.subrange(lo as int, i + 1) =~= v@.subrange(lo as int, i as int).push(
                v@[i as int],
            ));
        }
        i = i + 1;
    }
    r
}

/// Writes `bytes` into `content` at `at`, filling any gap with zeros.
fn write_at(content: &mut Vec<u8>, at: usize, bytes: &[u8])
    requires
        at + bytes@.len() <= usize::MAX,
    ensures
        final(content)@ == written(old(content)@, at as int, bytes@),
{
    let ghost c = content@;
    while content.len() < at
        invariant
            c.len() <= content@.len() <= at || content@.len() == c.len(),
            content@.len() >= c.len(),
            forall|i: int| 0 <= i < c.len() ==> content@[i] == c[i],
            forall|i: int| c.len() <= i < content@.len() ==> content@[i] == 0u8,
        decreases at - content@.len(),
    {
        content.push(0u8);
    }
    proof {
        assert(content@ =~= written(c, at as int, bytes@.take(0)));
    }
    let mut i: usize = 0;
    while i < bytes.len()
        invariant
            i <= bytes@.len(),
            at + bytes@.len() <= usize::MAX,
            content@ == written(c, at as int, bytes@.take(i as int)),
        decreases bytes@.len() - i,
    {
        let pos = at + i;
        if pos < content.len() {
            content[pos] = bytes[i];
        } else {
            content.push(bytes[i]);
        }
        proof {
            assert(content@ =~= written(c, at as int, bytes@.take(i + 1)));
        }
        i = i + 1;
    }
    proof {
        assert(bytes@.take(bytes@.len() as int) =~= bytes@);
    }
}

/// The path of the root directory.
pub fn root_path() -> (s: String)
    ensures
        s@ == seq!['/'],
{
    let mut v: Vec<char> = Vec::new();
    v.push('/');
    assert(v@ =~= seq!['/']);
    string_from(v.as_slice())
}

fn copy_bytes(v: &Vec<u8>) -> (r: Vec<u8>)
    ensures
        r@ == v@,
{
    let mut r: Vec<u8> = Vec::new();
    let mut i: usize = 0;
    while i < v.len()
        invariant
            i <= v@.len(),
            r@ == v@.subrange(0, i as int),
        decreases v@.len() - i,
    {
        r.push(v[i]);
        proof {
            assert(v@.subrange(0, i + 1) =~= v@.subrange(0, i as int).push(v@[i as int]));
        }
        i = i + 1;
    }
    proof {
        assert(v@.subrange(0, v@.len() as int) =~= v@);
    }
    r
}

// ---------------------------------------------------------------------------
// Laws
// ---------------------------------------------------------------------------
/// Reading a file gives back exactly what the last whole-file write stored
/// at that path.
pub proof fn law_read_after_write(
    nodes: Map<Seq<char>, NodeView>,
    path: Seq<char>,
    content: Seq<u8>,
)
    ensures
        file_read(
            nodes.insert(normalized(path), file_node(normalized(path), content)),
            path,
        ) == Ok::<Seq<u8>, Fault>(content),
{
}

/// Once a path is deleted, reading it reports that nothing is there.
pub proof fn law_read_after_delete(nodes: Map<Seq<char>, NodeView>, path: Seq<char>)
    ensures
        file_read(nodes.remove(normalized(path)), path) == Err::<Seq<u8>, Fault>(
            Fault::NotFound(normalized(path)),
        ),
{
}

/// Bytes written through a descriptor at position `at` are read back
/// unchanged from that position, and the file is long enough to hold them.
pub proof fn law_written_bytes_read_back(c: Seq<u8>, at: int, b: Seq<u8>)
    requires
        0 <= at,
    ensures
        written(c, at, b).len() >= at + b.len(),
        written(c, at, b).subrange(at, at + b.len()) == b,
        forall|i: int| 0 <= i < c.len() && !(at <= i < at + b.len()) ==> written(c, at, b)[i] == c[i],
{
    assert(written(c, at, b).subrange(at, at + b.len()) =~= b);
}

/// A descriptor works only for the task that opened it: another task that
/// reads, writes, seeks or closes it is refused and the descriptor table is
/// left as it was.
pub proof fn law_descriptors_are_private(
    pre: VirtualFileSystem,
    post: VirtualFileSystem,
    task_id: u64,
    fd: FileDescriptor,
    len: usize,
    bytes: Seq<u8>,
    offset: i64,
    whence: SeekWhence,
)
    requires
        pre.handles().dom().contains(fd),
        pre.handles()[fd].task_id != task_id,
    ensures
        forall|o: Result<Vec<u8>, Fault>|
            #[trigger] read_effect(pre, post, task_id, fd, len, o) ==> o is Err && o->Err_0 is PermissionDenied
                && post.handles() == pre.handles(),
        forall|o: Result<usize, Fault>|
            #[trigger] write_effect(pre, post, task_id, fd, bytes, o) ==> o is Err && o->Err_0 is PermissionDenied
                && post.same_as(&pre),
        forall|o: Result<u64, Fault>|
            #[trigger] seek_effect(pre, post, task_id, fd, offset, whence, o) ==> o is Err && o->Err_0 is PermissionDenied
                && post.handles() == pre.handles(),
        forall|o: Result<(), Fault>|
            #[trigger] close_effect(pre, post, task_id, fd, o) ==> o is Err && o->Err_0 is PermissionDenied
                && post.handles() == pre.handles(),
{
}

/// Every normalized path starts at the root.
pub proof fn law_normalized_is_rooted(p: Seq<char>)
    ensures
        normalized(p).len() > 0,
        normalized(p)[0] == '/',
{
}

/// The default policy lets a task read, write and create anywhere, and never
/// delete.
pub proof fn law_default_policy(
    task_id: u64,
    path: Seq<char>,
    need_read: bool,
    need_write: bool,
    need_create: bool,
)
    ensures
        enforce_outcome(default_policy(), task_id, normalized(path), need_read, need_write, need_create, false) is Ok,
        enforce_outcome(default_policy(), task_id, normalized(path), need_read, need_write, need_create, true) is Err,
{
    let p = normalized(path);
    let root = seq!['/'];
    assert(strip_trailing(root, '/') =~= Seq::<char>::empty()) by {
        reveal_with_fuel(strip_trailing, 2);
    }
    assert(strip_trailing(root, '/') + seq!['/'] =~= root);
    assert(has_prefix(p, root)) by {
        assert(p.subrange(0, 1) =~= root);
    }
    assert(prefix_admits(default_policy().allowed_prefixes[0], p));
}

// ---------------------------------------------------------------------------
// What the task-level operations do
// ---------------------------------------------------------------------------
/// Creating a directory on behalf of a task: the outcome and the new tree.
pub open spec fn create_dir_effect(
    pre: VirtualFileSystem,
    post: VirtualFileSystem,
    task_id: u64,
    path: Seq<char>,
    o: Result<(), Fault>,
) -> bool {
    let p = normalized(path);
    let gate = enforce_outcome(pre.policy_of(task_id), task_id, p, false, false, true, false);
    if gate is Err {
        o == Err::<(), Fault>(gate->Err_0) && post.nodes() == pre.nodes()
    } else if pre.nodes().dom().contains(p) {
        o == Err::<(), Fault>(Fault::AlreadyExists(p)) && post.nodes()
            == pre.nodes()
    } else {
        o is Ok && post.nodes() == pre.nodes().insert(p, dir_node(p))
    }
}

/// Deleting a node on behalf of a task: the outcome and the new tree.
pub open spec fn delete_effect(
    pre: VirtualFileSystem,
    post: VirtualFileSystem,
    task_id: u64,
    path: Seq<char>,
    o: Result<(), Fault>,
) -> bool {
    let p = normalized(path);
    let gate = enforce_outcome(pre.policy_of(task_id), task_id, p, false, false, false, true);
    if gate is Err {
        o == Err::<(), Fault>(gate->Err_0) && post.nodes() == pre.nodes()
    } else if pre.nodes().dom().contains(p) {
        o is Ok && post.nodes() == pre.nodes().remove(p)
    } else {
        o == Err::<(), Fault>(Fault::NotFound(p)) && post.nodes()
            == pre.nodes()
    }
}

/// Listing a directory on behalf of a task: the outcome.
pub open spec fn list_dir_effect(
    vfs: VirtualFileSystem,
    task_id: u64,
    path: Seq<char>,
    o: Result<Vec<VfsDirEntry>, Fault>,
) -> bool {
    let p = normalized(path);
    let gate = enforce_outcome(vfs.policy_of(task_id), task_id, p, true, false, false, false);
    if gate is Err {
        o == Err::<Vec<VfsDirEntry>, Fault>(gate->Err_0)
    } else if !vfs.nodes().dom().contains(p) {
        o == Err::<Vec<VfsDirEntry>, Fault>(Fault::NotFound(p))
    } else if vfs.nodes()[p].kind != NodeKind::Directory {
        o == Err::<Vec<VfsDirEntry>, Fault>(Fault::NotADirectory(p))
    } else {
        o matches Ok(v) && v@.map_values(|e: VfsDirEntry| e@) == listing(
            vfs.node_entries(),
            p,
        )
    }
}

/// Opening a file for a task: the outcome, the new tree and the new descriptor table.
/// Reading needs the read permission, writing, appending or truncating the
/// write permission, and `OPEN_CREATE` the create permission whether or not the
/// file is there yet.
pub open spec fn open_effect(
    pre: VirtualFileSystem,
    post: VirtualFileSystem,
    task_id: u64,
    path: Seq<char>,
    flags: u32,
    o: Result<u64, Fault>,
) -> bool {
    let p = normalized(path);
    let readable = flags & OPEN_READ != 0;
    let writable = flags & OPEN_WRITE != 0 || flags & OPEN_APPEND != 0;
    let create = flags & OPEN_CREATE != 0;
    let truncate = flags & OPEN_TRUNCATE != 0;
    let append = flags & OPEN_APPEND != 0;
    let gate = enforce_outcome(
        pre.policy_of(task_id),
        task_id,
        p,
        readable,
        writable || truncate,
        create,
        false,
    );
    if !readable && !writable {
        o == Err::<u64, Fault>(Fault::InvalidOpenFlags) && post.same_as(&pre)
    } else if gate is Err {
        o == Err::<u64, Fault>(gate->Err_0) && post.same_as(&pre)
    } else if !pre.nodes().dom().contains(p) && !create {
        o == Err::<u64, Fault>(Fault::NotFound(p)) && post.same_as(&pre)
    } else if pre.nodes().dom().contains(p) && pre.nodes()[p].kind
        != NodeKind::File {
        o == Err::<u64, Fault>(Fault::NotAFile(p)) && post.same_as(&pre)
    } else {
        let node = opened_node(pre.nodes(), p, truncate);
        &&& o == Ok::<u64, Fault>(pre.next_fd())
        &&& post.nodes() == pre.nodes().insert(p, node)
        &&& post.policies() == pre.policies()
        &&& post.handles() == pre.handles().insert(
            pre.next_fd(),
            HandleView {
                task_id,
                path: p,
                cursor: if append {
                    node.content.len() as usize
                } else {
                    0
                },
                readable,
                writable,
                append,
            },
        )
        &&& post.next_fd() == saturating_next(pre.next_fd())
    }
}

/// Closing a descriptor of a task: the outcome and the new descriptor table.
pub open spec fn close_effect(
    pre: VirtualFileSystem,
    post: VirtualFileSystem,
    task_id: u64,
    fd: FileDescriptor,
    o: Result<(), Fault>,
) -> bool {
    if !pre.handles().dom().contains(fd) {
        o == Err::<(), Fault>(Fault::InvalidFd(fd)) && post.handles()
            == pre.handles()
    } else if pre.handles()[fd].task_id != task_id {
        o == Err::<(), Fault>(
            Fault::PermissionDenied(
                "fd "@ + decimal(fd as nat) + " does not belong to task "@ + decimal(
                    task_id as nat,
                ),
            ),
        ) && post.handles() == pre.handles()
    } else {
        o is Ok && post.handles() == pre.handles().remove(fd)
    }
}

/// Reading through a descriptor: the bytes read and the moved cursor.
pub open spec fn read_effect(
    pre: VirtualFileSystem,
    post: VirtualFileSystem,
    task_id: u64,
    fd: FileDescriptor,
    len: usize,
    o: Result<Vec<u8>, Fault>,
) -> bool {
    let h = pre.handles()[fd];
    if !pre.handles().dom().contains(fd) {
        o == Err::<Vec<u8>, Fault>(Fault::InvalidFd(fd)) && post.handles()
            == pre.handles()
    } else if h.task_id != task_id || !h.readable {
        o == Err::<Vec<u8>, Fault>(
            Fault::PermissionDenied(
                msg_task(task_id, " cannot read fd "@ + decimal(fd as nat)),
            ),
        ) && post.handles() == pre.handles()
    } else if enforce_outcome(
        pre.policy_of(task_id),
        task_id,
        h.path,
        true,
        false,
        false,
        false,
    ) is Err {
        o == Err::<Vec<u8>, Fault>(
            enforce_outcome(
                pre.policy_of(task_id),
                task_id,
                h.path,
                true,
                false,
                false,
                false,
            )->Err_0,
        ) && post.handles() == pre.handles()
    } else if !pre.nodes().dom().contains(h.path) {
        o == Err::<Vec<u8>, Fault>(Fault::NotFound(h.path)) && post.handles() == pre.handles()
    } else if pre.nodes()[h.path].kind != NodeKind::File {
        o == Err::<Vec<u8>, Fault>(Fault::NotAFile(h.path)) && post.handles() == pre.handles()
    } else {
        let c = pre.nodes()[h.path].content;
        let start = min_int(h.cursor as int, c.len() as int);
        let end = min_int(start + len, c.len() as int);
        &&& o matches Ok(v) && v@ == c.subrange(start, end)
        &&& post.handles() == pre.handles().insert(
            fd,
            HandleView { cursor: end as usize, ..h },
        )
    }
}

/// Writing through a descriptor: the count written, the new content and the moved cursor.
pub open spec fn write_effect(
    pre: VirtualFileSystem,
    post: VirtualFileSystem,
    task_id: u64,
    fd: FileDescriptor,
    bytes: Seq<u8>,
    o: Result<usize, Fault>,
) -> bool {
    let h = pre.handles()[fd];
    let gate = enforce_outcome(
        pre.policy_of(task_id),
        task_id,
        h.path,
        false,
        true,
        false,
        false,
    );
    if !pre.handles().dom().contains(fd) {
        o == Err::<usize, Fault>(Fault::InvalidFd(fd)) && post.same_as(&pre)
    } else if h.task_id != task_id || !h.writable {
        o == Err::<usize, Fault>(
            Fault::PermissionDenied(
                msg_task(task_id, " cannot write fd "@ + decimal(fd as nat)),
            ),
        ) && post.same_as(&pre)
    } else if gate is Err {
        o == Err::<usize, Fault>(gate->Err_0) && post.same_as(&pre)
    } else if !pre.nodes().dom().contains(h.path) {
        o == Err::<usize, Fault>(Fault::NotFound(h.path)) && post.same_as(&pre)
    } else if pre.nodes()[h.path].kind != NodeKind::File {
        o == Err::<usize, Fault>(Fault::NotAFile(h.path)) && post.same_as(&pre)
    } else {
        let n = pre.nodes()[h.path];
        let at = pre.write_position(fd);
        let c = written(n.content, at, bytes);
        &&& o == Ok::<usize, Fault>(bytes.len() as usize)
        &&& c.len() <= usize::MAX
        &&& post.nodes() == pre.nodes().insert(
            h.path,
            NodeView { content: c, len: c.len() as usize, ..n },
        )
        &&& post.handles() == pre.handles().insert(
            fd,
            HandleView { cursor: (at + bytes.len()) as usize, ..h },
        )
    }
}

/// Moving the cursor of a descriptor: the new position.
pub open spec fn seek_effect(
    pre: VirtualFileSystem,
    post: VirtualFileSystem,
    task_id: u64,
    fd: FileDescriptor,
    offset: i64,
    whence: SeekWhence,
    o: Result<u64, Fault>,
) -> bool {
    let h = pre.handles()[fd];
    if !pre.handles().dom().contains(fd) {
        o == Err::<u64, Fault>(Fault::InvalidFd(fd)) && post.handles()
            == pre.handles()
    } else if h.task_id != task_id {
        o == Err::<u64, Fault>(
            Fault::PermissionDenied(
                msg_task(task_id, " cannot seek fd "@ + decimal(fd as nat)),
            ),
        ) && post.handles() == pre.handles()
    } else if !pre.nodes().dom().contains(h.path) {
        o == Err::<u64, Fault>(Fault::NotFound(h.path)) && post.handles()
            == pre.handles()
    } else {
        let file_len = pre.nodes()[h.path].content.len() as i64;
        let base: int = match whence {
            SeekWhence::Start => 0,
            SeekWhence::Current => (h.cursor as i64) as int,
            SeekWhence::End => file_len as int,
        };
        let n = base + offset;
        if n < i64::MIN || n > i64::MAX || n < 0 {
            o == Err::<u64, Fault>(Fault::InvalidSeek) && post.handles()
                == pre.handles()
        } else {
            &&& o == Ok::<u64, Fault>(((n as i64) as usize) as u64)
            &&& post.handles() == pre.handles().insert(
                fd,
                HandleView { cursor: (n as i64) as usize, ..h },
            )
        }
    }
}

/// What a task writes through a descriptor that it may also read, it reads
/// back after seeking to where the write landed.
pub proof fn law_descriptor_round_trip(
    s0: VirtualFileSystem,
    s1: VirtualFileSystem,
    s2: VirtualFileSystem,
    s3: VirtualFileSystem,
    task_id: u64,
    fd: FileDescriptor,
    bytes: Seq<u8>,
    o1: Result<usize, Fault>,
    o2: Result<u64, Fault>,
    o3: Result<Vec<u8>, Fault>,
)
    requires
        s0.write_fits(fd, bytes.len() as int),
        write_effect(s0, s1, task_id, fd, bytes, o1),
        o1 is Ok,
        s0.handles()[fd].readable,
        s0.write_position(fd) <= i64::MAX,
        seek_effect(s1, s2, task_id, fd, s0.write_position(fd) as i64, SeekWhence::Start, o2),
        s2.same_but_handles(&s1),
        read_effect(s2, s3, task_id, fd, bytes.len() as usize, o3),
        o3 is Ok,
    ensures
        o2 == Ok::<u64, Fault>(s0.write_position(fd) as u64),
        o3 matches Ok(v) && v@ == bytes,
{
    let h = s0.handles()[fd];
    let p = h.path;
    let at = s0.write_position(fd);
    let c = written(s0.nodes()[p].content, at, bytes);
    assert(s1.nodes()[p].content == c);
    assert(s1.handles()[fd].path == p);
    assert(s1.handles()[fd].task_id == task_id);
    assert(s1.nodes().dom().contains(p));
    let off = at as i64;
    assert(off as int == at);
    assert(at <= usize::MAX);
    assert((off as usize) as int == at);
    assert(((off as usize) as u64) as int == at);
    law_written_bytes_read_back(s0.nodes()[p].content, at, bytes);
    assert(s2.handles()[fd].cursor == at);
    assert(s2.nodes()[p].content == c);
    assert(c.len() >= at + bytes.len());
}

/// Whether a path lies at a prefix or below it: it is the prefix itself, or
/// it starts with the prefix (trailing slashes dropped) followed by `/`.
pub open spec fn under_prefix(prefix: Seq<char>, path: Seq<char>) -> bool {
    ||| path == prefix
    ||| {
        let base = strip_trailing(prefix, '/') + seq!['/'];
        &&& base.len() <= path.len()
        &&& path.subrange(0, base.len() as int) == base
    }
}

/// The policy gate lets a request through exactly when every permission it
/// needs is granted and, when the policy names prefixes, the path lies under
/// one of them.
pub proof fn law_vfs_gate_admits_exactly(
    policy: PolicyView,
    task_id: u64,
    path: Seq<char>,
    need_read: bool,
    need_write: bool,
    need_create: bool,
    need_delete: bool,
)
    ensures
        enforce_outcome(policy, task_id, path, need_read, need_write, need_create, need_delete) is Ok
            <==> {
            &&& need_read ==> policy.allow_read
            &&& need_write ==> policy.allow_write
            &&& need_create ==> policy.allow_create
            &&& need_delete ==> policy.allow_delete
            &&& policy.allowed_prefixes.len() > 0 ==> exists|i: int|
                0 <= i < policy.allowed_prefixes.len() && under_prefix(
                    #[trigger] policy.allowed_prefixes[i],
                    path,
                )
        },
{
    assert forall|i: int| 0 <= i < policy.allowed_prefixes.len() implies (prefix_admits(
        #[trigger] policy.allowed_prefixes[i],
        path,
    ) <==> under_prefix(policy.allowed_prefixes[i], path)) by {
        lemma_prefix_admits_under(policy.allowed_prefixes[i], path);
    }
}

proof fn lemma_prefix_admits_under(prefix: Seq<char>, path: Seq<char>)
    ensures
        prefix_admits(prefix, path) <==> under_prefix(prefix, path),
{
}

/// A path under none of the prefixes a policy names is refused as not
/// permitted, whatever permissions the policy grants.
pub proof fn law_prefixes_confine(
    policy: PolicyView,
    task_id: u64,
    path: Seq<char>,
    need_read: bool,
    need_write: bool,
    need_create: bool,
    need_delete: bool,
)
    requires
        policy.allowed_prefixes.len() > 0,
        forall|i: int|
            0 <= i < policy.allowed_prefixes.len() ==> !under_prefix(
                #[trigger] policy.allowed_prefixes[i],
                path,
            ),
    ensures
        enforce_outcome(policy, task_id, path, need_read, need_write, need_create, need_delete) matches Err(
            Fault::PermissionDenied(_),
        ),
{
    law_vfs_gate_admits_exactly(policy, task_id, path, need_read, need_write, need_create, need_delete);
}

/// An open that succeeds was for a path under one of the task's prefixes,
/// with the permissions that its flags ask for; an open that fails leaves the
/// tree and the descriptors as they were.
pub proof fn law_open_respects_policy(
    pre: VirtualFileSystem,
    post: VirtualFileSystem,
    task_id: u64,
    path: Seq<char>,
    flags: u32,
    o: Result<u64, Fault>,
)
    requires
        open_effect(pre, post, task_id, path, flags, o),
    ensures
        o is Ok ==> {
            let p = pre.policy_of(task_id);
            &&& (flags & OPEN_READ != 0 ==> p.allow_read)
            &&& (flags & OPEN_WRITE != 0 || flags & OPEN_APPEND != 0 || flags & OPEN_TRUNCATE != 0
                ==> p.allow_write)
            &&& (flags & OPEN_CREATE != 0 ==> p.allow_create)
            &&& p.allowed_prefixes.len() > 0 ==> exists|i: int|
                0 <= i < p.allowed_prefixes.len() && under_prefix(
                    #[trigger] p.allowed_prefixes[i],
                    normalized(path),
                )
        },
        o is Err ==> post.nodes() == pre.nodes() && post.handles() == pre.handles(),
{
    let p = pre.policy_of(task_id);
    let np = normalized(path);
    law_vfs_gate_admits_exactly(
        p,
        task_id,
        np,
        flags & OPEN_READ != 0,
        flags & OPEN_WRITE != 0 || flags & OPEN_APPEND != 0 || flags & OPEN_TRUNCATE != 0,
        flags & OPEN_CREATE != 0,
        false,
    );
}

/// Seeking from the current position moves the cursor by the offset: a
/// task's descriptor at cursor `c` on an existing file, moved by `k` with
/// `c + k` in range, answers `c + k` and is left at `c + k`.
pub proof fn law_seek_from_current(
    pre: VirtualFileSystem,
    post: VirtualFileSystem,
    task_id: u64,
    fd: FileDescriptor,
    k: i64,
    o: Result<u64, Fault>,
)
    requires
        seek_effect(pre, post, task_id, fd, k, SeekWhence::Current, o),
        pre.handles().dom().contains(fd),
        pre.handles()[fd].task_id == task_id,
        pre.nodes().dom().contains(pre.handles()[fd].path),
        pre.handles()[fd].cursor <= i64::MAX,
        0 <= pre.handles()[fd].cursor + k <= i64::MAX,
        pre.handles()[fd].cursor + k <= usize::MAX,
    ensures
        o == Ok::<u64, Fault>((pre.handles()[fd].cursor + k) as u64),
        post.handles().dom().contains(fd),
        post.handles()[fd].cursor == pre.handles()[fd].cursor + k,
{
    let h = pre.handles()[fd];
    let c = h.cursor;
    assert((c as i64) as int == c as int);
    let n = c + k;
    assert(((n as i64) as usize) as u64 == n);
    assert((n as i64) as usize == n);
}

/// Seeking by `k` from the current position after seeking to `a` from the
/// start lands where seeking to `a + k` from the start lands, with the same
/// answer and the same descriptors.
pub proof fn law_seek_offsets_add(
    s0: VirtualFileSystem,
    s1: VirtualFileSystem,
    s2: VirtualFileSystem,
    s3: VirtualFileSystem,
    task_id: u64,
    fd: FileDescriptor,
    a: i64,
    k: i64,
    o1: Result<u64, Fault>,
    o2: Result<u64, Fault>,
    o3: Result<u64, Fault>,
)
    requires
        seek_effect(s0, s1, task_id, fd, a, SeekWhence::Start, o1),
        o1 is Ok,
        s1.nodes() == s0.nodes(),
        seek_effect(s1, s2, task_id, fd, k, SeekWhence::Current, o2),
        0 <= a + k <= i64::MAX,
        a <= usize::MAX,
        a + k <= usize::MAX,
        seek_effect(s0, s3, task_id, fd, (a + k) as i64, SeekWhence::Start, o3),
    ensures
        o2 == o3,
        s2.handles() == s3.handles(),
{
    let h = s0.handles()[fd];
    assert(a >= 0);
    assert((a as i64) as usize == a);
    assert(s1.handles()[fd] == HandleView { cursor: a as usize, ..h });
    assert(((a as usize) as i64) as int == a as int);
    let n = a + k;
    assert((n as i64) as int == n);
    assert((n as i64) as usize == n);
    assert(((n as i64) as usize) as u64 == n);
}

} // verus!
