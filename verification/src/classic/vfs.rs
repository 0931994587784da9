//! The flat filesystem of the first runtime: a table from paths to files and
//! directories, read and written as text.
use crate::ordered::TextMap;
use crate::text::{lossy_string, lossy_text};
use vstd::prelude::*;
use vstd::utf8::{decode_utf8, encode_utf8, valid_utf8};

verus! {

/// A file's bytes, or a directory's table of entries.
#[derive(Debug)]
pub enum Node {
    File(Vec<u8>),
    Directory(TextMap<String>),
}

/// Why a filesystem operation failed.
#[derive(Debug, Clone, Copy, PartialEq, Eq, Structural)]
pub enum FsError {
    MissingPath,
    NotADirectory,
    IsADirectory,
}

impl FsError {
    /// The message the error is reported with.
    pub fn message(&self) -> (s: String)
        ensures
            s@ == fs_error_text(*self),
    {
        match self {
            FsError::MissingPath => "missing path".to_string(),
            FsError::NotADirectory => "not a directory".to_string(),
            FsError::IsADirectory => "is a directory".to_string(),
        }
    }
}

pub open spec fn fs_error_text(e: FsError) -> Seq<char> {
    match e {
        FsError::MissingPath => "missing path"@,
        FsError::NotADirectory => "not a directory"@,
        FsError::IsADirectory => "is a directory"@,
    }
}

/// The names a directory table holds, in order.
pub open spec fn entry_names(d: TextMap<String>) -> Seq<Seq<char>> {
    d.items().map_values(|e: (String, String)| e.0@)
}

/// The paths and their nodes.
#[derive(Debug)]
pub struct VirtualFileSystem {
    nodes: TextMap<Node>,
}

impl VirtualFileSystem {
    pub closed spec fn wf(&self) -> bool {
        self.nodes.wf()
    }

    /// The node at each path.
    pub closed spec fn nodes(&self) -> Map<Seq<char>, Node> {
        self.nodes@
    }

    /// A filesystem holding only the empty root directory `/`.
    pub fn new() -> (fs: Self)
        ensures
            fs.wf(),
            fs.nodes().dom() == set!["/"@],
            fs.nodes()["/"@] matches Node::Directory(d) && d@.len() == 0,
    {
        let mut nodes = TextMap::new();
        let root = TextMap::new();
        nodes.insert("/".to_string(), Node::Directory(root));
        proof {
            assert(nodes@.dom() =~= set!["/"@]);
        }
        VirtualFileSystem { nodes }
    }

    /// The names in a directory, in order.
    pub fn list(&self, path: &str) -> (r: Result<Vec<String>, FsError>)
        requires
            self.wf(),
        ensures
            !self.nodes().dom().contains(path@) ==> r == Err::<Vec<String>, FsError>(FsError::MissingPath),
            self.nodes().dom().contains(path@) ==> match self.nodes()[path@] {
                Node::File(_) => r == Err::<Vec<String>, FsError>(FsError::NotADirectory),
                Node::Directory(d) => r matches Ok(v) && v@.map_values(|s: String| s@) == entry_names(d),
            },
    {
        match self.nodes.get(path) {
            None => Err(FsError::MissingPath),
            Some(Node::File(_)) => Err(FsError::NotADirectory),
            Some(Node::Directory(entries)) => {
                let mut out: Vec<String> = Vec::new();
                let mut i: usize = 0;
                while i < entries.len()
                    invariant
                        i <= entries.items().len(),
                        out@.map_values(|s: String| s@) == entry_names(*entries).take(i as int),
                    decreases entries.items().len() - i,
                {
                    let k = entries.key_at(i).clone();
                    proof {
                        assert(out@.push(k).map_values(|s: String| s@) =~= out@.map_values(
                            |s: String| s@,
                        ).push(k@));
                        assert(entry_names(*entries).take(i + 1) =~= entry_names(*entries).take(
                            i as int,
                        ).push(entries.items()[i as int].0@));
                    }
                    out.push(k);
                    i = i + 1;
                }
                proof {
                    assert(entry_names(*entries).take(entries.items().len() as int) =~= entry_names(
                        *entries,
                    ));
                }
                Ok(out)
            },
        }
    }

    /// The text of a file, decoded leniently.
    pub fn read_to_string(&self, path: &str) -> (r: Result<String, FsError>)
        requires
            self.wf(),
        ensures
            !self.nodes().dom().contains(path@) ==> r == Err::<String, FsError>(FsError::MissingPath),
            self.nodes().dom().contains(path@) ==> match self.nodes()[path@] {
                Node::File(bytes) => r matches Ok(s) && s@ == lossy_text(bytes@) && (valid_utf8(
                    bytes@,
                ) ==> s@ == decode_utf8(bytes@)),
                Node::Directory(_) => r == Err::<String, FsError>(FsError::IsADirectory),
            },
    {
        match self.nodes.get(path) {
            None => Err(FsError::MissingPath),
            Some(Node::File(bytes)) => Ok(lossy_string(bytes.as_slice())),
            Some(Node::Directory(_)) => Err(FsError::IsADirectory),
        }
    }

    /// Stores a text as the file at a path, replacing whatever was there.
    pub fn write_string(&mut self, path: &str, content: &str) -> (r: Result<(), FsError>)
        requires
            old(self).wf(),
        ensures
            final(self).wf(),
            r is Ok,
            final(self).nodes().dom() == old(self).nodes().dom().insert(path@),
            final(self).nodes()[path@] matches Node::File(b) && b@ == encode_utf8(content@),
            forall|p: Seq<char>|
                p != path@ && #[trigger] old(self).nodes().dom().contains(p) ==> final(self).nodes()[p]
                    == old(self).nodes()[p],
    {
        let bytes = vstd::slice::slice_to_vec(content.as_bytes());
        self.nodes.insert(path.to_string(), Node::File(bytes));
        Ok(())
    }
}

/// What is written as text reads back as the same text.
pub proof fn law_text_read_back(content: Seq<char>)
    ensures
        valid_utf8(encode_utf8(content)),
        decode_utf8(encode_utf8(content)) == content,
{
    vstd::utf8::encode_utf8_valid_utf8(content);
    vstd::utf8::encode_utf8_decode_utf8(content);
}

} // verus!
