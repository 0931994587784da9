//! The values that the desktop's web API exchanges, and the rules its
//! endpoints follow before they reach the filesystem.
use crate::text::concat2;
use vstd::prelude::*;

verus! {

/// A command line sent to `/api/shell`.
#[derive(Debug)]
pub struct ShellCommand {
    pub command: String,
}

/// A file sent to `/api/files`.
#[derive(Debug)]
pub struct WriteFileRequest {
    pub path: String,
    pub contents: String,
}

/// An app of the desktop: its id, its title, the page it opens and the
/// sandbox it runs in.
#[derive(Debug)]
pub struct AppManifest {
    pub id: String,
    pub title: String,
    pub entrypoint: String,
    pub sandbox: String,
}

impl AppManifest {
    pub open spec fn view(&self) -> (Seq<char>, Seq<char>, Seq<char>, Seq<char>) {
        (self.id@, self.title@, self.entrypoint@, self.sandbox@)
    }
}

/// The apps the desktop offers, in the order it lists them.
pub open spec fn app_catalog() -> Seq<(Seq<char>, Seq<char>, Seq<char>, Seq<char>)> {
    seq![
        ("calculator"@, "Calculator"@, "/apps/calculator/index.html"@, "allow-scripts"@),
        ("notes"@, "Notes"@, "/apps/notes/index.html"@, "allow-scripts"@),
        ("file-manager"@, "Files"@, "/apps/file-manager/index.html"@, "allow-scripts"@),
        ("settings"@, "Settings"@, "/apps/settings/index.html"@, "allow-scripts"@),
    ]
}

fn manifest(id: &str, title: &str, entrypoint: &str) -> (m: AppManifest)
    ensures
        m@ == (id@, title@, entrypoint@, "allow-scripts"@),
{
    AppManifest {
        id: id.to_string(),
        title: title.to_string(),
        entrypoint: entrypoint.to_string(),
        sandbox: "allow-scripts".to_string(),
    }
}

/// The apps the desktop offers.
pub fn list_apps() -> (v: Vec<AppManifest>)
    ensures
        v@.map_values(|m: AppManifest| m@) == app_catalog(),
{
    let mut v: Vec<AppManifest> = Vec::new();
    v.push(manifest("calculator", "Calculator", "/apps/calculator/index.html"));
    v.push(manifest("notes", "Notes", "/apps/notes/index.html"));
    v.push(manifest("file-manager", "Files", "/apps/file-manager/index.html"));
    v.push(manifest("settings", "Settings", "/apps/settings/index.html"));
    proof {
        assert(v@.map_values(|m: AppManifest| m@) =~= app_catalog());
    }
    v
}

/// The directory `/api/files` lists: the `path` query, or `/data`.
pub fn listing_path(query: Option<&str>) -> (p: String)
    ensures
        match query {
            Some(q) => p@ == q@,
            None => p@ == "/data"@,
        },
{
    match query {
        Some(q) => q.to_string(),
        None => "/data".to_string(),
    }
}

/// The path `/api/files/{path}` deletes: the captured segment under `/`.
pub fn deletion_path(segment: &str) -> (p: String)
    ensures
        p@ == "/"@ + segment@,
{
    concat2("/", segment)
}

} // verus!
