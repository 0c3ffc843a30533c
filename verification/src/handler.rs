//! The two request handlers: one bound to a single file, one bound to a
//! root directory below which the request's path segments are resolved.

use vstd::prelude::*;

use crate::containment::lemma_resolved_stays_below_root;
use crate::path::{join_path, normalize_path, resolved};
use crate::response::{Response, BAD_REQUEST};

verus! {

/// The path segments that the router captured from a request's URL.
#[derive(Clone, Debug)]
pub struct FilePathExtractor {
    parts: Vec<String>,
}

impl View for FilePathExtractor {
    type V = Seq<Seq<char>>;

    closed spec fn view(&self) -> Seq<Seq<char>> {
        self.parts.deep_view()
    }
}

impl FilePathExtractor {
    /// Wraps the captured segments, in the order in which the URL has them.
    pub fn new(parts: Vec<String>) -> (request: FilePathExtractor)
        ensures
            request@ == parts.deep_view(),
    {
        FilePathExtractor { parts }
    }

    /// The captured segments.
    pub fn parts(&self) -> (parts: &Vec<String>)
        ensures
            parts.deep_view() == self@,
    {
        &self.parts
    }

    /// Marks the response to a request whose capture could not be
    /// extracted: the status becomes 400 and the body stays as it was.
    pub fn extend(response: &mut Response)
        ensures
            final(response).status == BAD_REQUEST,
            final(response).body == old(response).body,
    {
        response.status = BAD_REQUEST;
    }
}

/// Serves the files below a root directory.
#[derive(Clone, Debug)]
pub struct FileSystemHandler {
    root: String,
}

impl View for FileSystemHandler {
    type V = Seq<char>;

    closed spec fn view(&self) -> Seq<char> {
        self.root@
    }
}

impl FileSystemHandler {
    /// Binds a handler to the directory `root`.
    pub fn new(root: String) -> (handler: FileSystemHandler)
        ensures
            handler@ == root@,
    {
        FileSystemHandler { root }
    }

    /// A fresh handler for one request, bound to the same root.
    pub fn new_handler(&self) -> (handler: FileSystemHandler)
        ensures
            handler@ == self@,
    {
        FileSystemHandler { root: self.root.clone() }
    }

    /// The path of the file that the request asks for: the root with the
    /// normalized segments below it. The path need not exist, and it never
    /// lies outside the root.
    pub fn resolve(&self, request: &FilePathExtractor) -> (path: String)
        ensures
            path@ == resolved(self@, request@),
            self@.is_prefix_of(path@),
    {
        proof {
            lemma_resolved_stays_below_root(self@, request@);
        }
        let names: Vec<String> = normalize_path(request.parts());
        join_path(self.root.as_str(), &names)
    }
}

/// Serves one fixed file, whatever the request holds.
#[derive(Clone, Debug)]
pub struct FileHandler {
    path: String,
}

impl View for FileHandler {
    type V = Seq<char>;

    closed spec fn view(&self) -> Seq<char> {
        self.path@
    }
}

impl FileHandler {
    /// Binds a handler to the file at `path`.
    pub fn new(path: String) -> (handler: FileHandler)
        ensures
            handler@ == path@,
    {
        FileHandler { path }
    }

    /// A fresh handler for one request, bound to the same file.
    pub fn new_handler(&self) -> (handler: FileHandler)
        ensures
            handler@ == self@,
    {
        FileHandler { path: self.path.clone() }
    }

    /// The path of the file to serve: always the bound one.
    pub fn resolve(&self) -> (path: String)
        ensures
            path@ == self@,
    {
        self.path.clone()
    }
}

} // verus!
