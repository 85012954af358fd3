//! The file-area layout: the download, upload and RAG paths derived from a
//! base directory. Creating the directories and touching files is I/O done
//! by the caller outside this core.

use vstd::prelude::*;
use vstd::string::StringExecFns;

verus! {

/// Paths of the managed file areas under one base directory.
#[derive(Debug)]
pub struct FileSystemInterface {
    pub base_path: String,
    pub downloads_path: String,
    pub uploads_path: String,
    pub rag_path: String,
}

impl FileSystemInterface {
    /// Derives the download, upload and RAG paths from the base path. The
    /// caller is responsible for creating the directories on disk.
    pub fn new(base_path: String) -> (f: Self)
        ensures
            f.base_path@ == base_path@,
            f.downloads_path@ == base_path@ + "/downloads"@,
            f.uploads_path@ == base_path@ + "/uploads"@,
            f.rag_path@ == base_path@ + "/rag"@,
    {
        let downloads_path = base_path.clone().concat("/downloads");
        let uploads_path = base_path.clone().concat("/uploads");
        let rag_path = base_path.clone().concat("/rag");
        FileSystemInterface { base_path, downloads_path, uploads_path, rag_path }
    }

    /// The downloads directory.
    pub fn downloads_path(&self) -> (p: &String)
        ensures
            p == &self.downloads_path,
    {
        &self.downloads_path
    }

    /// The uploads directory.
    pub fn uploads_path(&self) -> (p: &String)
        ensures
            p == &self.uploads_path,
    {
        &self.uploads_path
    }

    /// The RAG document directory.
    pub fn rag_path(&self) -> (p: &String)
        ensures
            p == &self.rag_path,
    {
        &self.rag_path
    }
}

} // verus!
