//! Per-build workspace locations. Creating, cloning into and deleting the
//! directories is filesystem work done outside; the layout of the paths is
//! decided here.

use vstd::prelude::*;

verus! {

/// Owns the filesystem root under which every build's workspace lives.
#[derive(Debug, Clone)]
pub struct FileSystemWorkspaceManager {
    pub root_path: String,
}

impl FileSystemWorkspaceManager {
    pub fn new(root_path: String) -> (r: FileSystemWorkspaceManager)
        ensures
            r.root_path == root_path,
    {
        FileSystemWorkspaceManager { root_path }
    }

    /// The workspace directory of the given id: directly under the root.
    pub fn get_workspace_path(&self, id: &str) -> (r: String)
        ensures
            r@ == self.root_path@ + "/"@ + id@,
    {
        let mut r = self.root_path.clone();
        r.append("/");
        r.append(id);
        r
    }
}

} // verus!
