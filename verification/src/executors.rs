//! Executor back-end handles. Running a command — locally through a
//! shell or inside a container — happens outside; these values carry the
//! settings an executor needs, and the engine turns exit codes into step
//! results through `StepResult::from_execution`.

use vstd::prelude::*;

verus! {

/// Runs steps inside containers on the given host.
#[derive(Debug, Clone)]
pub struct DockerExecutor {
    pub docker_host: String,
}

impl DockerExecutor {
    pub fn new(docker_host: String) -> (r: DockerExecutor)
        ensures
            r.docker_host == docker_host,
    {
        DockerExecutor { docker_host }
    }
}

/// Runs steps through a local shell in the given working directory.
#[derive(Debug, Clone)]
pub struct LocalExecutor {
    pub workspace_dir: String,
}

impl LocalExecutor {
    pub fn new(workspace_dir: String) -> (r: LocalExecutor)
        ensures
            r.workspace_dir == workspace_dir,
    {
        LocalExecutor { workspace_dir }
    }
}

} // verus!
