//! The pipeline definition file's value object, as the command-line tool
//! sees it: named steps keyed by id, each with a command, environment,
//! dependencies and optional timeout. Reading and parsing the file happen
//! outside; validation of the values happens here.

use vstd::prelude::*;
use crate::model::ValidationError;
use crate::util::clone_names;
use crate::validate::{name_resolves, spec_error_cause, valid_graph, validate_graph};

verus! {

/// A pipeline definition: named steps keyed by their id.
#[derive(Debug, Clone)]
pub struct PipelineConfig {
    pub name: String,
    pub version: Option<String>,
    pub environment: Vec<(String, String)>,
    pub steps: Vec<(String, StepConfig)>,
}

/// One step of a pipeline definition.
#[derive(Debug, Clone)]
pub struct StepConfig {
    pub name: String,
    pub command: String,
    pub environment: Vec<(String, String)>,
    pub depends_on: Vec<String>,
    pub timeout: Option<u64>,
    pub retries: Option<u32>,
    pub working_dir: Option<String>,
}

/// The step ids of a definition, as character sequences.
pub open spec fn cli_ids_view(steps: Seq<(String, StepConfig)>) -> Seq<Seq<char>> {
    Seq::new(steps.len(), |i: int| steps[i].0@)
}

/// The dependency ids of a definition, as character sequences.
pub open spec fn cli_deps_view(steps: Seq<(String, StepConfig)>) -> Seq<Seq<Seq<char>>> {
    Seq::new(
        steps.len(),
        |i: int| Seq::new(steps[i].1.depends_on@.len(), |k: int| steps[i].1.depends_on@[k]@),
    )
}

impl PipelineConfig {
    /// Validates the definition: it must hold at least one step, step ids
    /// must be unique, every dependency must name a step, and the
    /// dependency graph must be acyclic.
    pub fn validate(&self) -> (r: Result<(), ValidationError>)
        ensures
            r is Ok <==> valid_graph(cli_ids_view(self.steps@), cli_deps_view(self.steps@)),
            r matches Err(e) ==> spec_error_cause(
                cli_ids_view(self.steps@),
                cli_deps_view(self.steps@),
                e,
            ),
    {
        let ghost idv = cli_ids_view(self.steps@);
        let ghost dnv = cli_deps_view(self.steps@);
        let n = self.steps.len();
        let mut ids: Vec<String> = Vec::new();
        let mut dep_names: Vec<Vec<String>> = Vec::new();
        let mut i: usize = 0;
        while i < n
            invariant
                i <= n,
                n == self.steps@.len(),
                idv == cli_ids_view(self.steps@),
                dnv == cli_deps_view(self.steps@),
                ids@.len() == i,
                dep_names@.len() == i,
                forall|j: int| 0 <= j < i ==> #[trigger] ids@[j]@ == idv[j],
                forall|j: int| 0 <= j < i ==> #[trigger] dep_names@[j]@.len() == dnv[j].len(),
                forall|j: int, k: int|
                    0 <= j < i && 0 <= k < dep_names@[j]@.len() ==> #[trigger] dep_names@[j]@[k]@
                        == dnv[j][k],
            decreases n - i,
        {
            ids.push(self.steps[i].0.clone());
            let row = clone_names(&self.steps[i].1.depends_on);
            dep_names.push(row);
            i = i + 1;
        }
        proof {
            assert(ids.deep_view() =~= idv);
            assert forall|j: int| 0 <= j < n implies #[trigger] dep_names.deep_view()[j] =~=
            dnv[j] by {}
            assert(dep_names.deep_view() =~= dnv);
        }
        match validate_graph(ids, &dep_names) {
            Ok(_plan) => Ok(()),
            Err(e) => Err(e),
        }
    }

    /// Checks only that every dependency names a step of the definition.
    pub fn validate_dependencies(&self) -> (r: Result<(), ValidationError>)
        ensures
            r is Ok <==> forall|i: int, k: int|
                0 <= i < cli_deps_view(self.steps@).len() && 0 <= k < cli_deps_view(
                    self.steps@,
                )[i].len() ==> name_resolves(
                    cli_ids_view(self.steps@),
                    #[trigger] cli_deps_view(self.steps@)[i][k],
                ),
            r matches Err(e) ==> e matches ValidationError::MissingDependency {
                step,
                dependency,
            } && !name_resolves(cli_ids_view(self.steps@), dependency@) && exists|i: int, k: int|
                0 <= i < self.steps@.len() && 0 <= k < self.steps@[i].1.depends_on@.len()
                    && self.steps@[i].0@ == step@ && (#[trigger] self.steps@[i].1.depends_on@[k])@
                    == dependency@,
    {
        let ghost idv = cli_ids_view(self.steps@);
        let ghost dnv = cli_deps_view(self.steps@);
        let n = self.steps.len();
        let mut i: usize = 0;
        while i < n
            invariant
                i <= n,
                n == self.steps@.len(),
                idv == cli_ids_view(self.steps@),
                dnv == cli_deps_view(self.steps@),
                forall|a: int, k: int|
                    0 <= a < i && 0 <= k < dnv[a].len() ==> name_resolves(
                        idv,
                        #[trigger] dnv[a][k],
                    ),
            decreases n - i,
        {
            let deps = &self.steps[i].1.depends_on;
            let m = deps.len();
            let mut k: usize = 0;
            while k < m
                invariant
                    k <= m,
                    i < n,
                    n == self.steps@.len(),
                    m == self.steps@[i as int].1.depends_on@.len(),
                    deps == self.steps@[i as int].1.depends_on,
                    idv == cli_ids_view(self.steps@),
                    dnv == cli_deps_view(self.steps@),
                    forall|q: int| 0 <= q < k ==> name_resolves(idv, #[trigger] dnv[i as int][q]),
                decreases m - k,
            {
                let name = &deps[k];
                let mut found = false;
                let mut j: usize = 0;
                while j < n
                    invariant
                        j <= n,
                        n == self.steps@.len(),
                        idv == cli_ids_view(self.steps@),
                        name == self.steps@[i as int].1.depends_on@[k as int],
                        !found ==> forall|t: int| 0 <= t < j ==> idv[t] != name@,
                        found ==> name_resolves(idv, name@),
                    decreases n - j,
                {
                    if !found && self.steps[j].0.eq(name) {
                        found = true;
                        proof {
                            assert(idv[j as int] == name@);
                        }
                    }
                    j = j + 1;
                }
                if !found {
                    proof {
                        assert(!name_resolves(idv, name@));
                        assert(dnv[i as int][k as int] == name@);
                    }
                    return Err(
                        ValidationError::MissingDependency {
                            step: self.steps[i].0.clone(),
                            dependency: name.clone(),
                        },
                    );
                }
                k = k + 1;
            }
            i = i + 1;
        }
        Ok(())
    }

    /// The definition that `init` writes for a new project: a build step
    /// and a test step that depends on it.
    pub fn template() -> (r: PipelineConfig)
        ensures
            r.name@ == "default"@,
            r.version matches Some(v) && v@ == "1.0"@,
            r.environment@.len() == 0,
            r.steps@.len() == 2,
            r.steps@[0].0@ == "build"@,
            r.steps@[0].1.depends_on@.len() == 0,
            r.steps@[1].0@ == "test"@,
            r.steps@[1].1.depends_on@.len() == 1,
            r.steps@[1].1.depends_on@[0]@ == "build"@,
    {
        let build = StepConfig {
            name: String::from_str("Build Project"),
            command: String::from_str("echo 'Building project...'"),
            environment: Vec::new(),
            depends_on: Vec::new(),
            timeout: Some(300),
            retries: Some(2),
            working_dir: None,
        };
        let mut test_deps: Vec<String> = Vec::new();
        test_deps.push(String::from_str("build"));
        let test = StepConfig {
            name: String::from_str("Run Tests"),
            command: String::from_str("echo 'Running tests...'"),
            environment: Vec::new(),
            depends_on: test_deps,
            timeout: Some(300),
            retries: Some(1),
            working_dir: None,
        };
        let mut steps: Vec<(String, StepConfig)> = Vec::new();
        steps.push((String::from_str("build"), build));
        steps.push((String::from_str("test"), test));
        PipelineConfig {
            name: String::from_str("default"),
            version: Some(String::from_str("1.0")),
            environment: Vec::new(),
            steps,
        }
    }
}

} // verus!
