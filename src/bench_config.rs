use vstd::prelude::*;
use crate::registry::{keys_distinct, map_of};

verus! {

/// The system under test of a benchmark.
#[derive(Clone, Debug)]
pub struct SystemConfig {
    pub binary_path: String,
    pub working_directory: String,
    pub parameters: Vec<(String, String)>,
    pub startup_delay_ms: Option<u64>,
    pub shutdown_delay_ms: Option<u64>,
}

/// A TCP data server that feeds a file to the queries.
#[derive(Clone, Debug)]
pub struct TcpServerConfig {
    pub name: String,
    pub host: String,
    pub port: u16,
    pub file_path: String,
    pub repeat_count: u32,
    pub buffer_size: Option<usize>,
    pub batch_size: Option<usize>,
}

/// A query of a benchmark and the TCP servers (by name) it reads from.
#[derive(Clone, Debug)]
pub struct QueryDefinition {
    pub id: String,
    pub yaml_path: String,
    pub tcp_sources: Vec<String>,
    pub output_suffix: Option<String>,
}

/// One query, submitted `count` times, in a parallel step.
#[derive(Clone, Debug)]
pub struct ParallelQuery {
    pub query_id: String,
    pub count: u32,
}

/// A step of a benchmark run.
#[derive(Clone, Debug)]
pub enum BenchmarkStep {
    StartSystem,
    StopSystem,
    StartTcpServers { servers: Vec<String> },
    StopTcpServers { servers: Vec<String> },
    SubmitQuery { query_id: String, count: u32, delay_between_ms: Option<u64> },
    SubmitParallel { queries: Vec<ParallelQuery> },
    Wait { duration_ms: u64 },
    WaitForCompletion { timeout_ms: Option<u64> },
    CollectMetrics { name: String },
}

/// Where results go.
#[derive(Clone, Debug)]
pub struct OutputConfig {
    pub results_dir: String,
    pub log_dir: String,
    pub metrics_file: Option<String>,
    pub save_query_outputs: bool,
}

/// A benchmark scenario.
#[derive(Clone, Debug)]
pub struct BenchmarkConfig {
    pub name: String,
    pub description: Option<String>,
    pub system: SystemConfig,
    pub tcp_servers: Vec<TcpServerConfig>,
    pub queries: Vec<QueryDefinition>,
    pub benchmark_sequence: Vec<BenchmarkStep>,
    pub output: OutputConfig,
}

/// A reference in a benchmark scenario that names nothing.
#[derive(Clone, Debug)]
pub enum BenchmarkConfigError {
    /// A query reads from a server that is not declared.
    UnknownTcpServer { query: String, server: String },
    /// A step starts or stops a server that is not declared.
    UnknownStepServer(String),
    /// A step submits a query that is not declared.
    UnknownQuery(String),
    /// A parallel step submits a query that is not declared.
    UnknownParallelQuery(String),
}

/// Position of the entry named `name`.
fn position_of(entries: &Vec<(String, u32)>, name: &String) -> (r: Option<usize>)
    ensures
        match r {
            Some(m) => m < entries@.len() && entries@[m as int].0@ == name@,
            None => forall|x: int| 0 <= x < entries@.len() ==> entries@[x].0@ != name@,
        },
{
    let mut m: usize = 0;
    while m < entries.len()
        invariant
            m <= entries@.len(),
            forall|x: int| 0 <= x < m ==> entries@[x].0@ != name@,
        decreases entries@.len() - m,
    {
        if entries[m].0 == *name {
            return Some(m);
        }
        m = m + 1;
    }
    None
}

/// Whether one of the first `n` names is `k`.
pub open spec fn named_in(names: Seq<String>, n: int, k: Seq<char>) -> bool {
    exists|x: int| 0 <= x < n && #[trigger] names[x]@ == k
}

impl BenchmarkConfig {
    pub open spec fn server_known(&self, name: Seq<char>) -> bool {
        exists|i: int| 0 <= i < self.tcp_servers@.len() && #[trigger] self.tcp_servers@[i].name@ == name
    }

    pub open spec fn query_known(&self, id: Seq<char>) -> bool {
        exists|i: int| 0 <= i < self.queries@.len() && #[trigger] self.queries@[i].id@ == id
    }

    pub open spec fn servers_known(&self, names: Seq<String>) -> bool {
        forall|j: int| 0 <= j < names.len() ==> self.server_known(#[trigger] names[j]@)
    }

    pub open spec fn step_resolves(&self, step: BenchmarkStep) -> bool {
        match step {
            BenchmarkStep::StartTcpServers { servers } => self.servers_known(servers@),
            BenchmarkStep::StopTcpServers { servers } => self.servers_known(servers@),
            BenchmarkStep::SubmitQuery { query_id, .. } => self.query_known(query_id@),
            BenchmarkStep::SubmitParallel { queries } =>
                forall|j: int| 0 <= j < queries@.len() ==> self.query_known(#[trigger] queries@[j].query_id@),
            _ => true,
        }
    }

    /// Every server a query reads from and every server or query a step names
    /// is declared.
    pub open spec fn references_resolve(&self) -> bool {
        &&& forall|i: int| 0 <= i < self.queries@.len() ==> self.servers_known(#[trigger] self.queries@[i].tcp_sources@)
        &&& forall|i: int| 0 <= i < self.benchmark_sequence@.len() ==> self.step_resolves(#[trigger] self.benchmark_sequence@[i])
    }

    fn has_server(&self, name: &String) -> (r: bool)
        ensures
            r == self.server_known(name@),
    {
        let mut i: usize = 0;
        while i < self.tcp_servers.len()
            invariant
                i <= self.tcp_servers@.len(),
                forall|j: int| 0 <= j < i ==> self.tcp_servers@[j].name@ != name@,
            decreases self.tcp_servers@.len() - i,
        {
            if self.tcp_servers[i].name == *name {
                return true;
            }
            i = i + 1;
        }
        false
    }

    fn has_query(&self, id: &String) -> (r: bool)
        ensures
            r == self.query_known(id@),
    {
        let mut i: usize = 0;
        while i < self.queries.len()
            invariant
                i <= self.queries@.len(),
                forall|j: int| 0 <= j < i ==> self.queries@[j].id@ != id@,
            decreases self.queries@.len() - i,
        {
            if self.queries[i].id == *id {
                return true;
            }
            i = i + 1;
        }
        false
    }

    /// Index of the first query with this id.
    fn find_query(&self, id: &String) -> (r: Option<usize>)
        ensures
            match r {
                Some(i) => i < self.queries@.len() && self.queries@[i as int].id@ == id@
                    && forall|j: int| 0 <= j < i ==> self.queries@[j].id@ != id@,
                None => !self.query_known(id@),
            },
    {
        let mut i: usize = 0;
        while i < self.queries.len()
            invariant
                i <= self.queries@.len(),
                forall|j: int| 0 <= j < i ==> self.queries@[j].id@ != id@,
            decreases self.queries@.len() - i,
        {
            if self.queries[i].id == *id {
                return Some(i);
            }
            i = i + 1;
        }
        None
    }

    /// The first of `names` that is not a declared server.
    fn first_unknown_server(&self, names: &Vec<String>) -> (r: Option<String>)
        ensures
            r is None <==> self.servers_known(names@),
            r matches Some(n) ==> !self.server_known(n@),
    {
        let mut j: usize = 0;
        while j < names.len()
            invariant
                j <= names@.len(),
                forall|k: int| 0 <= k < j ==> self.server_known(#[trigger] names@[k]@),
            decreases names@.len() - j,
        {
            if !self.has_server(&names[j]) {
                return Some(names[j].clone());
            }
            j = j + 1;
        }
        None
    }

    /// The first query id of a parallel step that is not declared.
    fn first_unknown_parallel(&self, queries: &Vec<ParallelQuery>) -> (r: Option<String>)
        ensures
            r is None <==> forall|j: int| 0 <= j < queries@.len() ==> self.query_known(#[trigger] queries@[j].query_id@),
            r matches Some(id) ==> !self.query_known(id@),
    {
        let mut j: usize = 0;
        while j < queries.len()
            invariant
                j <= queries@.len(),
                forall|k: int| 0 <= k < j ==> self.query_known(#[trigger] queries@[k].query_id@),
            decreases queries@.len() - j,
        {
            if !self.has_query(&queries[j].query_id) {
                return Some(queries[j].query_id.clone());
            }
            j = j + 1;
        }
        None
    }

    /// Checks the references between the sections of the scenario (that the
    /// files it names exist is for the caller to check). On failure the
    /// error names a reference that resolves to nothing.
    pub fn validate(&self) -> (r: Result<(), BenchmarkConfigError>)
        ensures
            r is Ok <==> self.references_resolve(),
            r matches Err(BenchmarkConfigError::UnknownTcpServer { server, .. }) ==> !self.server_known(server@),
            r matches Err(BenchmarkConfigError::UnknownStepServer(server)) ==> !self.server_known(server@),
            r matches Err(BenchmarkConfigError::UnknownQuery(id)) ==> !self.query_known(id@),
            r matches Err(BenchmarkConfigError::UnknownParallelQuery(id)) ==> !self.query_known(id@),
    {
        let mut i: usize = 0;
        while i < self.queries.len()
            invariant
                i <= self.queries@.len(),
                forall|k: int| 0 <= k < i ==> self.servers_known(#[trigger] self.queries@[k].tcp_sources@),
            decreases self.queries@.len() - i,
        {
            match self.first_unknown_server(&self.queries[i].tcp_sources) {
                Some(server) => {
                    return Err(BenchmarkConfigError::UnknownTcpServer { query: self.queries[i].id.clone(), server });
                },
                None => {},
            }
            i = i + 1;
        }
        let mut s: usize = 0;
        while s < self.benchmark_sequence.len()
            invariant
                s <= self.benchmark_sequence@.len(),
                forall|k: int| 0 <= k < self.queries@.len() ==> self.servers_known(#[trigger] self.queries@[k].tcp_sources@),
                forall|k: int| 0 <= k < s ==> self.step_resolves(#[trigger] self.benchmark_sequence@[k]),
            decreases self.benchmark_sequence@.len() - s,
        {
            match &self.benchmark_sequence[s] {
                BenchmarkStep::StartTcpServers { servers } | BenchmarkStep::StopTcpServers { servers } => {
                    match self.first_unknown_server(servers) {
                        Some(server) => {
                            return Err(BenchmarkConfigError::UnknownStepServer(server));
                        },
                        None => {},
                    }
                },
                BenchmarkStep::SubmitQuery { query_id, .. } => {
                    if !self.has_query(query_id) {
                        return Err(BenchmarkConfigError::UnknownQuery(query_id.clone()));
                    }
                },
                BenchmarkStep::SubmitParallel { queries } => {
                    match self.first_unknown_parallel(queries) {
                        Some(id) => {
                            return Err(BenchmarkConfigError::UnknownParallelQuery(id));
                        },
                        None => {},
                    }
                },
                _ => {},
            }
            s = s + 1;
        }
        Ok(())
    }

    /// Index of the first query with this id.
    pub open spec fn first_query(&self, id: Seq<char>) -> int {
        choose|i: int| 0 <= i < self.queries@.len() && self.queries@[i].id@ == id
            && forall|j: int| 0 <= j < i ==> self.queries@[j].id@ != id
    }

    /// The TCP connections that `count` instances of a query open: each of
    /// its servers (once, by name) with `count`. An unknown query is an error.
    pub fn get_total_tcp_connections(&self, query_id: &str, count: u32) -> (r: Result<Vec<(String, u32)>, BenchmarkConfigError>)
        ensures
            r is Err <==> !self.query_known(query_id@),
            r matches Err(e) ==> e matches BenchmarkConfigError::UnknownQuery(id) && id@ == query_id@,
            r matches Ok(v) ==> {
                let q = self.queries@[self.first_query(query_id@)];
                &&& keys_distinct(v@.map_values(|e: (String, u32)| (e.0@, e.1)))
                &&& map_of(v@.map_values(|e: (String, u32)| (e.0@, e.1))) == Map::new(
                    |k: Seq<char>| named_in(q.tcp_sources@, q.tcp_sources@.len() as int, k),
                    |k: Seq<char>| count,
                )
            },
    {
        let wanted = query_id.to_owned();
        let i = match self.find_query(&wanted) {
            Some(i) => i,
            None => return Err(BenchmarkConfigError::UnknownQuery(wanted)),
        };
        assert(self.first_query(query_id@) == i as int);
        let sources = &self.queries[i].tcp_sources;
        let mut out: Vec<(String, u32)> = Vec::new();
        let mut j: usize = 0;
        while j < sources.len()
            invariant
                j <= sources@.len(),
                keys_distinct(out@.map_values(|e: (String, u32)| (e.0@, e.1))),
                map_of(out@.map_values(|e: (String, u32)| (e.0@, e.1))) == Map::new(
                    |k: Seq<char>| named_in(sources@, j as int, k),
                    |k: Seq<char>| count,
                ),
            decreases sources@.len() - j,
        {
            let name = &sources[j];
            let found = position_of(&out, name);
            let present = found.is_some();
            let ghost before = out@.map_values(|e: (String, u32)| (e.0@, e.1));
            let ghost old_out = out@;
            if !present {
                out.push((name.clone(), count));
            }
            proof {
                let after = out@.map_values(|e: (String, u32)| (e.0@, e.1));
                crate::registry::lemma_map_of_dom(before, name@);
                if !present {
                    assert(after.drop_last() =~= before);
                    assert forall|a: int, b: int| 0 <= a < after.len() && 0 <= b < after.len() && a != b implies after[a].0 != after[b].0 by {
                        if a == after.len() - 1 {
                            assert(old_out[b].0@ != name@);
                            assert(after[b].0 == old_out[b].0@);
                        } else if b == after.len() - 1 {
                            assert(old_out[a].0@ != name@);
                            assert(after[a].0 == old_out[a].0@);
                        } else {
                            assert(after[a] == before[a] && after[b] == before[b]);
                        }
                    }
                } else {
                    assert(after =~= before);
                    let m = found->Some_0;
                    assert(before[m as int].0 == name@);
                }
                assert forall|k: Seq<char>| #[trigger] named_in(sources@, j + 1, k) <==> (named_in(sources@, j as int, k) || k == name@) by {
                    if named_in(sources@, j + 1, k) {
                        let x = choose|x: int| 0 <= x < j + 1 && #[trigger] sources@[x]@ == k;
                        if x < j {
                            assert(named_in(sources@, j as int, k));
                        }
                    }
                    if named_in(sources@, j as int, k) {
                        let x = choose|x: int| 0 <= x < j && #[trigger] sources@[x]@ == k;
                        assert(sources@[x]@ == k);
                    }
                    if k == name@ {
                        assert(sources@[j as int]@ == k);
                    }
                }
                assert(map_of(after) =~= Map::new(
                    |k: Seq<char>| named_in(sources@, j + 1, k),
                    |k: Seq<char>| count,
                ));
            }
            j = j + 1;
        }
        Ok(out)
    }
}

} // verus!
