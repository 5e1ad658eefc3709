use nes_network::bench_config::{
    BenchmarkConfig, BenchmarkConfigError, BenchmarkStep, OutputConfig, ParallelQuery, QueryDefinition, SystemConfig,
    TcpServerConfig,
};

fn server(name: &str) -> TcpServerConfig {
    TcpServerConfig {
        name: name.to_string(),
        host: "localhost".to_string(),
        port: 5000,
        file_path: "data.csv".to_string(),
        repeat_count: 1,
        buffer_size: None,
        batch_size: None,
    }
}

fn query(id: &str, sources: &[&str]) -> QueryDefinition {
    QueryDefinition {
        id: id.to_string(),
        yaml_path: "q.yaml".to_string(),
        tcp_sources: sources.iter().map(|s| s.to_string()).collect(),
        output_suffix: None,
    }
}

fn config(queries: Vec<QueryDefinition>, steps: Vec<BenchmarkStep>) -> BenchmarkConfig {
    BenchmarkConfig {
        name: "bench".to_string(),
        description: None,
        system: SystemConfig {
            binary_path: "bin".to_string(),
            working_directory: ".".to_string(),
            parameters: vec![],
            startup_delay_ms: None,
            shutdown_delay_ms: None,
        },
        tcp_servers: vec![server("s1"), server("s2")],
        queries,
        benchmark_sequence: steps,
        output: OutputConfig {
            results_dir: "r".to_string(),
            log_dir: "l".to_string(),
            metrics_file: None,
            save_query_outputs: false,
        },
    }
}

#[test]
fn connections_per_server_of_a_query() {
    let c = config(vec![query("q1", &["s1", "s2", "s1"]), query("q2", &[])], vec![]);
    let mut conns = c.get_total_tcp_connections("q1", 3).unwrap();
    conns.sort();
    assert_eq!(conns, vec![("s1".to_string(), 3), ("s2".to_string(), 3)]);
    assert!(c.get_total_tcp_connections("q2", 3).unwrap().is_empty());
    assert!(matches!(c.get_total_tcp_connections("nope", 1), Err(BenchmarkConfigError::UnknownQuery(id)) if id == "nope"));
}

#[test]
fn references_are_validated() {
    let ok = config(
        vec![query("q1", &["s1"])],
        vec![
            BenchmarkStep::StartSystem,
            BenchmarkStep::StartTcpServers { servers: vec!["s1".to_string()] },
            BenchmarkStep::SubmitQuery { query_id: "q1".to_string(), count: 2, delay_between_ms: None },
            BenchmarkStep::SubmitParallel { queries: vec![ParallelQuery { query_id: "q1".to_string(), count: 1 }] },
            BenchmarkStep::StopSystem,
        ],
    );
    assert!(ok.validate().is_ok());
    let bad_source = config(vec![query("q1", &["s9"])], vec![]);
    assert!(matches!(bad_source.validate(), Err(BenchmarkConfigError::UnknownTcpServer { server, .. }) if server == "s9"));
    let bad_step = config(vec![], vec![BenchmarkStep::StopTcpServers { servers: vec!["s3".to_string()] }]);
    assert!(matches!(bad_step.validate(), Err(BenchmarkConfigError::UnknownStepServer(s)) if s == "s3"));
    let bad_query = config(vec![], vec![BenchmarkStep::SubmitQuery { query_id: "q".to_string(), count: 1, delay_between_ms: None }]);
    assert!(matches!(bad_query.validate(), Err(BenchmarkConfigError::UnknownQuery(q)) if q == "q"));
    let bad_parallel = config(vec![], vec![BenchmarkStep::SubmitParallel { queries: vec![ParallelQuery { query_id: "p".to_string(), count: 1 }] }]);
    assert!(matches!(bad_parallel.validate(), Err(BenchmarkConfigError::UnknownParallelQuery(q)) if q == "p"));
}
