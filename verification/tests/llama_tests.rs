use bution::hub::download::PathStyle;
use bution::llama::{candidate_paths, validate_model, BenchConfig, LlamaBinaries, LlamaError, ServerConfig, WorkerConfig};
use bution::network::{IpAddress, SocketAddress};
use bution::processes::{ProcessKind, ProcessSpec};

fn fake_binaries() -> LlamaBinaries {
    LlamaBinaries { server: "/opt/llama/server".into(), rpc_server: "/opt/llama/rpc".into(), bench: "/opt/llama/bench".into() }
}

#[test]
fn builds_rpc_server_without_shell() {
    let binaries = fake_binaries();
    let spec = binaries
        .worker_process(&WorkerConfig { bind_address: IpAddress::v4(192, 168, 1, 18), port: 50_052, threads: 6, enable_cache: true })
        .unwrap();
    assert_eq!(spec.args, ["--host", "192.168.1.18", "--port", "50052", "--threads", "6", "--cache"]);
    assert_eq!(spec.kind, ProcessKind::RpcWorker);
    assert_eq!(spec.executable, "/opt/llama/rpc");
}

#[test]
fn builds_distributed_llama_server_command() {
    let binaries = fake_binaries();
    let mut config = ServerConfig::local("/models/model.gguf".into());
    config.rpc_endpoints = vec![SocketAddress { ip: IpAddress::v4(192, 168, 1, 18), port: 50052 }];
    config.tensor_split = vec!["0.700".into(), "0.300".into()];
    let spec = binaries.server_process(&config, true, PathStyle::Unix).unwrap();
    assert!(spec.args.windows(2).any(|pair| pair == ["--rpc", "192.168.1.18:50052"]));
    assert!(spec.args.windows(2).any(|pair| pair == ["--tensor-split", "0.700,0.300"]));
}

#[test]
fn rejects_non_gguf_model() {
    let binaries = fake_binaries();
    let config = ServerConfig::local("/models/model.bin".into());
    assert!(binaries.server_process(&config, true, PathStyle::Unix).is_err());
}

#[test]
fn worker_never_binds_to_loopback_or_any_address() {
    let binaries = fake_binaries();
    for address in [IpAddress::v4(127, 0, 0, 1), IpAddress::v4(0, 0, 0, 0), IpAddress::V6(0), IpAddress::V6(1)] {
        let config = WorkerConfig { bind_address: address, port: 1, threads: 0, enable_cache: false };
        assert_eq!(binaries.worker_process(&config).unwrap_err(), LlamaError::UntrustedBind);
    }
    let config = WorkerConfig { bind_address: IpAddress::v4(10, 0, 0, 2), port: 1, threads: 0, enable_cache: false };
    assert_eq!(binaries.worker_process(&config).unwrap().args, ["--host", "10.0.0.2", "--port", "1", "--threads", "1"]);
}

#[test]
fn local_server_listens_on_loopback() {
    let spec = fake_binaries().server_process(&ServerConfig::local("m.gguf".into()), true, PathStyle::Unix).unwrap();
    assert_eq!(
        spec.args,
        ["--model", "m.gguf", "--host", "127.0.0.1", "--port", "8080", "--ctx-size", "4096", "--n-gpu-layers", "all"]
    );
}

#[test]
fn model_checks_come_before_the_split() {
    let mut config = ServerConfig::local("m.gguf".into());
    config.tensor_split = vec!["NaN".into()];
    config.tensor_split_valid = false;
    assert_eq!(fake_binaries().server_process(&config, false, PathStyle::Unix).unwrap_err(), LlamaError::ModelMissing);
    assert_eq!(fake_binaries().server_process(&config, true, PathStyle::Unix).unwrap_err(), LlamaError::InvalidSplit);
    assert_eq!(validate_model(".gguf", true, PathStyle::Unix), Err(LlamaError::NotGgufModel));
    assert_eq!(validate_model("dir/a.gguf", true, PathStyle::Unix), Ok(()));
}

#[test]
fn bench_command_reports_json() {
    let config = BenchConfig {
        model: "m.gguf".into(),
        rpc_endpoints: vec![SocketAddress { ip: IpAddress::v4(10, 0, 0, 2), port: 50052 }],
        tensor_split: vec!["0.500".into(), "0.500".into()],
        tensor_split_valid: true,
        prompt_tokens: 512,
        generation_tokens: 128,
        repetitions: 0,
    };
    let spec = fake_binaries().bench_process(&config, true, PathStyle::Unix).unwrap();
    assert_eq!(spec.kind, ProcessKind::LlamaBench);
    assert!(spec.args.windows(2).any(|pair| pair == ["--repetitions", "1"]));
    assert!(spec.args.windows(2).any(|pair| pair == ["--tensor-split", "0.500/0.500"]));
    assert!(spec.args.windows(2).any(|pair| pair == ["--rpc", "10.0.0.2:50052"]));
}

#[test]
fn discovery_reports_the_first_missing_program() {
    assert_eq!(LlamaBinaries::discover(None, None, None), Err(LlamaError::ServerMissing));
    assert_eq!(LlamaBinaries::discover(Some("s".into()), None, Some("b".into())), Err(LlamaError::RpcServerMissing));
    assert_eq!(LlamaBinaries::discover(Some("s".into()), Some("r".into()), None), Err(LlamaError::BenchMissing));
    assert!(LlamaBinaries::discover(Some("s".into()), Some("r".into()), Some("b".into())).is_ok());
}

#[test]
fn programs_are_looked_for_in_the_configured_directory_first() {
    let names = vec!["rpc-server".to_owned(), "ggml-rpc-server".to_owned()];
    let path = vec!["/usr/bin".to_owned(), "/opt/".to_owned()];
    let paths = candidate_paths(Some("/custom"), &path, &names, PathStyle::Unix);
    assert_eq!(
        paths,
        [
            "/custom/rpc-server",
            "/custom/ggml-rpc-server",
            "/usr/bin/rpc-server",
            "/usr/bin/ggml-rpc-server",
            "/opt/rpc-server",
            "/opt/ggml-rpc-server"
        ]
    );
    assert_eq!(candidate_paths(None, &Vec::new(), &names, PathStyle::Unix).len(), 0);
}

#[test]
fn process_spec_collects_arguments() {
    let spec = ProcessSpec::new(ProcessKind::LlamaBench, "rustc".into()).args(vec!["--version".into()]);
    assert_eq!(spec.args, ["--version"]);
    assert!(spec.working_directory.is_none());
}

#[test]
fn windows_model_paths_and_candidates() {
    assert_eq!(validate_model("D:\\Models\\model.gguf", true, PathStyle::Windows), Ok(()));
    assert_eq!(validate_model("D:\\Models\\model.gguf\\", true, PathStyle::Windows), Ok(()));
    assert_eq!(validate_model("D:\\Models\\.gguf", true, PathStyle::Windows), Err(LlamaError::NotGgufModel));
    let names = vec!["llama-server.exe".to_string()];
    let paths = candidate_paths(Some("C:\\llama"), &vec!["C:\\bin\\".to_string()], &names, PathStyle::Windows);
    assert_eq!(paths, vec!["C:\\llama\\llama-server.exe".to_string(), "C:\\bin\\llama-server.exe".to_string()]);
}
