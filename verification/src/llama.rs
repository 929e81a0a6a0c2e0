//! llama.cpp binaries and the command lines of the processes built from
//! them.
use vstd::prelude::*;

use crate::addresses::{ip_text, ip_text_spec, socket_text, socket_text_spec};
use crate::hub::download::{file_name_of, is_separator, last_dot, separates, PathStyle};
use crate::network::{IpAddress, SocketAddress};
use crate::processes::{texts, ProcessKind, ProcessSpec};
use crate::text::{append_chars, chars_of, decimal, decimal_string, joined, same_text, string_from_chars};

verus! {

/// Paths (as text) of the three llama.cpp programs.
#[derive(Debug, Clone, PartialEq, Eq)]
pub struct LlamaBinaries {
    pub server: String,
    pub rpc_server: String,
    pub bench: String,
}

/// Why a llama.cpp process cannot be described.
#[derive(Debug, Clone, Copy, PartialEq, Eq, Structural)]
pub enum LlamaError {
    ServerMissing,
    RpcServerMissing,
    BenchMissing,
    /// An RPC worker would listen on an unspecified or loopback address.
    UntrustedBind,
    /// The model's file name does not end in `.gguf`.
    NotGgufModel,
    /// The model file does not exist.
    ModelMissing,
    /// A tensor split weight is not a finite positive number.
    InvalidSplit,
}

impl LlamaError {
    /// The message shown for this error.
    pub fn message(&self) -> (text: &'static str)
        ensures
            text@ == (match *self {
                LlamaError::ServerMissing => "llama-server is not installed"@,
                LlamaError::RpcServerMissing => "llama.cpp RPC server is not installed"@,
                LlamaError::BenchMissing => "llama-bench is not installed"@,
                LlamaError::UntrustedBind => "RPC worker must bind to the selected trusted LAN address"@,
                LlamaError::NotGgufModel => "the selected model must be a .gguf file"@,
                LlamaError::ModelMissing => "the selected GGUF model does not exist"@,
                LlamaError::InvalidSplit => "tensor split weights must be finite positive numbers"@,
            }),
    {
        match self {
            LlamaError::ServerMissing => "llama-server is not installed",
            LlamaError::RpcServerMissing => "llama.cpp RPC server is not installed",
            LlamaError::BenchMissing => "llama-bench is not installed",
            LlamaError::UntrustedBind => "RPC worker must bind to the selected trusted LAN address",
            LlamaError::NotGgufModel => "the selected model must be a .gguf file",
            LlamaError::ModelMissing => "the selected GGUF model does not exist",
            LlamaError::InvalidSplit => "tensor split weights must be finite positive numbers",
        }
    }
}

/// An RPC worker: where it listens, with how many threads, and whether it
/// keeps a tensor cache.
#[derive(Debug, Clone, Copy, PartialEq, Eq, Structural)]
pub struct WorkerConfig {
    pub bind_address: IpAddress,
    pub port: u16,
    pub threads: usize,
    pub enable_cache: bool,
}

/// A llama-server. The tensor split weights are given as text with three
/// decimals, together with whether every weight was finite and positive.
#[derive(Debug)]
pub struct ServerConfig {
    pub model: String,
    pub bind_address: IpAddress,
    pub port: u16,
    pub context_size: usize,
    pub rpc_endpoints: Vec<SocketAddress>,
    pub tensor_split: Vec<String>,
    pub tensor_split_valid: bool,
}

/// A llama-bench run, with its tensor split given as for a server.
#[derive(Debug)]
pub struct BenchConfig {
    pub model: String,
    pub rpc_endpoints: Vec<SocketAddress>,
    pub tensor_split: Vec<String>,
    pub tensor_split_valid: bool,
    pub prompt_tokens: usize,
    pub generation_tokens: usize,
    pub repetitions: usize,
}

impl ServerConfig {
    /// A server for `model` alone, on `127.0.0.1:8080` with a 4096-token context.
    pub fn local(model: String) -> (config: Self)
        ensures
            config.model == model,
            config.bind_address == IpAddress::V4(0x7f00_0001),
            config.port == 8080,
            config.context_size == 4096,
            config.rpc_endpoints@.len() == 0,
            config.tensor_split@.len() == 0,
            config.tensor_split_valid,
    {
        ServerConfig {
            model,
            bind_address: IpAddress::V4(0x7f00_0001),
            port: 8080,
            context_size: 4096,
            rpc_endpoints: Vec::new(),
            tensor_split: Vec::new(),
            tensor_split_valid: true,
        }
    }
}

/// `Path::extension` of a path: what follows the last `.` of its file
/// name, when that `.` is not the name's first character.
pub open spec fn extension_of(path: Seq<char>, style: PathStyle) -> Option<Seq<char>> {
    match file_name_of(path, style) {
        Some(name) => match last_dot(name) {
            Some(p) => if p > 0 {
                Some(name.skip(p + 1))
            } else {
                None
            },
            None => None,
        },
        None => None,
    }
}

/// A model path must end in `.gguf` and name an existing file.
pub open spec fn model_check(model: Seq<char>, model_is_file: bool, style: PathStyle) -> Result<(), LlamaError> {
    if extension_of(model, style) != Some(seq!['g', 'g', 'u', 'f']) {
        Err(LlamaError::NotGgufModel)
    } else if !model_is_file {
        Err(LlamaError::ModelMissing)
    } else {
        Ok(())
    }
}

/// Checks a model path; whether it names an existing file is told by the caller.
pub fn validate_model(model: &str, model_is_file: bool, style: PathStyle) -> (r: Result<(), LlamaError>)
    ensures
        r == model_check(model@, model_is_file, style),
{
    let name = match crate::hub::download::local_file_name(model, style) {
        Ok(name) => name,
        Err(_) => return Err(LlamaError::NotGgufModel),
    };
    let chars = chars_of(name.as_str());
    let mut end = chars.len();
    proof {
        assert(chars@.take(end as int) =~= chars@);
    }
    while end > 0 && chars[end - 1] != '.'
        invariant
            end <= chars@.len(),
            chars@ == name@,
            last_dot(name@) == last_dot(chars@.take(end as int)),
        decreases end,
    {
        proof {
            assert(chars@.take(end as int).drop_last() =~= chars@.take(end - 1));
        }
        end -= 1;
    }
    proof {
        if end > 0 {
            assert(chars@.take(end as int).last() == '.');
        }
    }
    if end <= 1 {
        return Err(LlamaError::NotGgufModel);
    }
    let extension = crate::text::slice_chars(&chars, end, chars.len());
    let gguf: [char; 4] = ['g', 'g', 'u', 'f'];
    proof {
        assert(gguf@ =~= seq!['g', 'g', 'u', 'f']);
        assert(extension@ =~= name@.skip(end as int));
    }
    let matches = extension.len() == 4 && extension[0] == 'g' && extension[1] == 'g' && extension[2] == 'u'
        && extension[3] == 'f';
    proof {
        if matches {
            assert(extension@ =~= seq!['g', 'g', 'u', 'f']);
        }
    }
    if !matches {
        return Err(LlamaError::NotGgufModel);
    }
    if !model_is_file {
        return Err(LlamaError::ModelMissing);
    }
    Ok(())
}

/// The text of each endpoint, separated by `,`.
pub open spec fn endpoints_text(endpoints: Seq<SocketAddress>) -> Seq<char> {
    joined(endpoints.map_values(|e: SocketAddress| socket_text_spec(e)), seq![','])
}

fn join_endpoints(endpoints: &Vec<SocketAddress>) -> (text: String)
    ensures
        text@ == endpoints_text(endpoints@),
{
    let ghost parts = endpoints@.map_values(|e: SocketAddress| socket_text_spec(e));
    let mut out: Vec<char> = Vec::new();
    for i in 0..endpoints.len()
        invariant
            parts == endpoints@.map_values(|e: SocketAddress| socket_text_spec(e)),
            out@ == joined(parts.take(i as int), seq![',']),
    {
        if i > 0 {
            out.push(',');
        }
        let piece = socket_text(endpoints[i]);
        let ghost before = out@;
        append_chars(&mut out, &chars_of(piece.as_str()));
        proof {
            assert(parts.take(i + 1).drop_last() =~= parts.take(i as int));
            if i > 0 {
                assert(out@ =~= joined(parts.take(i + 1), seq![',']));
            } else {
                assert(out@ =~= joined(parts.take(i + 1), seq![',']));
            }
        }
    }
    proof {
        assert(parts.take(endpoints@.len() as int) =~= parts);
    }
    string_from_chars(&out)
}

fn join_texts(parts: &Vec<String>, separator: char) -> (text: String)
    ensures
        text@ == joined(texts(parts@), seq![separator]),
{
    let ghost all = texts(parts@);
    let mut out: Vec<char> = Vec::new();
    for i in 0..parts.len()
        invariant
            all == texts(parts@),
            out@ == joined(all.take(i as int), seq![separator]),
    {
        if i > 0 {
            out.push(separator);
        }
        append_chars(&mut out, &chars_of(parts[i].as_str()));
        proof {
            assert(all.take(i + 1).drop_last() =~= all.take(i as int));
            assert(out@ =~= joined(all.take(i + 1), seq![separator]));
        }
    }
    proof {
        assert(all.take(parts@.len() as int) =~= all);
    }
    string_from_chars(&out)
}

pub open spec fn at_least_one(n: usize) -> nat {
    if n == 0 {
        1
    } else {
        n as nat
    }
}

/// The arguments of an RPC worker.
pub open spec fn worker_args(config: WorkerConfig) -> Seq<Seq<char>> {
    seq![
        "--host"@,
        ip_text_spec(config.bind_address),
        "--port"@,
        decimal(config.port as nat),
        "--threads"@,
        decimal(at_least_one(config.threads)),
    ] + if config.enable_cache {
        seq!["--cache"@]
    } else {
        Seq::empty()
    }
}

/// The arguments of a llama-server.
pub open spec fn server_args(config: ServerConfig) -> Seq<Seq<char>> {
    seq![
        "--model"@,
        config.model@,
        "--host"@,
        ip_text_spec(config.bind_address),
        "--port"@,
        decimal(config.port as nat),
        "--ctx-size"@,
        decimal(config.context_size as nat),
        "--n-gpu-layers"@,
        "all"@,
    ] + (if config.rpc_endpoints@.len() > 0 {
        seq!["--rpc"@, endpoints_text(config.rpc_endpoints@), "--split-mode"@, "layer"@]
    } else {
        Seq::empty()
    }) + if config.tensor_split@.len() > 0 {
        seq!["--tensor-split"@, joined(texts(config.tensor_split@), seq![','])]
    } else {
        Seq::empty()
    }
}

/// The arguments of a llama-bench run.
pub open spec fn bench_args(config: BenchConfig) -> Seq<Seq<char>> {
    seq![
        "--model"@,
        config.model@,
        "--output"@,
        "json"@,
        "--n-prompt"@,
        decimal(config.prompt_tokens as nat),
        "--n-gen"@,
        decimal(config.generation_tokens as nat),
        "--repetitions"@,
        decimal(at_least_one(config.repetitions)),
        "--n-gpu-layers"@,
        "all"@,
    ] + (if config.rpc_endpoints@.len() > 0 {
        seq!["--rpc"@, endpoints_text(config.rpc_endpoints@)]
    } else {
        Seq::empty()
    }) + if config.tensor_split@.len() > 0 {
        seq!["--tensor-split"@, joined(texts(config.tensor_split@), seq!['/'])]
    } else {
        Seq::empty()
    }
}

fn push_text(args: &mut Vec<String>, s: &str)
    ensures
        texts(final(args)@) == texts(old(args)@).push(s@),
{
    let ghost before = args@;
    args.push(s.to_owned());
    proof {
        assert(texts(args@) =~= texts(before).push(s@));
    }
}

fn push_string(args: &mut Vec<String>, s: String)
    ensures
        texts(final(args)@) == texts(old(args)@).push(s@),
{
    let ghost before = args@;
    args.push(s);
    proof {
        assert(texts(args@) =~= texts(before).push(s@));
    }
}

impl LlamaBinaries {
    /// The three programs, each found by the caller (a configured directory
    /// first, then `PATH`); the first one missing is the error.
    pub fn discover(server: Option<String>, rpc_server: Option<String>, bench: Option<String>) -> (r: Result<
        Self,
        LlamaError,
    >)
        ensures
            server is None ==> r == Err::<Self, LlamaError>(LlamaError::ServerMissing),
            server is Some && rpc_server is None ==> r == Err::<Self, LlamaError>(LlamaError::RpcServerMissing),
            server is Some && rpc_server is Some && bench is None ==> r == Err::<Self, LlamaError>(
                LlamaError::BenchMissing,
            ),
            server is Some && rpc_server is Some && bench is Some ==> r == Ok::<Self, LlamaError>(
                LlamaBinaries { server: server.unwrap(), rpc_server: rpc_server.unwrap(), bench: bench.unwrap() },
            ),
    {
        let server = match server {
            Some(s) => s,
            None => return Err(LlamaError::ServerMissing),
        };
        let rpc_server = match rpc_server {
            Some(s) => s,
            None => return Err(LlamaError::RpcServerMissing),
        };
        let bench = match bench {
            Some(s) => s,
            None => return Err(LlamaError::BenchMissing),
        };
        Ok(LlamaBinaries { server, rpc_server, bench })
    }

    /// An RPC worker listening on a trusted LAN address; never on an
    /// unspecified or loopback address.
    pub fn worker_process(&self, config: &WorkerConfig) -> (r: Result<ProcessSpec, LlamaError>)
        ensures
            (config.bind_address.unspecified() || config.bind_address.loopback()) ==> r == Err::<
                ProcessSpec,
                LlamaError,
            >(LlamaError::UntrustedBind),
            !(config.bind_address.unspecified() || config.bind_address.loopback()) ==> (r matches Ok(spec) && spec.kind
                == ProcessKind::RpcWorker && spec.executable@ == self.rpc_server@ && texts(spec.args@) == worker_args(
                *config,
            ) && spec.working_directory is None && spec.environment@.len() == 0),
    {
        if config.bind_address.is_unspecified() || config.bind_address.is_loopback() {
            return Err(LlamaError::UntrustedBind);
        }
        let mut args: Vec<String> = Vec::new();
        push_text(&mut args, "--host");
        push_string(&mut args, ip_text(config.bind_address));
        push_text(&mut args, "--port");
        push_string(&mut args, decimal_string(config.port as u64));
        push_text(&mut args, "--threads");
        let threads: usize = if config.threads == 0 {
            1
        } else {
            config.threads
        };
        push_string(&mut args, decimal_string(threads as u64));
        if config.enable_cache {
            push_text(&mut args, "--cache");
        }
        proof {
            assert(texts(args@) =~= worker_args(*config));
        }
        let spec = ProcessSpec::new(ProcessKind::RpcWorker, self.rpc_server.clone()).args(args);
        Ok(spec)
    }

    /// A llama-server for a checked model; with RPC endpoints it splits
    /// layers across them, with weights it sets the tensor split.
    pub fn server_process(&self, config: &ServerConfig, model_is_file: bool, style: PathStyle) -> (r: Result<ProcessSpec, LlamaError>)
        ensures
            model_check(config.model@, model_is_file, style) matches Err(e) ==> r == Err::<ProcessSpec, LlamaError>(e),
            model_check(config.model@, model_is_file, style) is Ok && config.tensor_split@.len() > 0
                && !config.tensor_split_valid ==> r == Err::<ProcessSpec, LlamaError>(LlamaError::InvalidSplit),
            model_check(config.model@, model_is_file, style) is Ok && !(config.tensor_split@.len() > 0
                && !config.tensor_split_valid) ==> (r matches Ok(spec) && spec.kind == ProcessKind::LlamaServer
                && spec.executable@ == self.server@ && texts(spec.args@) == server_args(*config)
                && spec.working_directory is None && spec.environment@.len() == 0),
    {
        match validate_model(config.model.as_str(), model_is_file, style) {
            Ok(()) => {},
            Err(e) => return Err(e),
        }
        let mut args: Vec<String> = Vec::new();
        push_text(&mut args, "--model");
        push_string(&mut args, config.model.clone());
        push_text(&mut args, "--host");
        push_string(&mut args, ip_text(config.bind_address));
        push_text(&mut args, "--port");
        push_string(&mut args, decimal_string(config.port as u64));
        push_text(&mut args, "--ctx-size");
        push_string(&mut args, decimal_string(config.context_size as u64));
        push_text(&mut args, "--n-gpu-layers");
        push_text(&mut args, "all");
        let ghost head = texts(args@);
        if config.rpc_endpoints.len() > 0 {
            push_text(&mut args, "--rpc");
            push_string(&mut args, join_endpoints(&config.rpc_endpoints));
            push_text(&mut args, "--split-mode");
            push_text(&mut args, "layer");
        }
        let ghost middle = texts(args@);
        proof {
            if config.rpc_endpoints@.len() > 0 {
                assert(middle =~= head + seq!["--rpc"@, endpoints_text(config.rpc_endpoints@), "--split-mode"@, "layer"@]);
            } else {
                assert(middle =~= head + Seq::<Seq<char>>::empty());
            }
        }
        if config.tensor_split.len() > 0 {
            if !config.tensor_split_valid {
                return Err(LlamaError::InvalidSplit);
            }
            push_text(&mut args, "--tensor-split");
            push_string(&mut args, join_texts(&config.tensor_split, ','));
        }
        proof {
            if config.tensor_split@.len() > 0 {
                assert(texts(args@) =~= middle + seq!["--tensor-split"@, joined(texts(config.tensor_split@), seq![','])]);
            } else {
                assert(texts(args@) =~= middle + Seq::<Seq<char>>::empty());
            }
            assert(texts(args@) =~= server_args(*config));
        }
        Ok(ProcessSpec::new(ProcessKind::LlamaServer, self.server.clone()).args(args))
    }

    /// A llama-bench run reporting JSON, for a checked model.
    pub fn bench_process(&self, config: &BenchConfig, model_is_file: bool, style: PathStyle) -> (r: Result<ProcessSpec, LlamaError>)
        ensures
            model_check(config.model@, model_is_file, style) matches Err(e) ==> r == Err::<ProcessSpec, LlamaError>(e),
            model_check(config.model@, model_is_file, style) is Ok && config.tensor_split@.len() > 0
                && !config.tensor_split_valid ==> r == Err::<ProcessSpec, LlamaError>(LlamaError::InvalidSplit),
            model_check(config.model@, model_is_file, style) is Ok && !(config.tensor_split@.len() > 0
                && !config.tensor_split_valid) ==> (r matches Ok(spec) && spec.kind == ProcessKind::LlamaBench
                && spec.executable@ == self.bench@ && texts(spec.args@) == bench_args(*config)
                && spec.working_directory is None && spec.environment@.len() == 0),
    {
        match validate_model(config.model.as_str(), model_is_file, style) {
            Ok(()) => {},
            Err(e) => return Err(e),
        }
        let mut args: Vec<String> = Vec::new();
        push_text(&mut args, "--model");
        push_string(&mut args, config.model.clone());
        push_text(&mut args, "--output");
        push_text(&mut args, "json");
        push_text(&mut args, "--n-prompt");
        push_string(&mut args, decimal_string(config.prompt_tokens as u64));
        push_text(&mut args, "--n-gen");
        push_string(&mut args, decimal_string(config.generation_tokens as u64));
        push_text(&mut args, "--repetitions");
        let repetitions: usize = if config.repetitions == 0 {
            1
        } else {
            config.repetitions
        };
        push_string(&mut args, decimal_string(repetitions as u64));
        push_text(&mut args, "--n-gpu-layers");
        push_text(&mut args, "all");
        let ghost head = texts(args@);
        if config.rpc_endpoints.len() > 0 {
            push_text(&mut args, "--rpc");
            push_string(&mut args, join_endpoints(&config.rpc_endpoints));
        }
        let ghost middle = texts(args@);
        proof {
            if config.rpc_endpoints@.len() > 0 {
                assert(middle =~= head + seq!["--rpc"@, endpoints_text(config.rpc_endpoints@)]);
            } else {
                assert(middle =~= head + Seq::<Seq<char>>::empty());
            }
        }
        if config.tensor_split.len() > 0 {
            if !config.tensor_split_valid {
                return Err(LlamaError::InvalidSplit);
            }
            push_text(&mut args, "--tensor-split");
            push_string(&mut args, join_texts(&config.tensor_split, '/'));
        }
        proof {
            if config.tensor_split@.len() > 0 {
                assert(texts(args@) =~= middle + seq!["--tensor-split"@, joined(texts(config.tensor_split@), seq!['/'])]);
            } else {
                assert(texts(args@) =~= middle + Seq::<Seq<char>>::empty());
            }
            assert(texts(args@) =~= bench_args(*config));
        }
        Ok(ProcessSpec::new(ProcessKind::LlamaBench, self.bench.clone()).args(args))
    }
}

/// A drive with nothing after it, such as `C:`.
pub open spec fn bare_drive(directory: Seq<char>) -> bool {
    directory.len() == 2 && directory[1] == ':' && (('a' <= directory[0] && directory[0] <= 'z') || ('A'
        <= directory[0] && directory[0] <= 'Z'))
}

/// A name that `Path::join` appends on Windows rather than letting it
/// replace the directory: it starts with no separator and no drive.
pub open spec fn windows_relative(name: Seq<char>) -> bool {
    !(name.len() > 0 && is_separator(name[0], PathStyle::Windows)) && !(name.len() >= 2 && name[1] == ':')
}

/// The separator written between joined parts.
pub open spec fn main_separator(style: PathStyle) -> char {
    match style {
        PathStyle::Unix => '/',
        PathStyle::Windows => '\\',
    }
}

/// `Path::join` of a directory and a name: an absolute name replaces a
/// Unix directory; otherwise the name follows the directory, after the
/// style's separator unless the directory is empty, ends with a separator
/// or is a bare Windows drive.
pub open spec fn join_path(directory: Seq<char>, name: Seq<char>, style: PathStyle) -> Seq<char> {
    if style == PathStyle::Unix && name.len() > 0 && name[0] == '/' {
        name
    } else if directory.len() == 0 || is_separator(directory.last(), style) || (style == PathStyle::Windows
        && bare_drive(directory)) {
        directory + name
    } else {
        directory + seq![main_separator(style)] + name
    }
}

/// Each name joined to each directory, directory by directory.
pub open spec fn joined_paths(directories: Seq<Seq<char>>, names: Seq<Seq<char>>, style: PathStyle) -> Seq<Seq<char>>
    decreases directories.len(),
{
    if directories.len() == 0 {
        Seq::empty()
    } else {
        joined_paths(directories.drop_last(), names, style) + names.map_values(
            |n: Seq<char>| join_path(directories.last(), n, style),
        )
    }
}

/// Joins a name to a directory; on Windows the name is relative.
pub fn join_path_text(directory: &str, name: &str, style: PathStyle) -> (path: String)
    requires
        style == PathStyle::Windows ==> windows_relative(name@),
    ensures
        path@ == join_path(directory@, name@, style),
{
    let d = chars_of(directory);
    let n = chars_of(name);
    if style == PathStyle::Unix && n.len() > 0 && n[0] == '/' {
        return name.to_owned();
    }
    let mut out = d;
    let drive = style == PathStyle::Windows && out.len() == 2 && out[1] == ':' && (('a' <= out[0] && out[0] <= 'z')
        || ('A' <= out[0] && out[0] <= 'Z'));
    if out.len() > 0 && !separates(out[out.len() - 1], style) && !drive {
        match style {
            PathStyle::Unix => out.push('/'),
            PathStyle::Windows => out.push('\\'),
        }
    }
    append_chars(&mut out, &n);
    string_from_chars(&out)
}

/// Where each program is looked for, in order: each candidate name in the
/// configured directory, then each candidate name in each `PATH` directory.
pub fn candidate_paths(directory: Option<&str>, path_directories: &Vec<String>, names: &Vec<String>, style: PathStyle) -> (paths: Vec<
    String,
>)
    requires
        style == PathStyle::Windows ==> forall|k: int| 0 <= k < names@.len() ==> windows_relative(#[trigger] names@[k]@),
    ensures
        texts(paths@) == match directory {
            Some(d) => joined_paths(seq![d@], texts(names@), style),
            None => Seq::empty(),
        } + joined_paths(texts(path_directories@), texts(names@), style),
{
    let mut paths: Vec<String> = Vec::new();
    let ghost names_text = texts(names@);
    match directory {
        Some(d) => {
            for k in 0..names.len()
                invariant
                    names_text == texts(names@),
                    style == PathStyle::Windows ==> forall|m: int| 0 <= m < names@.len() ==> windows_relative(#[trigger] names@[m]@),
                    texts(paths@) == names_text.take(k as int).map_values(|n: Seq<char>| join_path(d@, n, style)),
            {
                push_string(&mut paths, join_path_text(d, names[k].as_str(), style));
                proof {
                    assert(names_text.take(k + 1) =~= names_text.take(k as int).push(names_text[k as int]));
                    assert(texts(paths@) =~= names_text.take(k + 1).map_values(|n: Seq<char>| join_path(d@, n, style)));
                }
            }
            proof {
                assert(names_text.take(names@.len() as int) =~= names_text);
                let one = seq![d@];
                assert(one.drop_last() =~= Seq::<Seq<char>>::empty());
                assert(one.last() == d@);
                assert(joined_paths(one.drop_last(), names_text, style) =~= Seq::<Seq<char>>::empty());
                assert(joined_paths(one, names_text, style) =~= Seq::<Seq<char>>::empty() + names_text.map_values(
                    |n: Seq<char>| join_path(d@, n, style),
                ));
                assert(texts(paths@) =~= joined_paths(one, names_text, style));
            }
        },
        None => {},
    }
    let ghost first = texts(paths@);
    let ghost dirs = texts(path_directories@);
    for i in 0..path_directories.len()
        invariant
            names_text == texts(names@),
            dirs == texts(path_directories@),
            style == PathStyle::Windows ==> forall|m: int| 0 <= m < names@.len() ==> windows_relative(#[trigger] names@[m]@),
            texts(paths@) == first + joined_paths(dirs.take(i as int), names_text, style),
    {
        let ghost before = texts(paths@);
        for k in 0..names.len()
            invariant
                names_text == texts(names@),
                dirs == texts(path_directories@),
                style == PathStyle::Windows ==> forall|m: int| 0 <= m < names@.len() ==> windows_relative(#[trigger] names@[m]@),
                i < dirs.len(),
                texts(paths@) == before + names_text.take(k as int).map_values(
                    |n: Seq<char>| join_path(dirs[i as int], n, style),
                ),
        {
            push_string(&mut paths, join_path_text(path_directories[i].as_str(), names[k].as_str(), style));
            proof {
                assert(names_text.take(k + 1) =~= names_text.take(k as int).push(names_text[k as int]));
                assert(texts(paths@) =~= before + names_text.take(k + 1).map_values(
                    |n: Seq<char>| join_path(dirs[i as int], n, style),
                ));
            }
        }
        proof {
            assert(names_text.take(names@.len() as int) =~= names_text);
            assert(dirs.take(i + 1).drop_last() =~= dirs.take(i as int));
            assert(texts(paths@) =~= first + joined_paths(dirs.take(i + 1), names_text, style));
        }
    }
    proof {
        assert(dirs.take(path_directories@.len() as int) =~= dirs);
    }
    paths
}

} // verus!
