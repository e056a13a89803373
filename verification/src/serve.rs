//! The command line of the server.
use vstd::prelude::*;

use crate::number::{at_most, natural, parse_natural};
use crate::request::optional_view;
use crate::text::same_text;
use crate::tokenizer::string_views;
use crate::types::{Backend, EngineOptions, MTP_MARGIN_DEFAULT};

verus! {

pub const DEFAULT_PORT: u16 = 8080;

pub const DEFAULT_HOST: &'static str = "127.0.0.1";

pub const DEFAULT_CTX: u32 = 32768;

pub const DEFAULT_CACHE_ENTRIES: u32 = 100;

/// The settings of the server.
#[derive(Debug)]
pub struct ServerConfig {
    pub model_path: String,
    pub ctx_size: u32,
    pub host: String,
    pub port: u16,
    pub backend: Backend,
    pub n_threads: u32,
    pub quality: bool,
    pub disk_cache_dir: Option<String>,
    pub max_disk_cache_entries: u32,
}

/// The mathematical form of the settings.
pub struct ServerView {
    pub model_path: Seq<char>,
    pub ctx_size: u32,
    pub host: Seq<char>,
    pub port: u16,
    pub backend: Backend,
    pub n_threads: u32,
    pub quality: bool,
    pub disk_cache_dir: Option<Seq<char>>,
    pub max_disk_cache_entries: u32,
}

impl View for ServerConfig {
    type V = ServerView;

    open spec fn view(&self) -> ServerView {
        ServerView {
            model_path: self.model_path@,
            ctx_size: self.ctx_size,
            host: self.host@,
            port: self.port,
            backend: self.backend,
            n_threads: self.n_threads,
            quality: self.quality,
            disk_cache_dir: optional_view(self.disk_cache_dir),
            max_disk_cache_entries: self.max_disk_cache_entries,
        }
    }
}

/// The settings where none is given.
pub open spec fn default_server() -> ServerView {
    ServerView {
        model_path: "ds4flash.gguf"@,
        ctx_size: DEFAULT_CTX,
        host: DEFAULT_HOST@,
        port: DEFAULT_PORT,
        backend: Backend::Metal,
        n_threads: 0,
        quality: false,
        disk_cache_dir: None,
        max_disk_cache_entries: DEFAULT_CACHE_ENTRIES,
    }
}

impl Default for ServerConfig {
    fn default() -> (r: Self)
        ensures
            r@ == default_server(),
    {
        ServerConfig {
            model_path: String::from_str("ds4flash.gguf"),
            ctx_size: DEFAULT_CTX,
            host: String::from_str(DEFAULT_HOST),
            port: DEFAULT_PORT,
            backend: Backend::Metal,
            n_threads: 0,
            quality: false,
            disk_cache_dir: None,
            max_disk_cache_entries: DEFAULT_CACHE_ENTRIES,
        }
    }
}

/// The number that a text denotes, or another where it denotes none that fits.
pub open spec fn number_or(s: Seq<char>, max: int, other: int) -> int {
    match at_most(natural(s, 10), max) {
        Some(n) => n,
        None => other,
    }
}

/// The options of the server that have a value behind them.
pub open spec fn server_takes_value(s: Seq<char>) -> bool {
    s == "-m"@ || s == "--model"@ || s == "-c"@ || s == "--ctx"@ || s == "--host"@ || s
        == "--port"@ || s == "-t"@ || s == "--threads"@ || s == "--disk-cache"@ || s
        == "--max-disk-cache"@
}

/// The settings with an option and its value.
pub open spec fn server_with_value(c: ServerView, o: Seq<char>, v: Seq<char>) -> ServerView {
    if o == "-m"@ || o == "--model"@ {
        ServerView { model_path: v, ..c }
    } else if o == "-c"@ || o == "--ctx"@ {
        ServerView {
            ctx_size: number_or(v, u32::MAX as int, DEFAULT_CTX as int) as u32,
            ..c
        }
    } else if o == "--host"@ {
        ServerView { host: v, ..c }
    } else if o == "--port"@ {
        ServerView { port: number_or(v, u16::MAX as int, DEFAULT_PORT as int) as u16, ..c }
    } else if o == "-t"@ || o == "--threads"@ {
        ServerView { n_threads: number_or(v, u32::MAX as int, 0) as u32, ..c }
    } else if o == "--disk-cache"@ {
        ServerView { disk_cache_dir: Some(v), ..c }
    } else {
        ServerView {
            max_disk_cache_entries: number_or(
                v,
                u32::MAX as int,
                DEFAULT_CACHE_ENTRIES as int,
            ) as u32,
            ..c
        }
    }
}

/// The settings with an option that stands alone; any other argument is passed over.
pub open spec fn server_with_flag(c: ServerView, o: Seq<char>) -> ServerView {
    if o == "--metal"@ {
        ServerView { backend: Backend::Metal, ..c }
    } else if o == "--cpu"@ {
        ServerView { backend: Backend::Cpu, ..c }
    } else if o == "--quality"@ {
        ServerView { quality: true, ..c }
    } else {
        c
    }
}

/// The settings of the command line from argument `i` on, or none where the help text is
/// asked for. An option whose value is missing is passed over.
pub open spec fn server_settings(args: Seq<Seq<char>>, i: int, c: ServerView) -> Option<ServerView>
    decreases args.len() - i,
{
    if i < 0 || i >= args.len() {
        Some(c)
    } else if args[i] == "-h"@ || args[i] == "--help"@ {
        None
    } else if server_takes_value(args[i]) {
        if i + 1 < args.len() {
            server_settings(args, i + 2, server_with_value(c, args[i], args[i + 1]))
        } else {
            Some(c)
        }
    } else {
        server_settings(args, i + 1, server_with_flag(c, args[i]))
    }
}

fn parse_or(s: &str, max: u64, other: u64) -> (r: u64)
    requires
        other <= max,
    ensures
        r == number_or(s@, max as int, other as int),
        r <= max,
{
    match parse_natural(s, 10, max) {
        Some(n) => n,
        None => other,
    }
}

fn is_value_option(s: &str) -> (r: bool)
    ensures
        r == server_takes_value(s@),
{
    same_text(s, "-m") || same_text(s, "--model") || same_text(s, "-c") || same_text(s, "--ctx")
        || same_text(s, "--host") || same_text(s, "--port") || same_text(s, "-t") || same_text(
        s,
        "--threads",
    ) || same_text(s, "--disk-cache") || same_text(s, "--max-disk-cache")
}

fn set_server_value(c: ServerConfig, o: &str, v: &String) -> (r: ServerConfig)
    ensures
        r@ == server_with_value(c@, o@, v@),
{
    let text = v.as_str();
    if same_text(o, "-m") || same_text(o, "--model") {
        return ServerConfig { model_path: v.clone(), ..c };
    }
    if same_text(o, "-c") || same_text(o, "--ctx") {
        let n: u64 = parse_or(text, u32::MAX as u64, DEFAULT_CTX as u64);
        return ServerConfig { ctx_size: n as u32, ..c };
    }
    if same_text(o, "--host") {
        return ServerConfig { host: v.clone(), ..c };
    }
    if same_text(o, "--port") {
        let n: u64 = parse_or(text, u16::MAX as u64, DEFAULT_PORT as u64);
        return ServerConfig { port: n as u16, ..c };
    }
    if same_text(o, "-t") || same_text(o, "--threads") {
        let n: u64 = parse_or(text, u32::MAX as u64, 0);
        return ServerConfig { n_threads: n as u32, ..c };
    }
    if same_text(o, "--disk-cache") {
        return ServerConfig { disk_cache_dir: Some(v.clone()), ..c };
    }
    let n: u64 = parse_or(text, u32::MAX as u64, DEFAULT_CACHE_ENTRIES as u64);
    ServerConfig { max_disk_cache_entries: n as u32, ..c }
}

fn set_server_flag(c: ServerConfig, o: &str) -> (r: ServerConfig)
    ensures
        r@ == server_with_flag(c@, o@),
{
    if same_text(o, "--metal") {
        return ServerConfig { backend: Backend::Metal, ..c };
    }
    if same_text(o, "--cpu") {
        return ServerConfig { backend: Backend::Cpu, ..c };
    }
    if same_text(o, "--quality") {
        return ServerConfig { quality: true, ..c };
    }
    c
}

/// The settings of the command line, whose first argument is the program's name; none
/// where the help text is asked for.
pub fn parse_args(args: &Vec<String>) -> (r: Option<ServerConfig>)
    ensures
        match r {
            Some(c) => server_settings(string_views(args@), 1, default_server()) == Some(c@),
            None => server_settings(string_views(args@), 1, default_server()) is None,
        },
{
    let ghost views = string_views(args@);
    let n: usize = args.len();
    let mut cfg = ServerConfig::default();
    let mut i: usize = 1;
    while i < n
        invariant
            n == args@.len(),
            views == string_views(args@),
            server_settings(views, 1, default_server()) == server_settings(views, i as int, cfg@),
        decreases n - i,
    {
        assert(views[i as int] == args@[i as int]@);
        let arg = args[i].as_str();
        if same_text(arg, "-h") || same_text(arg, "--help") {
            return None;
        }
        if is_value_option(arg) {
            if n - i <= 1 {
                return Some(cfg);
            }
            assert(views[i + 1] == args@[i + 1]@);
            cfg = set_server_value(cfg, arg, &args[i + 1]);
            i = i + 2;
        } else {
            cfg = set_server_flag(cfg, arg);
            i = i + 1;
        }
    }
    Some(cfg)
}

/// The engine's settings of a server.
pub fn server_engine_options(c: &ServerConfig) -> (r: EngineOptions)
    ensures
        r.model_path@ == c@.model_path,
        r.mtp_path is None,
        r.backend == c@.backend,
        r.n_threads == c@.n_threads,
        r.mtp_draft_tokens == 1,
        r.mtp_margin == MTP_MARGIN_DEFAULT,
        !r.warm_weights,
        r.quality == c@.quality,
{
    EngineOptions {
        model_path: c.model_path.clone(),
        mtp_path: None,
        backend: c.backend,
        n_threads: c.n_threads,
        mtp_draft_tokens: 1,
        mtp_margin: MTP_MARGIN_DEFAULT,
        warm_weights: false,
        quality: c.quality,
    }
}

} // verus!
