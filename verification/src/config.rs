//! Application configuration: defaults, environment overrides, command-line
//! arguments and their validation.

use vstd::prelude::*;

use crate::text::{
    chars_of, decimal, decimal_chars, eq_chars, opt_str, owned, parse_uint, parse_uint_chars,
    push_all, push_str, str_views, string_of,
};

verus! {

pub const DEFAULT_PORT: u16 = 9100;

pub const DEFAULT_LOG_BUFFER: usize = 1000;

#[derive(Debug)]
pub struct AppConfig {
    pub port: u16,
    pub project_dir: String,
    pub demo: bool,
    pub regenerate_token: bool,
    pub log_level: String,
    pub log_buffer_size: usize,
}

pub ghost struct AppConfigV {
    pub port: u16,
    pub project_dir: Seq<char>,
    pub demo: bool,
    pub regenerate_token: bool,
    pub log_level: Seq<char>,
    pub log_buffer_size: usize,
}

impl View for AppConfig {
    type V = AppConfigV;

    open spec fn view(&self) -> AppConfigV {
        AppConfigV {
            port: self.port,
            project_dir: self.project_dir@,
            demo: self.demo,
            regenerate_token: self.regenerate_token,
            log_level: self.log_level@,
            log_buffer_size: self.log_buffer_size,
        }
    }
}

pub open spec fn default_config() -> AppConfigV {
    AppConfigV {
        port: 9100,
        project_dir: "."@,
        demo: false,
        regenerate_token: false,
        log_level: "info"@,
        log_buffer_size: 1000,
    }
}

impl Default for AppConfig {
    fn default() -> (r: Self)
        ensures
            r@ == default_config(),
    {
        AppConfig {
            port: DEFAULT_PORT,
            project_dir: owned("."),
            demo: false,
            regenerate_token: false,
            log_level: owned("info"),
            log_buffer_size: DEFAULT_LOG_BUFFER,
        }
    }
}

impl Clone for AppConfig {
    fn clone(&self) -> (r: Self)
        ensures
            r@ == self@,
    {
        AppConfig {
            port: self.port,
            project_dir: self.project_dir.clone(),
            demo: self.demo,
            regenerate_token: self.regenerate_token,
            log_level: self.log_level.clone(),
            log_buffer_size: self.log_buffer_size,
        }
    }
}

/// A configuration that cannot be used: where it came from (an argument
/// or an environment variable) and what is wrong with it.
#[derive(Debug, Clone, PartialEq, Eq)]
pub struct ConfigError {
    pub path: String,
    pub detail: String,
}

pub ghost struct ConfigErrorV {
    pub path: Seq<char>,
    pub detail: Seq<char>,
}

impl View for ConfigError {
    type V = ConfigErrorV;

    open spec fn view(&self) -> ConfigErrorV {
        ConfigErrorV { path: self.path@, detail: self.detail@ }
    }
}

/// The environment variables the configuration reads, as found at start-up.
#[derive(Debug, Clone)]
pub struct ConfigEnv {
    /// `DEVFLOW_TUI_PORT`
    pub port: Option<String>,
    /// `DEVFLOW_TUI_LOG`
    pub log: Option<String>,
    /// `DEVFLOW_TUI_LOG_BUFFER`
    pub log_buffer: Option<String>,
}

/// Why a configuration is rejected, if it is.
pub open spec fn validate_spec(c: AppConfigV) -> Option<ConfigErrorV> {
    if c.port == 0 || c.port < 1024 {
        Some(
            ConfigErrorV {
                path: "--port"@,
                detail: "port must be 1024-65535, got "@ + decimal(c.port as nat),
            },
        )
    } else if c.log_buffer_size == 0 {
        Some(
            ConfigErrorV { path: "DEVFLOW_TUI_LOG_BUFFER"@, detail: "log buffer size must be > 0"@ },
        )
    } else {
        None
    }
}

/// `Path::join` of a relative component onto a path, with `/` separators.
pub open spec fn path_join(base: Seq<char>, name: Seq<char>) -> Seq<char> {
    if base.len() == 0 {
        name
    } else if base.last() == '/' {
        base + name
    } else {
        base + seq!['/'] + name
    }
}

/// The state of argument processing: the configuration so far, or the error
/// that stopped it.
pub open spec fn args_step(c: AppConfigV, args: Seq<Seq<char>>, i: int) -> (Result<AppConfigV, ConfigErrorV>, int) {
    let a = args[i];
    if a == "--port"@ {
        if i + 1 >= args.len() {
            (Err(ConfigErrorV { path: "--port"@, detail: "missing value"@ }), i + 2)
        } else {
            match parse_uint(args[i + 1], u16::MAX as nat) {
                Some(p) => (Ok(AppConfigV { port: p as u16, ..c }), i + 2),
                None => (
                    Err(ConfigErrorV { path: "--port"@, detail: "invalid port: "@ + args[i + 1] }),
                    i + 2,
                ),
            }
        }
    } else if a == "--project-dir"@ {
        if i + 1 >= args.len() {
            (Err(ConfigErrorV { path: "--project-dir"@, detail: "missing value"@ }), i + 2)
        } else {
            (Ok(AppConfigV { project_dir: args[i + 1], ..c }), i + 2)
        }
    } else if a == "--demo"@ {
        (Ok(AppConfigV { demo: true, ..c }), i + 1)
    } else if a == "--regenerate-token"@ {
        (Ok(AppConfigV { regenerate_token: true, ..c }), i + 1)
    } else {
        (Ok(c), i + 1)
    }
}

/// The arguments from position `i` on, applied to `c`.
pub open spec fn apply_args(c: AppConfigV, args: Seq<Seq<char>>, i: int) -> Result<AppConfigV, ConfigErrorV>
    decreases args.len() - i,
{
    if i < 1 || i >= args.len() {
        Ok(c)
    } else {
        match args_step(c, args, i) {
            (Ok(c2), j) => apply_args(c2, args, j),
            (Err(e), _) => Err(e),
        }
    }
}

/// The environment overrides applied to the defaults.
pub open spec fn env_config(port: Option<Seq<char>>, log: Option<Seq<char>>, buf: Option<Seq<char>>) -> Result<AppConfigV, ConfigErrorV> {
    let d = default_config();
    let r1 = match port {
        None => Ok(d),
        Some(p) => match parse_uint(p, u16::MAX as nat) {
            Some(v) => Ok(AppConfigV { port: v as u16, ..d }),
            None => Err(ConfigErrorV { path: "DEVFLOW_TUI_PORT"@, detail: "invalid port: "@ + p }),
        },
    };
    match r1 {
        Err(e) => Err(e),
        Ok(c1) => {
            let c2 = match log {
                Some(l) => AppConfigV { log_level: l, ..c1 },
                None => c1,
            };
            match buf {
                None => Ok(c2),
                Some(b) => match parse_uint(b, usize::MAX as nat) {
                    Some(v) => Ok(AppConfigV { log_buffer_size: v as usize, ..c2 }),
                    None => Err(
                        ConfigErrorV {
                            path: "DEVFLOW_TUI_LOG_BUFFER"@,
                            detail: "invalid buffer size: "@ + b,
                        },
                    ),
                },
            }
        },
    }
}

/// The configuration for an argument list (the program name first) and
/// environment: defaults, then environment overrides, then arguments
/// (unknown ones ignored), then validation.
pub open spec fn from_args_spec(
    args: Seq<Seq<char>>,
    port: Option<Seq<char>>,
    log: Option<Seq<char>>,
    buf: Option<Seq<char>>,
) -> Result<AppConfigV, ConfigErrorV> {
    match env_config(port, log, buf) {
        Err(e) => Err(e),
        Ok(c) => match apply_args(c, args, 1) {
            Err(e) => Err(e),
            Ok(c2) => match validate_spec(c2) {
                Some(e) => Err(e),
                None => Ok(c2),
            },
        },
    }
}

fn config_error(path: &str, detail: Vec<char>) -> (r: ConfigError)
    ensures
        r@ == (ConfigErrorV { path: path@, detail: detail@ }),
{
    ConfigError { path: owned(path), detail: string_of(&detail) }
}

fn prefixed(prefix: &str, s: &str) -> (r: Vec<char>)
    ensures
        r@ == prefix@ + s@,
{
    let mut v = chars_of(prefix);
    push_str(&mut v, s);
    v
}

impl AppConfig {
    /// Build the configuration from the command line (program name first)
    /// and the environment.
    pub fn from_args(args: &Vec<String>, env: &ConfigEnv) -> (r: Result<AppConfig, ConfigError>)
        ensures
            match r {
                Ok(c) => from_args_spec(
                    str_views(args@),
                    opt_str(env.port),
                    opt_str(env.log),
                    opt_str(env.log_buffer),
                ) == Ok::<AppConfigV, ConfigErrorV>(c@),
                Err(e) => from_args_spec(
                    str_views(args@),
                    opt_str(env.port),
                    opt_str(env.log),
                    opt_str(env.log_buffer),
                ) == Err::<AppConfigV, ConfigErrorV>(e@),
            },
    {
        let ghost av = str_views(args@);
        let mut config = AppConfig::default();
        if let Some(p) = &env.port {
            match parse_uint_chars(&chars_of(p.as_str()), 0xffff) {
                Some(v) => {
                    config.port = v as u16;
                },
                None => {
                    return Err(config_error("DEVFLOW_TUI_PORT", prefixed("invalid port: ", p.as_str())));
                },
            }
        }
        if let Some(l) = &env.log {
            config.log_level = l.clone();
        }
        if let Some(b) = &env.log_buffer {
            match parse_uint_chars(&chars_of(b.as_str()), usize::MAX as u64) {
                Some(v) => {
                    config.log_buffer_size = v as usize;
                },
                None => {
                    return Err(
                        config_error("DEVFLOW_TUI_LOG_BUFFER", prefixed("invalid buffer size: ", b.as_str())),
                    );
                },
            }
        }
        let ghost c0 = config@;
        assert(env_config(
            opt_str(env.port),
            opt_str(env.log),
            opt_str(env.log_buffer),
        ) == Ok::<AppConfigV, ConfigErrorV>(c0));
        let mut i: usize = 1;
        while i < args.len()
            invariant
                1 <= i,
                av == str_views(args@),
                apply_args(config@, av, i as int) == apply_args(c0, av, 1),
                env_config(
                    opt_str(env.port),
                    opt_str(env.log),
                    opt_str(env.log_buffer),
                ) == Ok::<AppConfigV, ConfigErrorV>(c0),
            decreases args.len() - i,
        {
            let a = chars_of(args[i].as_str());
            proof {
                assert(av[i as int] == a@);
            }
            if eq_chars(&a, &chars_of("--port")) {
                if i + 1 >= args.len() {
                    return Err(config_error("--port", chars_of("missing value")));
                }
                let val = &args[i + 1];
                proof {
                    assert(av[i + 1] == val@);
                }
                match parse_uint_chars(&chars_of(val.as_str()), 0xffff) {
                    Some(v) => {
                        config.port = v as u16;
                    },
                    None => {
                        return Err(config_error("--port", prefixed("invalid port: ", val.as_str())));
                    },
                }
                i = i + 2;
            } else if eq_chars(&a, &chars_of("--project-dir")) {
                if i + 1 >= args.len() {
                    return Err(config_error("--project-dir", chars_of("missing value")));
                }
                proof {
                    assert(av[i + 1] == args@[i + 1]@);
                }
                config.project_dir = args[i + 1].clone();
                i = i + 2;
            } else if eq_chars(&a, &chars_of("--demo")) {
                config.demo = true;
                i = i + 1;
            } else if eq_chars(&a, &chars_of("--regenerate-token")) {
                config.regenerate_token = true;
                i = i + 1;
            } else {
                i = i + 1;
            }
        }
        match config.validate() {
            Ok(()) => Ok(config),
            Err(e) => Err(e),
        }
    }

    /// Reject a port below 1024 and an empty log buffer.
    pub fn validate(&self) -> (r: Result<(), ConfigError>)
        ensures
            match r {
                Ok(()) => validate_spec(self@) is None,
                Err(e) => validate_spec(self@) == Some(e@),
            },
    {
        if self.port == 0 || self.port < 1024 {
            let mut d = chars_of("port must be 1024-65535, got ");
            let n = decimal_chars(self.port as u64);
            push_all(&mut d, &n);
            return Err(config_error("--port", d));
        }
        if self.log_buffer_size == 0 {
            return Err(config_error("DEVFLOW_TUI_LOG_BUFFER", chars_of("log buffer size must be > 0")));
        }
        Ok(())
    }

    /// The `devflow-docs` directory of the project.
    pub fn devflow_docs_dir(&self) -> (r: String)
        ensures
            r@ == path_join(self.project_dir@, "devflow-docs"@),
    {
        let mut v = chars_of(self.project_dir.as_str());
        if v.len() > 0 && v[v.len() - 1] != '/' {
            v.push('/');
        }
        push_str(&mut v, "devflow-docs");
        string_of(&v)
    }
}

/// A `--port` on the command line wins over whatever port the environment
/// gave: with `--port v` as the only argument, the port is `v` when it is a
/// port number, and the error names `--port` when it is not.
pub proof fn lemma_cli_port_overrides_env(c: AppConfigV, prog: Seq<char>, v: Seq<char>)
    ensures
        apply_args(c, seq![prog, "--port"@, v], 1) == match parse_uint(v, u16::MAX as nat) {
            Some(n) => Ok::<AppConfigV, ConfigErrorV>(AppConfigV { port: n as u16, ..c }),
            None => Err(ConfigErrorV { path: "--port"@, detail: "invalid port: "@ + v }),
        },
{
    let args = seq![prog, "--port"@, v];
    assert(args[1] == "--port"@);
    assert(args[2] == v);
    match parse_uint(v, u16::MAX as nat) {
        Some(n) => {
            let c2 = AppConfigV { port: n as u16, ..c };
            assert(args_step(c, args, 1) == (Ok::<AppConfigV, ConfigErrorV>(c2), 3int));
            assert(apply_args(c2, args, 3) == Ok::<AppConfigV, ConfigErrorV>(c2));
        },
        None => {},
    }
}

} // verus!
