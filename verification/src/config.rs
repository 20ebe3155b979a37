//! The client's settings: the command line, the YAML configuration file, the built-in
//! defaults, and how they combine (the command line over the file over the defaults).
use vstd::prelude::*;

use vstd::string::StringExecFns;

verus! {

broadcast use vstd::string::group_string_axioms;

/// What the client is asked to do.
#[derive(Debug, Clone, Copy, PartialEq, Eq, Structural)]
pub enum Command {
    /// An interactive conversation.
    Chat,
}

/// The command line: an optional configuration file and the settings given on it.
#[derive(Debug)]
pub struct Cli {
    pub config: Option<String>,
    pub ip: Option<String>,
    pub port: Option<u16>,
    pub model: Option<String>,
    pub timeout: Option<u64>,
    pub command: Option<Command>,
}

/// The configuration file, where each setting may be missing.
#[derive(Debug)]
pub struct FileConfig {
    pub ip: Option<String>,
    pub port: Option<u16>,
    pub model: Option<String>,
    pub system: Option<String>,
    pub timeout: Option<u64>,
    pub stream: Option<bool>,
}

/// The settings the client runs with.
#[derive(Debug)]
pub struct AppConfig {
    pub ip: String,
    pub port: u16,
    pub model: String,
    pub system: Option<String>,
    pub timeout: u64,
    pub stream: bool,
}

/// The text of an optional string.
pub open spec fn opt_text(s: Option<String>) -> Option<Seq<char>> {
    match s {
        Some(t) => Some(t@),
        None => None,
    }
}

/// The settings given on a command line.
pub struct CliView {
    pub config: Option<Seq<char>>,
    pub ip: Option<Seq<char>>,
    pub port: Option<u16>,
    pub model: Option<Seq<char>>,
    pub timeout: Option<u64>,
    pub command: Option<Command>,
}

/// The settings of a configuration file.
pub struct FileConfigView {
    pub ip: Option<Seq<char>>,
    pub port: Option<u16>,
    pub model: Option<Seq<char>>,
    pub system: Option<Seq<char>>,
    pub timeout: Option<u64>,
    pub stream: Option<bool>,
}

/// The settings the client runs with.
pub struct AppConfigView {
    pub ip: Seq<char>,
    pub port: u16,
    pub model: Seq<char>,
    pub system: Option<Seq<char>>,
    pub timeout: u64,
    pub stream: bool,
}

impl View for Cli {
    type V = CliView;

    open spec fn view(&self) -> CliView {
        CliView {
            config: opt_text(self.config),
            ip: opt_text(self.ip),
            port: self.port,
            model: opt_text(self.model),
            timeout: self.timeout,
            command: self.command,
        }
    }
}

impl View for FileConfig {
    type V = FileConfigView;

    open spec fn view(&self) -> FileConfigView {
        FileConfigView {
            ip: opt_text(self.ip),
            port: self.port,
            model: opt_text(self.model),
            system: opt_text(self.system),
            timeout: self.timeout,
            stream: self.stream,
        }
    }
}

impl View for AppConfig {
    type V = AppConfigView;

    open spec fn view(&self) -> AppConfigView {
        AppConfigView {
            ip: self.ip@,
            port: self.port,
            model: self.model@,
            system: opt_text(self.system),
            timeout: self.timeout,
            stream: self.stream,
        }
    }
}

/// The server address used when none is configured.
pub open spec fn default_ip() -> Seq<char> {
    "127.0.0.1"@
}

/// The server port used when none is configured.
pub open spec fn default_port() -> u16 {
    8031
}

/// The model used when none is configured.
pub open spec fn default_model() -> Seq<char> {
    "Qwen2.5-0.5B-Instruct"@
}

/// The request timeout, in seconds, used when none is configured.
pub open spec fn default_timeout() -> u64 {
    300
}

/// Whether replies are streamed when nothing is configured.
pub open spec fn default_stream() -> bool {
    false
}

/// The built-in settings: every setting but the system prompt, which has no default.
pub open spec fn default_settings() -> FileConfigView {
    FileConfigView {
        ip: Some(default_ip()),
        port: Some(default_port()),
        model: Some(default_model()),
        system: None,
        timeout: Some(default_timeout()),
        stream: Some(default_stream()),
    }
}

/// A configuration file that sets nothing.
pub open spec fn no_settings() -> FileConfigView {
    FileConfigView { ip: None, port: None, model: None, system: None, timeout: None, stream: None }
}

/// `value` where it is given, else `fallback`.
pub open spec fn either<T>(value: Option<T>, fallback: Option<T>) -> Option<T> {
    match value {
        Some(v) => Some(v),
        None => fallback,
    }
}

/// `f` with each missing setting taken from the defaults.
pub open spec fn filled(f: FileConfigView) -> FileConfigView {
    let d = default_settings();
    FileConfigView {
        ip: either(f.ip, d.ip),
        port: either(f.port, d.port),
        model: either(f.model, d.model),
        system: either(f.system, d.system),
        timeout: either(f.timeout, d.timeout),
        stream: either(f.stream, d.stream),
    }
}

/// `f` with each setting that the command line gives replaced by it.
pub open spec fn overridden(f: FileConfigView, cli: CliView) -> FileConfigView {
    FileConfigView {
        ip: either(cli.ip, f.ip),
        port: either(cli.port, f.port),
        model: either(cli.model, f.model),
        system: f.system,
        timeout: either(cli.timeout, f.timeout),
        stream: f.stream,
    }
}

/// The settings the client runs with under the configuration `f`: each setting of `f`,
/// or its default where `f` has none.
pub open spec fn settled(f: FileConfigView) -> AppConfigView {
    AppConfigView {
        ip: match f.ip {
            Some(v) => v,
            None => default_ip(),
        },
        port: match f.port {
            Some(v) => v,
            None => default_port(),
        },
        model: match f.model {
            Some(v) => v,
            None => default_model(),
        },
        system: f.system,
        timeout: match f.timeout {
            Some(v) => v,
            None => default_timeout(),
        },
        stream: match f.stream {
            Some(v) => v,
            None => default_stream(),
        },
    }
}

/// Whether the command line changes any setting.
pub open spec fn has_overrides(cli: CliView) -> bool {
    cli.ip is Some || cli.port is Some || cli.model is Some || cli.timeout is Some
}

/// A copy of an optional string.
fn copy_text(s: &Option<String>) -> (r: Option<String>)
    ensures
        opt_text(r) == opt_text(*s),
{
    match s {
        Some(t) => Some(t.clone()),
        None => None,
    }
}

impl Default for FileConfig {
    /// A configuration file that sets nothing.
    fn default() -> (r: FileConfig)
        ensures
            r@ == no_settings(),
            (r.ip is None && r.port is None && r.model is None),
            (r.system is None && r.timeout is None && r.stream is None),
    {
        FileConfig { ip: None, port: None, model: None, system: None, timeout: None, stream: None }
    }
}

impl FileConfig {
    /// The built-in settings.
    pub fn defaults() -> (r: FileConfig)
        ensures
            r@ == default_settings(),
    {
        FileConfig {
            ip: Some(String::from_str("127.0.0.1")),
            port: Some(8031),
            model: Some(String::from_str("Qwen2.5-0.5B-Instruct")),
            system: None,
            timeout: Some(300),
            stream: Some(false),
        }
    }

    /// A copy of this configuration.
    pub fn copied(&self) -> (r: FileConfig)
        ensures
            r@ == self@,
    {
        FileConfig {
            ip: copy_text(&self.ip),
            port: self.port,
            model: copy_text(&self.model),
            system: copy_text(&self.system),
            timeout: self.timeout,
            stream: self.stream,
        }
    }

    /// Takes each missing setting from the defaults.
    pub fn fill_defaults(&mut self)
        ensures
            final(self)@ == filled(old(self)@),
    {
        let defaults = Self::defaults();
        if self.ip.is_none() {
            self.ip = defaults.ip;
        }
        if self.port.is_none() {
            self.port = defaults.port;
        }
        if self.model.is_none() {
            self.model = defaults.model;
        }
        if self.system.is_none() {
            self.system = defaults.system;
        }
        if self.timeout.is_none() {
            self.timeout = defaults.timeout;
        }
        if self.stream.is_none() {
            self.stream = defaults.stream;
        }
    }

    /// Replaces each setting that the command line gives.
    pub fn apply_cli(&mut self, cli: &Cli)
        ensures
            final(self)@ == overridden(old(self)@, cli@),
    {
        if let Some(ip) = &cli.ip {
            self.ip = Some(ip.clone());
        }
        if let Some(port) = cli.port {
            self.port = Some(port);
        }
        if let Some(model) = &cli.model {
            self.model = Some(model.clone());
        }
        if let Some(timeout) = cli.timeout {
            self.timeout = Some(timeout);
        }
    }

    /// The settings to run with: this configuration, with the defaults where it has none.
    pub fn into_app_config(self) -> (r: AppConfig)
        ensures
            r@ == settled(self@),
    {
        let mut filled = self;
        filled.fill_defaults();
        AppConfig {
            ip: filled.ip.unwrap(),
            port: filled.port.unwrap(),
            model: filled.model.unwrap(),
            system: filled.system,
            timeout: filled.timeout.unwrap(),
            stream: filled.stream.unwrap(),
        }
    }
}

impl Cli {
    /// Whether the command line changes any setting.
    pub fn has_runtime_overrides(&self) -> (r: bool)
        ensures
            r == has_overrides(self@),
    {
        self.ip.is_some() || self.port.is_some() || self.model.is_some() || self.timeout.is_some()
    }
}

impl AppConfig {
    /// The settings to run with, given the command line and what the configuration file
    /// holds: each from the command line where it gives one, else from the file, else
    /// the default.
    pub fn from_cli(cli: &Cli, file_config: FileConfig) -> (r: AppConfig)
        ensures
            r@ == settled(overridden(file_config@, cli@)),
    {
        let mut config = file_config;
        config.apply_cli(cli);
        config.into_app_config()
    }
}

/// The outcome of reading the configuration: the settings to run with and, where the
/// configuration file has to be written, what to write to it.
#[derive(Debug)]
pub struct LoadedConfig {
    pub config: AppConfig,
    pub save: Option<FileConfig>,
}

/// The configuration file's settings, where there is a file.
pub open spec fn file_settings(existing: Option<FileConfig>) -> FileConfigView {
    match existing {
        Some(f) => f@,
        None => no_settings(),
    }
}

/// Combines the command line with the configuration file `existing` (`None` where there is
/// no file). Without a file, or with settings on the command line, the file is (re)written
/// with the combined settings, the defaults filled in; otherwise it is left as it is.
/// Either way the client runs with the command line's settings over the file's over the
/// defaults.
pub fn load(cli: &Cli, existing: Option<FileConfig>) -> (r: LoadedConfig)
    ensures
        (existing is None || has_overrides(cli@)) ==> (r.save matches Some(saved) && saved@
            == filled(overridden(file_settings(existing), cli@))),
        !(existing is None || has_overrides(cli@)) ==> r.save is None,
        r.config@ == settled(overridden(file_settings(existing), cli@)),
        existing is None ==> (r.config.system is None && (r.save matches Some(saved)
            && saved.system is None)),
{
    let exists = existing.is_some();
    let mut file_config = match existing {
        Some(f) => f,
        None => FileConfig::default(),
    };
    if cli.has_runtime_overrides() || !exists {
        file_config.apply_cli(cli);
        file_config.fill_defaults();
        let saved = file_config.copied();
        proof {
            lemma_settled_ignores_filling(overridden(file_settings(existing), cli@));
        }
        LoadedConfig { config: file_config.into_app_config(), save: Some(saved) }
    } else {
        proof {
            lemma_no_overrides_keep_file(cli@, file_settings(existing));
        }
        LoadedConfig { config: file_config.into_app_config(), save: None }
    }
}

/// Filling in the defaults before settling changes nothing.
pub proof fn lemma_settled_ignores_filling(f: FileConfigView)
    ensures
        settled(filled(f)) == settled(f),
{
}

/// A command line without settings leaves a configuration as it is.
pub proof fn lemma_no_overrides_keep_file(cli: CliView, f: FileConfigView)
    requires
        !has_overrides(cli),
    ensures
        overridden(f, cli) == f,
{
}

/// Each setting the client runs with comes from the command line where it gives one, else
/// from the configuration file, else from the defaults; the system prompt and streaming
/// come from the file alone.
pub proof fn lemma_command_line_over_file_over_defaults(cli: CliView, f: FileConfigView)
    ensures
        settled(overridden(f, cli)).ip == (if cli.ip is Some {
            cli.ip->0
        } else if f.ip is Some {
            f.ip->0
        } else {
            default_ip()
        }),
        settled(overridden(f, cli)).port == (if cli.port is Some {
            cli.port->0
        } else if f.port is Some {
            f.port->0
        } else {
            default_port()
        }),
        settled(overridden(f, cli)).model == (if cli.model is Some {
            cli.model->0
        } else if f.model is Some {
            f.model->0
        } else {
            default_model()
        }),
        settled(overridden(f, cli)).timeout == (if cli.timeout is Some {
            cli.timeout->0
        } else if f.timeout is Some {
            f.timeout->0
        } else {
            default_timeout()
        }),
        settled(overridden(f, cli)).system == f.system,
        settled(overridden(f, cli)).stream == (if f.stream is Some {
            f.stream->0
        } else {
            default_stream()
        }),
{
}

/// Filling in the defaults leaves no setting but the system prompt missing, and doing it
/// again changes nothing.
pub proof fn lemma_fill_defaults_complete(f: FileConfigView)
    ensures
        filled(f).ip is Some,
        filled(f).port is Some,
        filled(f).model is Some,
        filled(f).timeout is Some,
        filled(f).stream is Some,
        filled(f).system == f.system,
        filled(filled(f)) == filled(f),
{
}

/// A written configuration file, read back with a command line that sets nothing, is not
/// written again and gives the settings that were in force when it was written.
pub proof fn lemma_saved_file_reloads_same(cli: CliView, f: FileConfigView, later: CliView)
    requires
        !has_overrides(later),
    ensures
        overridden(filled(overridden(f, cli)), later) == filled(overridden(f, cli)),
        settled(overridden(filled(overridden(f, cli)), later)) == settled(overridden(f, cli)),
{
}

/// Reading the configuration through `load` runs with the same settings as
/// `AppConfig::from_cli` on the same command line and file, or on `FileConfig::default()`
/// where there is no file.
pub proof fn lemma_load_matches_from_cli(cli: CliView, f: FileConfig)
    ensures
        settled(overridden(file_settings(Some(f)), cli)) == settled(overridden(f@, cli)),
        settled(overridden(file_settings(None), cli)) == settled(overridden(no_settings(), cli)),
{
}

/// Without a configuration file nothing is set: the client runs with the command line's
/// settings and the defaults, and without a system prompt, and writes none to the new file.
pub proof fn lemma_no_file_no_prompt(cli: CliView)
    ensures
        (file_settings(None).ip is None),
        (file_settings(None).port is None),
        (file_settings(None).model is None),
        (file_settings(None).system is None),
        (file_settings(None).timeout is None),
        (file_settings(None).stream is None),
        (settled(overridden(file_settings(None), cli)).system is None),
        (filled(overridden(file_settings(None), cli)).system is None),
        !has_overrides(cli) ==> settled(overridden(file_settings(None), cli)) == (AppConfigView {
            ip: "127.0.0.1"@,
            port: 8031,
            model: "Qwen2.5-0.5B-Instruct"@,
            system: None,
            timeout: 300,
            stream: false,
        }),
{
}

} // verus!
