//! The command line of the agent: which action the arguments ask for, the
//! configuration that the environment gives, and what the agent says when
//! it has been stopped.

use vstd::prelude::*;
use vstd::string::*;
use crate::creds::{cred_error, CredErr, Creds};
use crate::moonlight_client::ConnectMode;
use crate::text::{
    chars_of,
    contains_text,
    lowercase_of,
    owned,
    push_str,
    str_contains,
    string_of,
    texts,
    to_lowercase,
    trim_range,
    trimmed,
};

verus! {

/// The port of the server on this machine that the agent connects to in
/// local mode.
pub const LOCAL_PORT: u16 = 8484;

/// How long the agent is given to clean up after it was asked to stop, in
/// milliseconds.
pub const CLEANUP_WAIT_MS: u64 = 5_000;

/// How long a daemon is given to become ready, in milliseconds.
pub const READINESS_WAIT_MS: u64 = 10_000;

/// The version of the agent, as the command line prints it.
pub open spec fn version_text() -> Seq<char> {
    "v0.1.0"@
}

/// The help text.
pub open spec fn help_text() -> Seq<char> {
    "Fostrom Device Agent v0.1.0\n\nThe Fostrom Device Agent is used by our Device SDKs.\nVisit the Fostrom Docs [https://fostrom.io/docs/] for more information.\n\nUSAGE:\n    start               Start in daemon mode\n      --tcp               Enable TCP socket (default: false)\n    run                 Start in blocking mode\n      --tcp               Enable TCP socket (default: false)\n    status              Get the agent's status\n    stop                Stop the device agent\n    version             Print version\n    help                Print this help text"@
}

/// What is said when a variable of the environment is missing.
pub open spec fn env_error_text() -> Seq<char> {
    "To start the Fostrom Device Agent, you need to pass the following environment variables:\n\t$FOSTROM_FLEET_ID\t\tThe 8-character Fleet ID\n\t$FOSTROM_DEVICE_ID\t\tThe 10-character Device ID\n\t$FOSTROM_DEVICE_SECRET\t\tThe 36-character Device Secret, begins with `FOS-`\n\nYou can find these in the Fostrom Console under your device's settings."@
}

/// The version of the agent, as the command line prints it.
pub fn version() -> (s: String)
    ensures
        s@ == version_text(),
{
    owned("v0.1.0")
}

/// The help text.
pub fn help() -> (s: String)
    ensures
        s@ == help_text(),
{
    owned(
        "Fostrom Device Agent v0.1.0\n\nThe Fostrom Device Agent is used by our Device SDKs.\nVisit the Fostrom Docs [https://fostrom.io/docs/] for more information.\n\nUSAGE:\n    start               Start in daemon mode\n      --tcp               Enable TCP socket (default: false)\n    run                 Start in blocking mode\n      --tcp               Enable TCP socket (default: false)\n    status              Get the agent's status\n    stop                Stop the device agent\n    version             Print version\n    help                Print this help text",
    )
}

/// What is said when a variable of the environment is missing.
pub fn env_error() -> (s: String)
    ensures
        s@ == env_error_text(),
{
    owned(
        "To start the Fostrom Device Agent, you need to pass the following environment variables:\n\t$FOSTROM_FLEET_ID\t\tThe 8-character Fleet ID\n\t$FOSTROM_DEVICE_ID\t\tThe 10-character Device ID\n\t$FOSTROM_DEVICE_SECRET\t\tThe 36-character Device Secret, begins with `FOS-`\n\nYou can find these in the Fostrom Console under your device's settings.",
    )
}

/// How the agent came to a stop.
#[derive(Debug, Clone, Copy, PartialEq, Eq, Structural)]
pub enum StopMode {
    NotRunning,
    Stopped,
    ForceKilled,
    Failed,
}

impl StopMode {
    /// What is said of the stop.
    pub open spec fn text(self) -> Seq<char> {
        match self {
            StopMode::NotRunning => "stopped: The agent was not running."@,
            StopMode::Stopped => "stopped: The agent has been stopped."@,
            StopMode::ForceKilled => "stopped: The agent has been stopped by forced kill."@,
            StopMode::Failed => "timeout: The agent did not stop within the expected time and a PID file wasn't found to force kill the agent or the force kill failed."@,
        }
    }

    /// What is said of the stop.
    pub fn message(&self) -> (s: String)
        ensures
            s@ == self.text(),
    {
        match self {
            StopMode::NotRunning => owned("stopped: The agent was not running."),
            StopMode::Stopped => owned("stopped: The agent has been stopped."),
            StopMode::ForceKilled => owned("stopped: The agent has been stopped by forced kill."),
            StopMode::Failed => owned(
                "timeout: The agent did not stop within the expected time and a PID file wasn't found to force kill the agent or the force kill failed.",
            ),
        }
    }

    /// Whether the stop is told as a failure.
    pub fn is_failure(&self) -> (r: bool)
        ensures
            r == (*self is Failed),
    {
        match self {
            StopMode::Failed => true,
            _ => false,
        }
    }
}

/// Whether an answer of the agent says that all went well.
pub fn is_ok_response(response: &str) -> (r: bool)
    ensures
        r == contains_text(response@, "200 OK"@),
{
    str_contains(response, "200 OK")
}

/// Whether the agent that runs has the configuration that is asked for:
/// the fingerprint that it wrote down, without the white space around it,
/// is the fingerprint of the new configuration.
pub fn same_configuration(written: &str, fingerprint: &str) -> (r: bool)
    ensures
        r == (trimmed(written@) == fingerprint@),
{
    let chars = chars_of(written);
    assert(chars@.subrange(0, chars@.len() as int) =~= chars@);
    let (from, to) = trim_range(&chars, 0, chars.len());
    let kept = string_of(&chars, from, to);
    kept == owned(fingerprint)
}

/// The variables of the environment that the agent reads.
pub struct Environment {
    pub fleet_id: Option<String>,
    pub device_id: Option<String>,
    pub device_secret: Option<String>,
    pub local_mode: Option<String>,
}

/// How the agent is to run.
#[derive(Debug, Clone)]
pub struct AgentConfig {
    pub creds: Creds,
    pub enable_unix_socket: bool,
    pub enable_tcp_socket: bool,
    pub connect_mode: ConnectMode,
    pub start_daemon: bool,
}

/// Why no configuration could be made.
#[derive(Debug, Clone, Copy, PartialEq, Eq, Structural)]
pub enum ConfigError {
    /// A variable of the environment is missing.
    Environment,
    /// The credentials are not valid.
    Credentials(CredErr),
}

impl ConfigError {
    /// What is said of the error.
    pub open spec fn text(self) -> Seq<char> {
        match self {
            ConfigError::Environment => env_error_text(),
            ConfigError::Credentials(e) => e.text(),
        }
    }

    /// What is said of the error.
    pub fn message(&self) -> (s: String)
        ensures
            s@ == self.text(),
    {
        match self {
            ConfigError::Environment => env_error(),
            ConfigError::Credentials(e) => e.to_string(),
        }
    }
}

/// What the command line asks for.
#[derive(Debug, Clone)]
pub enum ParsedAction {
    Start(AgentConfig),
    Daemon(AgentConfig),
    Stop,
    Status,
    TestConn,
}

/// What came of reading the command line.
#[derive(Debug, Clone)]
pub enum Parsed {
    /// Print the help text.
    Help,
    /// Print the version.
    Version,
    /// Carry out this action.
    Action(ParsedAction),
    /// Print what is wrong with the configuration.
    Invalid(ConfigError),
    /// Print that the command is not known, and the help text.
    Unknown(String),
}

/// The mode that the environment asks for: local where the variable is
/// `true` or `1`, production else.
pub open spec fn mode_of(local_mode: Option<Seq<char>>) -> ConnectMode {
    match local_mode {
        Some(value) => if value == "true"@ || value == "1"@ {
            ConnectMode::Local(LOCAL_PORT)
        } else {
            ConnectMode::Prod
        },
        None => ConnectMode::Prod,
    }
}

/// The text of an optional string.
pub open spec fn opt(o: Option<String>) -> Option<Seq<char>> {
    match o {
        Some(s) => Some(s@),
        None => None,
    }
}

/// The error that the environment gets, if any: a missing variable
/// first, then what is wrong with the credentials.
pub open spec fn config_error(env: Environment) -> Option<ConfigError> {
    if env.fleet_id is None || env.device_id is None || env.device_secret is None {
        Some(ConfigError::Environment)
    } else {
        match cred_error(env.fleet_id->0@, env.device_id->0@, env.device_secret->0@) {
            Some(e) => Some(ConfigError::Credentials(e)),
            None => None,
        }
    }
}

/// Whether a configuration is the one that the environment gives: the
/// credentials, the mode, the UNIX socket always and the TCP socket where
/// it is asked for.
pub open spec fn configured(
    config: AgentConfig,
    env: Environment,
    start_daemon: bool,
    start_tcp: bool,
) -> bool {
    &&& config_error(env) is None
    &&& config.creds.fleet_id@ == env.fleet_id->0@
    &&& config.creds.device_id@ == env.device_id->0@
    &&& config.creds.device_secret@ == env.device_secret->0@
    &&& config.creds.prod == (mode_of(opt(env.local_mode)) is Prod)
    &&& config.creds.wf()
    &&& config.enable_unix_socket
    &&& config.enable_tcp_socket == start_tcp
    &&& config.connect_mode == mode_of(opt(env.local_mode))
    &&& config.start_daemon == start_daemon
}

/// The configuration that the environment gives: see [`configured`].
pub fn get_agent_config(env: &Environment, start_daemon: bool, start_tcp: bool) -> (r: Result<
    AgentConfig,
    ConfigError,
>)
    ensures
        match r {
            Ok(config) => configured(config, *env, start_daemon, start_tcp),
            Err(e) => config_error(*env) == Some(e),
        },
{
    let fleet_id = match &env.fleet_id {
        Some(s) => s,
        None => {
            return Err(ConfigError::Environment);
        },
    };
    let device_id = match &env.device_id {
        Some(s) => s,
        None => {
            return Err(ConfigError::Environment);
        },
    };
    let device_secret = match &env.device_secret {
        Some(s) => s,
        None => {
            return Err(ConfigError::Environment);
        },
    };
    let connect_mode = match &env.local_mode {
        Some(value) => {
            if *value == owned("true") || *value == owned("1") {
                ConnectMode::Local(LOCAL_PORT)
            } else {
                ConnectMode::Prod
            }
        },
        None => ConnectMode::Prod,
    };
    let prod = match connect_mode {
        ConnectMode::Prod => true,
        ConnectMode::Local(_) => false,
    };
    match Creds::new(fleet_id.as_str(), device_id.as_str(), device_secret.as_str(), prod) {
        Ok(creds) => Ok(
            AgentConfig {
                creds,
                enable_unix_socket: true,
                enable_tcp_socket: start_tcp,
                connect_mode,
                start_daemon,
            },
        ),
        Err(e) => Err(ConfigError::Credentials(e)),
    }
}

/// The commands that the command line knows, apart from those that start
/// the agent.
pub open spec fn is_word(args: Seq<Seq<char>>, word: Seq<char>) -> bool {
    args.len() == 1 && lowercase_of(args[0]) == word
}

/// Whether the arguments ask to start the agent, in whichever way.
pub open spec fn asks_to_start(args: Seq<Seq<char>>) -> bool {
    args.len() > 0 && (lowercase_of(args[0]) == "run"@ || lowercase_of(args[0]) == "start"@
        || lowercase_of(args[0]) == "daemon"@)
}

/// Whether one of the arguments, in lower case, is this word.
pub open spec fn has_flag(args: Seq<Seq<char>>, flag: Seq<char>) -> bool {
    exists|i: int| 0 <= i < args.len() && lowercase_of(#[trigger] args[i]) == flag
}

/// The arguments in lower case, joined by spaces.
pub open spec fn joined(args: Seq<Seq<char>>) -> Seq<char>
    decreases args.len(),
{
    if args.len() == 0 {
        Seq::empty()
    } else if args.len() == 1 {
        lowercase_of(args[0])
    } else {
        joined(args.drop_last()) + " "@ + lowercase_of(args.last())
    }
}

/// What is said of a command that is not known.
pub open spec fn unknown_text(args: Seq<Seq<char>>) -> Seq<char> {
    "Unknown Command: "@ + joined(args)
}

/// Reads the arguments of the command line, without the name of the
/// program. The arguments are read in lower case. No argument and `help`
/// ask for the help text; `version`, `stop` and `status` stand alone;
/// `run`, `start` and `daemon` start the agent with the configuration of
/// the environment, `start` and `daemon` as a daemon, and with the TCP
/// socket where `--tcp` is among the arguments.
pub fn parse(args: &Vec<String>, env: &Environment) -> (r: Parsed)
    ensures
        ({
            let a = texts(args@);
            if a.len() == 0 || is_word(a, "help"@) {
                r is Help
            } else if is_word(a, "version"@) {
                r is Version
            } else if is_word(a, "stop"@) {
                r matches Parsed::Action(ParsedAction::Stop)
            } else if is_word(a, "status"@) {
                r matches Parsed::Action(ParsedAction::Status)
            } else if asks_to_start(a) {
                match config_error(*env) {
                    Some(e) => r matches Parsed::Invalid(x) && x == e,
                    None => {
                        let daemon = lowercase_of(a[0]) == "daemon"@;
                        let start_daemon = daemon || lowercase_of(a[0]) == "start"@;
                        let tcp = has_flag(a, "--tcp"@);
                        match r {
                            Parsed::Action(ParsedAction::Daemon(config)) => daemon && configured(
                                config,
                                *env,
                                start_daemon,
                                tcp,
                            ),
                            Parsed::Action(ParsedAction::Start(config)) => !daemon && configured(
                                config,
                                *env,
                                start_daemon,
                                tcp,
                            ),
                            _ => false,
                        }
                    },
                }
            } else {
                r matches Parsed::Unknown(message) && message@ == unknown_text(a)
            }
        }),
{
    let ghost a = texts(args@);
    let mut lower: Vec<String> = Vec::new();
    let mut i: usize = 0;
    while i < args.len()
        invariant
            i <= args.len(),
            a == texts(args@),
            lower@.len() == i,
            forall|k: int| 0 <= k < i ==> (#[trigger] lower@[k])@ == lowercase_of(a[k]),
        decreases args.len() - i,
    {
        assert(a[i as int] == args@[i as int]@);
        lower.push(to_lowercase(args[i].as_str()));
        i += 1;
    }
    if lower.len() == 0 {
        return Parsed::Help;
    }
    if lower.len() == 1 {
        if lower[0] == owned("help") {
            return Parsed::Help;
        }
        if lower[0] == owned("version") {
            return Parsed::Version;
        }
        if lower[0] == owned("stop") {
            return Parsed::Action(ParsedAction::Stop);
        }
        if lower[0] == owned("status") {
            return Parsed::Action(ParsedAction::Status);
        }
    }
    proof {
        reveal_strlit("help");
        reveal_strlit("version");
        reveal_strlit("stop");
        reveal_strlit("status");
        reveal_strlit("run");
        reveal_strlit("start");
        reveal_strlit("daemon");
        assert("help"@.len() == 4 && "version"@.len() == 7 && "stop"@.len() == 4 && "status"@.len()
            == 6 && "run"@.len() == 3 && "start"@.len() == 5 && "daemon"@.len() == 6);
        assert("help"@[0] == 'h' && "stop"@[0] == 's');
        assert("daemon"@[0] == 'd' && "status"@[0] == 's');
        assert("start"@[2] == 'a' && "status"@[2] == 'a');
        assert("stop"@[2] == 'o');
    }
    let is_run = lower[0] == owned("run");
    let is_start = lower[0] == owned("start");
    let is_daemon = lower[0] == owned("daemon");
    if is_run || is_start || is_daemon {
        let start_daemon = is_start || is_daemon;
        let tcp_flag = owned("--tcp");
        let mut start_tcp = false;
        let mut j: usize = 0;
        while j < lower.len()
            invariant
                j <= lower.len(),
                lower@.len() == a.len(),
                tcp_flag@ == "--tcp"@,
                forall|k: int| 0 <= k < lower@.len() ==> (#[trigger] lower@[k])@ == lowercase_of(a[k]),
                start_tcp == (exists|k: int| 0 <= k < j && lowercase_of(#[trigger] a[k]) == "--tcp"@),
            decreases lower.len() - j,
        {
            if lower[j] == tcp_flag {
                assert(lowercase_of(a[j as int]) == "--tcp"@);
                start_tcp = true;
            }
            j += 1;
        }
        return match get_agent_config(env, start_daemon, start_tcp) {
            Ok(config) => {
                if is_daemon {
                    Parsed::Action(ParsedAction::Daemon(config))
                } else {
                    Parsed::Action(ParsedAction::Start(config))
                }
            },
            Err(e) => Parsed::Invalid(e),
        };
    }
    let mut message = owned("Unknown Command: ");
    let ghost head = message@;
    let mut k: usize = 0;
    assert(a.subrange(0, 0) =~= Seq::<Seq<char>>::empty());
    assert(message@ =~= head + joined(a.subrange(0, 0)));
    while k < lower.len()
        invariant
            k <= lower.len(),
            lower@.len() == a.len(),
            forall|n: int| 0 <= n < lower@.len() ==> (#[trigger] lower@[n])@ == lowercase_of(a[n]),
            message@ == head + joined(a.subrange(0, k as int)),
        decreases lower.len() - k,
    {
        let ghost before = a.subrange(0, k as int);
        let ghost after = a.subrange(0, k + 1);
        proof {
            assert(after.drop_last() =~= before);
            assert(after.last() == a[k as int]);
            if k == 0 {
                assert(after[0] == a[0]);
            }
        }
        if k > 0 {
            push_str(&mut message, " ");
        }
        push_str(&mut message, lower[k].as_str());
        assert(message@ =~= head + joined(after));
        k += 1;
    }
    assert(a.subrange(0, a.len() as int) =~= a);
    Parsed::Unknown(message)
}

} // verus!
