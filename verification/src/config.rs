//! The configuration that names the backends to start, and how the
//! process environment overrides parts of it.

use vstd::prelude::*;
use crate::text::{joined, same_text, to_upper, uppercased};

verus! {

/// A named text value: an environment variable of the process, or one that
/// is handed to a backend.
#[derive(Clone, Debug, PartialEq, Eq)]
pub struct EnvVar {
    pub name: String,
    pub value: String,
}

/// How to start one backend.
#[derive(Clone, Debug, PartialEq, Eq)]
pub struct ServerConfig {
    pub command: String,
    pub args: Vec<String>,
    pub env: Vec<EnvVar>,
}

/// A backend under the name that prefixes its tools.
#[derive(Clone, Debug, PartialEq, Eq)]
pub struct ServerEntry {
    pub name: String,
    pub config: ServerConfig,
}

/// The whole configuration.
#[derive(Clone, Debug, PartialEq, Eq)]
pub struct Config {
    pub servers: Vec<ServerEntry>,
    pub log_level: String,
    pub log_file: Option<String>,
}

/// The content of an `EnvVar`.
pub struct VarSpec {
    pub name: Seq<char>,
    pub value: Seq<char>,
}

/// The content of a `ServerConfig`.
pub struct ServerSpec {
    pub command: Seq<char>,
    pub args: Seq<Seq<char>>,
    pub env: Seq<VarSpec>,
}

/// The content of a `ServerEntry`.
pub struct EntrySpec {
    pub name: Seq<char>,
    pub config: ServerSpec,
}

/// The content of a `Config`.
pub struct ConfigSpec {
    pub servers: Seq<EntrySpec>,
    pub log_level: Seq<char>,
    pub log_file: Option<Seq<char>>,
}

impl View for EnvVar {
    type V = VarSpec;

    open spec fn view(&self) -> VarSpec {
        VarSpec { name: self.name@, value: self.value@ }
    }
}

/// The content of a list of variables.
pub open spec fn vars_view(vars: Seq<EnvVar>) -> Seq<VarSpec> {
    Seq::new(vars.len(), |i: int| vars[i]@)
}

/// The content of a list of strings.
pub open spec fn strings_view(strings: Seq<String>) -> Seq<Seq<char>> {
    Seq::new(strings.len(), |i: int| strings[i]@)
}

impl View for ServerConfig {
    type V = ServerSpec;

    open spec fn view(&self) -> ServerSpec {
        ServerSpec {
            command: self.command@,
            args: strings_view(self.args@),
            env: vars_view(self.env@),
        }
    }
}

impl View for ServerEntry {
    type V = EntrySpec;

    open spec fn view(&self) -> EntrySpec {
        EntrySpec { name: self.name@, config: self.config@ }
    }
}

/// The content of a list of backends.
pub open spec fn entries_view(entries: Seq<ServerEntry>) -> Seq<EntrySpec> {
    Seq::new(entries.len(), |i: int| entries[i]@)
}

impl View for Config {
    type V = ConfigSpec;

    open spec fn view(&self) -> ConfigSpec {
        ConfigSpec {
            servers: entries_view(self.servers@),
            log_level: self.log_level@,
            log_file: match self.log_file {
                Some(path) => Some(path@),
                None => None,
            },
        }
    }
}

/// No two variables of the list have the same name.
pub open spec fn distinct_vars(vars: Seq<VarSpec>) -> bool {
    forall|i: int, j: int|
        0 <= i < j < vars.len() ==> (#[trigger] vars[i]).name != (#[trigger] vars[j]).name
}

impl ConfigSpec {
    /// What a configuration holds as a map holds it: no two backends have
    /// the same name, and no backend has two variables of the same name.
    pub open spec fn well_formed(self) -> bool {
        &&& (forall|i: int, j: int|
            0 <= i < j < self.servers.len() ==> (#[trigger] self.servers[i]).name != (
            #[trigger] self.servers[j]).name)
        &&& (forall|i: int|
            0 <= i < self.servers.len() ==> distinct_vars((#[trigger] self.servers[i]).config.env))
    }
}

/// The overrides replace values and leave every name as it is: a
/// configuration without doubled names stays one.
pub proof fn lemma_overrides_keep_names(env: Seq<VarSpec>, config: ConfigSpec)
    requires
        config.well_formed(),
    ensures
        config_overridden(env, config).well_formed(),
        config_overridden(env, config).servers.len() == config.servers.len(),
        forall|i: int|
            0 <= i < config.servers.len() ==> (#[trigger] config_overridden(
                env,
                config,
            ).servers[i]).name == config.servers[i].name,
{
    let after = config_overridden(env, config);
    assert forall|i: int| 0 <= i < after.servers.len() implies distinct_vars(
        (#[trigger] after.servers[i]).config.env,
    ) by {
        let before = config.servers[i].config.env;
        let now = after.servers[i].config.env;
        assert(distinct_vars(before));
        assert forall|a: int, b: int| 0 <= a < b < now.len() implies (#[trigger] now[a]).name != (
        #[trigger] now[b]).name by {
            assert(before[a].name != before[b].name);
        }
    }
    assert forall|i: int, j: int| 0 <= i < j < after.servers.len() implies (
    #[trigger] after.servers[i]).name != (#[trigger] after.servers[j]).name by {
        assert(config.servers[i].name != config.servers[j].name);
    }
}

/// The value of the first variable of that name, if there is one.
pub open spec fn env_value(env: Seq<VarSpec>, name: Seq<char>) -> Option<Seq<char>>
    decreases env.len(),
{
    if env.len() == 0 {
        None
    } else if env[0].name == name {
        Some(env[0].value)
    } else {
        env_value(env.drop_first(), name)
    }
}

/// `value`, unless the environment holds a variable `name`: then that
/// variable's value.
pub open spec fn overridden(env: Seq<VarSpec>, name: Seq<char>, value: Seq<char>) -> Seq<char> {
    match env_value(env, name) {
        Some(v) => v,
        None => value,
    }
}

/// The variable that overrides the command of the backend `server`.
pub open spec fn command_var(server: Seq<char>) -> Seq<char> {
    "MCP_SERVER_"@ + uppercased(server) + "_COMMAND"@
}

/// The variable that overrides the variable `key` of the backend `server`.
pub open spec fn env_var(server: Seq<char>, key: Seq<char>) -> Seq<char> {
    "MCP_SERVER_"@ + uppercased(server) + "_ENV_"@ + uppercased(key)
}

/// A backend's variable after the overrides: its name stays.
pub open spec fn var_overridden(env: Seq<VarSpec>, server: Seq<char>, var: VarSpec) -> VarSpec {
    VarSpec { name: var.name, value: overridden(env, env_var(server, var.name), var.value) }
}

/// A backend after the overrides: its name and arguments stay, its command
/// and each of its variables may be replaced.
pub open spec fn entry_overridden(env: Seq<VarSpec>, entry: EntrySpec) -> EntrySpec {
    EntrySpec {
        name: entry.name,
        config: ServerSpec {
            command: overridden(env, command_var(entry.name), entry.config.command),
            args: entry.config.args,
            env: Seq::new(
                entry.config.env.len(),
                |j: int| var_overridden(env, entry.name, entry.config.env[j]),
            ),
        },
    }
}

/// A configuration after the overrides of an environment.
pub open spec fn config_overridden(env: Seq<VarSpec>, config: ConfigSpec) -> ConfigSpec {
    ConfigSpec {
        servers: Seq::new(
            config.servers.len(),
            |i: int| entry_overridden(env, config.servers[i]),
        ),
        log_level: overridden(env, "MCP_LOG_LEVEL"@, config.log_level),
        log_file: match env_value(env, "MCP_LOG_FILE"@) {
            Some(path) => Some(path),
            None => config.log_file,
        },
    }
}

/// The log level of a configuration that names none.
pub fn default_log_level() -> (level: String)
    ensures
        level@ == "info"@,
{
    "info".to_owned()
}

/// Looks a variable up in an environment: the value of the first variable
/// of that name.
pub fn lookup_env<'a>(env: &'a Vec<EnvVar>, name: &str) -> (r: Option<&'a String>)
    ensures
        match r {
            Some(value) => env_value(vars_view(env@), name@) == Some(value@),
            None => env_value(vars_view(env@), name@) is None,
        },
{
    let ghost all = vars_view(env@);
    let mut i: usize = 0;
    proof {
        assert(all.skip(0) =~= all);
    }
    while i < env.len()
        invariant
            i <= env.len(),
            all == vars_view(env@),
            env_value(all, name@) == env_value(all.skip(i as int), name@),
        decreases env.len() - i,
    {
        proof {
            assert(all.skip(i as int).drop_first() =~= all.skip(i as int + 1));
        }
        if same_text(env[i].name.as_str(), name) {
            return Some(&env[i].value);
        }
        i = i + 1;
    }
    None
}

fn copy_strings(strings: &Vec<String>) -> (out: Vec<String>)
    ensures
        strings_view(out@) == strings_view(strings@),
{
    let mut out: Vec<String> = Vec::new();
    let mut i: usize = 0;
    while i < strings.len()
        invariant
            i <= strings.len(),
            out.len() == i,
            forall|j: int| 0 <= j < i ==> out[j]@ == strings[j]@,
        decreases strings.len() - i,
    {
        out.push(strings[i].clone());
        i = i + 1;
    }
    assert(strings_view(out@) =~= strings_view(strings@));
    out
}

fn override_text(env: &Vec<EnvVar>, name: &str, value: &String) -> (out: String)
    ensures
        out@ == overridden(vars_view(env@), name@, value@),
{
    match lookup_env(env, name) {
        Some(v) => v.clone(),
        None => value.clone(),
    }
}

fn override_entry(env: &Vec<EnvVar>, entry: &ServerEntry) -> (out: ServerEntry)
    ensures
        out@ == entry_overridden(vars_view(env@), entry@),
{
    let upper = to_upper(entry.name.as_str());
    let stem = joined("MCP_SERVER_", upper.as_str());
    let command_name = joined(stem.as_str(), "_COMMAND");
    let command = override_text(env, command_name.as_str(), &entry.config.command);
    let env_stem = joined(stem.as_str(), "_ENV_");
    let mut vars: Vec<EnvVar> = Vec::new();
    let mut j: usize = 0;
    while j < entry.config.env.len()
        invariant
            j <= entry.config.env.len(),
            vars.len() == j,
            env_stem@ == "MCP_SERVER_"@ + uppercased(entry.name@) + "_ENV_"@,
            forall|k: int|
                0 <= k < j ==> vars[k]@ == var_overridden(
                    vars_view(env@),
                    entry.name@,
                    entry.config.env[k]@,
                ),
        decreases entry.config.env.len() - j,
    {
        let var = &entry.config.env[j];
        let key = to_upper(var.name.as_str());
        let var_name = joined(env_stem.as_str(), key.as_str());
        let value = override_text(env, var_name.as_str(), &var.value);
        vars.push(EnvVar { name: var.name.clone(), value });
        j = j + 1;
    }
    let out = ServerEntry {
        name: entry.name.clone(),
        config: ServerConfig { command, args: copy_strings(&entry.config.args), env: vars },
    };
    assert(out@.config.env =~= entry_overridden(vars_view(env@), entry@).config.env);
    out
}

impl Config {
    /// Lets the environment override the configuration. `MCP_LOG_LEVEL`
    /// and `MCP_LOG_FILE` replace the log level and the log file. For a
    /// backend `name`, `MCP_SERVER_{NAME}_COMMAND` replaces its command and
    /// `MCP_SERVER_{NAME}_ENV_{KEY}` the value of its variable `key`, the
    /// names in upper case. Nothing is added and nothing else changes.
    pub fn apply_env_overrides(&mut self, env: &Vec<EnvVar>)
        ensures
            final(self)@ == config_overridden(vars_view(env@), old(self)@),
    {
        let log_level = override_text(env, "MCP_LOG_LEVEL", &self.log_level);
        let log_file = match lookup_env(env, "MCP_LOG_FILE") {
            Some(path) => Some(path.clone()),
            None => match &self.log_file {
                Some(path) => Some(path.clone()),
                None => None,
            },
        };
        let mut servers: Vec<ServerEntry> = Vec::new();
        let mut i: usize = 0;
        while i < self.servers.len()
            invariant
                i <= self.servers.len(),
                servers.len() == i,
                forall|k: int|
                    0 <= k < i ==> servers[k]@ == entry_overridden(
                        vars_view(env@),
                        self.servers[k]@,
                    ),
            decreases self.servers.len() - i,
        {
            servers.push(override_entry(env, &self.servers[i]));
            i = i + 1;
        }
        proof {
            assert(entries_view(servers@) =~= config_overridden(
                vars_view(env@),
                old(self)@,
            ).servers);
        }
        self.servers = servers;
        self.log_level = log_level;
        self.log_file = log_file;
    }
}

} // verus!
