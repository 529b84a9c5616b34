//! Configuration: its parts and their defaults, how a later source
//! overrides an earlier one, and how `${NAME}` is replaced by the value of
//! an environment variable.
//!
//! Reading the files and the environment happens around these functions.
use vstd::prelude::*;
use crate::errors::ConfigError;
use crate::text::{owned, push_char, push_str};
use crate::types::strings_view;

verus! {

/// One tool server to start.
#[derive(Debug, Clone)]
pub struct McpServerConfig {
    /// Name that identifies the server.
    pub name: String,
    /// Command that starts it.
    pub command: String,
    /// Its arguments.
    pub args: Vec<String>,
}

/// The tool servers.
#[derive(Debug, Clone)]
pub struct McpConfig {
    pub servers: Vec<McpServerConfig>,
    /// Timeout for requests, in seconds.
    pub timeout: u64,
}

/// The agents.
#[derive(Debug, Clone)]
pub struct AgentConfig {
    /// The agent used by default.
    pub default: String,
    /// The agents available.
    pub agents: Vec<String>,
}

/// The index.
#[derive(Debug, Clone)]
pub struct IndexConfig {
    /// Directory of the index.
    pub path: String,
    /// Whether indexing runs by itself.
    pub auto_index: bool,
    /// Seconds between updates of the index.
    pub update_interval: u64,
}

impl Default for McpServerConfig {
    /// A server named "default" with no command.
    fn default() -> (r: Self)
        ensures
            r.name@ == "default"@,
            r.command@.len() == 0,
            r.args@.len() == 0,
    {
        McpServerConfig { name: owned("default"), command: String::new(), args: Vec::new() }
    }
}

impl Default for McpConfig {
    /// No server, thirty seconds.
    fn default() -> (r: Self)
        ensures
            r.servers@.len() == 0,
            r.timeout == 30,
    {
        McpConfig { servers: Vec::new(), timeout: 30 }
    }
}

impl Default for AgentConfig {
    /// The one agent "default".
    fn default() -> (r: Self)
        ensures
            r.default@ == "default"@,
            strings_view(r.agents@) == seq!["default"@],
    {
        let mut agents: Vec<String> = Vec::new();
        agents.push(owned("default"));
        let r = AgentConfig { default: owned("default"), agents };
        assert(strings_view(r.agents@) =~= seq!["default"@]);
        r
    }
}

impl Default for IndexConfig {
    /// The index under the user's telisq directory, updated by itself every
    /// hour.
    fn default() -> (r: Self)
        ensures
            r.path@ == "~/.telisq/index"@,
            r.auto_index,
            r.update_interval == 3600,
    {
        IndexConfig { path: owned("~/.telisq/index"), auto_index: true, update_interval: 3600 }
    }
}

impl McpConfig {
    /// Lets a later source override this one: its servers when it lists
    /// any, its timeout when it is not zero.
    pub fn merge(&mut self, other: McpConfig)
        ensures
            final(self).servers@ == if other.servers@.len() > 0 {
                other.servers@
            } else {
                old(self).servers@
            },
            final(self).timeout == if other.timeout != 0 {
                other.timeout
            } else {
                old(self).timeout
            },
    {
        if other.servers.len() > 0 {
            self.servers = other.servers;
        }
        if other.timeout != 0 {
            self.timeout = other.timeout;
        }
    }
}

impl AgentConfig {
    /// Lets a later source override this one: each field when it is not
    /// empty.
    pub fn merge(&mut self, other: AgentConfig)
        ensures
            final(self).default@ == if other.default@.len() > 0 {
                other.default@
            } else {
                old(self).default@
            },
            final(self).agents@ == if other.agents@.len() > 0 {
                other.agents@
            } else {
                old(self).agents@
            },
    {
        if !other.default.as_str().is_empty() {
            self.default = other.default;
        }
        if other.agents.len() > 0 {
            self.agents = other.agents;
        }
    }
}

impl IndexConfig {
    /// Lets a later source override this one: the path when it is not
    /// empty, automatic indexing when it is on, the interval when it is not
    /// zero.
    pub fn merge(&mut self, other: IndexConfig)
        ensures
            final(self).path@ == if other.path@.len() > 0 {
                other.path@
            } else {
                old(self).path@
            },
            final(self).auto_index == (other.auto_index || old(self).auto_index),
            final(self).update_interval == if other.update_interval != 0 {
                other.update_interval
            } else {
                old(self).update_interval
            },
    {
        if !other.path.as_str().is_empty() {
            self.path = other.path;
        }
        if other.auto_index {
            self.auto_index = other.auto_index;
        }
        if other.update_interval != 0 {
            self.update_interval = other.update_interval;
        }
    }
}

// ------------------------------------------------------------------
// `${NAME}` in configuration values
// ------------------------------------------------------------------

/// The value of the variable `name` among `env`: the first pair with that
/// name.
pub open spec fn env_value(env: Seq<(String, String)>, name: Seq<char>, k: int) -> Option<Seq<char>>
    decreases env.len() - k,
{
    if k < 0 || k >= env.len() {
        None
    } else if env[k].0@ == name {
        Some(env[k].1@)
    } else {
        env_value(env, name, k + 1)
    }
}

/// The first position at or after `i` holding `}`, or the end.
pub open spec fn close_brace(s: Seq<char>, i: int) -> int
    decreases s.len() - i,
{
    if i >= s.len() {
        s.len() as int
    } else if s[i] == '}' {
        i
    } else {
        close_brace(s, i + 1)
    }
}

/// `s[i..]` with each `${NAME}` replaced by the variable's value: the name
/// runs to the next `}` (or to the end). The first name without a value is
/// the error.
pub open spec fn interpolate_from(s: Seq<char>, env: Seq<(String, String)>, i: int) -> Result<Seq<char>, Seq<char>>
    decreases s.len() - i,
{
    if i < 0 || i >= s.len() {
        Ok(Seq::<char>::empty())
    } else if s[i] == '$' && i + 1 < s.len() && s[i + 1] == '{' {
        let e = close_brace(s, i + 2);
        let name = s.subrange(i + 2, if e <= s.len() { e } else { s.len() as int });
        let next = if e < s.len() { e + 1 } else { s.len() as int };
        match env_value(env, name, 0) {
            Some(v) => if next > i {
                match interpolate_from(s, env, next) {
                    Ok(rest) => Ok(v + rest),
                    Err(n) => Err(n),
                }
            } else {
                Err(name)
            },
            None => Err(name),
        }
    } else {
        match interpolate_from(s, env, i + 1) {
            Ok(rest) => Ok(seq![s[i]] + rest),
            Err(n) => Err(n),
        }
    }
}

/// `close_brace` stays between `i` and the end.
proof fn lemma_close_brace(s: Seq<char>, i: int)
    requires
        0 <= i,
    ensures
        i <= close_brace(s, i) || i > s.len(),
        close_brace(s, i) <= s.len(),
        close_brace(s, i) < s.len() ==> s[close_brace(s, i)] == '}',
        forall|t: int| i <= t < close_brace(s, i) ==> s[t] != '}',
    decreases s.len() - i,
{
    if i < s.len() && s[i] != '}' {
        lemma_close_brace(s, i + 1);
    }
}

/// The first variable named `name` in `env`.
fn find_env(env: &Vec<(String, String)>, name: &String) -> (r: Option<usize>)
    ensures
        match env_value(env@, name@, 0) {
            Some(v) => r matches Some(k) && k < env@.len() && env@[k as int].1@ == v,
            None => r is None,
        },
{
    let mut k: usize = 0;
    while k < env.len()
        invariant
            k <= env@.len(),
            env_value(env@, name@, 0) == env_value(env@, name@, k as int),
        decreases env@.len() - k,
    {
        if env[k].0 == *name {
            return Some(k);
        }
        k = k + 1;
    }
    None
}

/// Replaces each `${NAME}` in `s` by the value of the variable `NAME` in
/// `env` (the environment, as pairs of names and values), as
/// `interpolate_from` says; a variable without a value is a missing field.
pub fn interpolate_string(s: &str, env: &Vec<(String, String)>) -> (r: Result<String, ConfigError>)
    ensures
        match interpolate_from(s@, env@, 0) {
            Ok(t) => r matches Ok(x) && x@ == t,
            Err(name) => r matches Err(ConfigError::MissingField(m)) && m@ == "Environment variable '"@ + name
                + "' not found"@,
        },
{
    let c = crate::text::chars_of(s);
    let n = c.len();
    let mut out = String::new();
    let mut i: usize = 0;
    while i < n
        invariant
            i <= n,
            n == c@.len(),
            c@ == s@,
            interpolate_from(s@, env@, 0) == match interpolate_from(s@, env@, i as int) {
                Ok(rest) => Ok(out@ + rest),
                Err(x) => Err(x),
            },
        decreases n - i,
    {
        if c[i] == '$' && i + 1 < n && c[i + 1] == '{' {
            let mut e = i + 2;
            while e < n && c[e] != '}'
                invariant
                    i + 2 <= e <= n,
                    n == c@.len(),
                    close_brace(c@, (i + 2) as int) == close_brace(c@, e as int),
                decreases n - e,
            {
                e = e + 1;
            }
            let name = crate::text::string_of(&c, i + 2, e);
            let next = if e < n {
                e + 1
            } else {
                n
            };
            let found = find_env(env, &name);
            match found {
                Some(k) => {
                    let ghost before = out@;
                    push_str(&mut out, env[k].1.as_str());
                    assert(out@ == before + env@[k as int].1@);
                    proof {
                        let v = env@[k as int].1@;
                        assert(name@ == c@.subrange(i + 2, e as int));
                        match interpolate_from(s@, env@, next as int) {
                            Ok(rest) => {
                                assert((before + v) + rest =~= before + (v + rest));
                            },
                            Err(_) => {},
                        }
                    }
                    i = next;
                },
                None => {
                    let mut m = owned("Environment variable '");
                    push_str(&mut m, name.as_str());
                    push_str(&mut m, "' not found");
                    return Err(ConfigError::MissingField(m));
                },
            }
        } else {
            let ghost before = out@;
            push_char(&mut out, c[i]);
            assert(out@ == before + seq![c@[i as int]]);
            proof {
                match interpolate_from(s@, env@, i + 1) {
                    Ok(rest) => {
                        assert((before + seq![c@[i as int]]) + rest =~= before + (seq![c@[i as int]] + rest));
                    },
                    Err(_) => {},
                }
            }
            i = i + 1;
        }
    }
    Ok(out)
}

} // verus!
