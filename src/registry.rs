//! Marketplace entries of installable backends: install configurations,
//! placeholder detection in their environment, and the views shown to users.
use vstd::prelude::*;

use crate::state::{clone_opt, clone_strings};
use crate::text::{
    chars_of, copy_range, ends_with, eq_chars, find, find_spec, has_prefix, has_suffix, lower_of,
    starts_with, string_of, to_lower, trim, trim_chars,
};

verus! {

/// Everything needed to install a backend as a process.
#[derive(Debug, Clone)]
pub struct InstallConfig {
    pub command: String,
    pub args: Vec<String>,
    /// Environment variables, as name and value.
    pub env: Vec<(String, String)>,
}

/// An environment variable a user is asked for.
#[derive(Debug, Clone)]
pub struct MarketplaceEnvVar {
    pub name: String,
    pub default_value: String,
    pub is_required: bool,
    pub is_secret: bool,
}

/// A backend offered by a marketplace.
#[derive(Debug, Clone)]
pub struct MarketplaceServer {
    pub id: String,
    pub name: String,
    pub description: Option<String>,
    pub repository_url: Option<String>,
    pub stars: Option<u32>,
    pub version: Option<String>,
    pub install: Option<InstallConfig>,
    /// Which marketplace it came from.
    pub provider: String,
}

/// A marketplace entry as a search lists it.
#[derive(Debug, Clone)]
pub struct RegistryServerSummary {
    pub id: String,
    pub display_name: String,
    pub description: Option<String>,
    pub version: Option<String>,
    pub icon_url: Option<String>,
    pub transport_types: Vec<String>,
    pub registry_type: Option<String>,
    pub requires_config: bool,
    pub has_remote: bool,
    pub repository_url: Option<String>,
    pub installed: bool,
    pub stars: Option<u32>,
}

/// One page of search results.
#[derive(Debug, Clone)]
pub struct RegistrySearchResult {
    pub servers: Vec<RegistryServerSummary>,
    pub has_more: bool,
}

/// A marketplace entry with what installing it takes.
#[derive(Debug, Clone)]
pub struct MarketplaceServerDetail {
    pub id: String,
    pub name: String,
    pub description: Option<String>,
    pub repository_url: Option<String>,
    pub stars: Option<u32>,
    pub version: Option<String>,
    pub command: Option<String>,
    pub args: Vec<String>,
    pub env_vars: Vec<MarketplaceEnvVar>,
    pub runtime: Option<String>,
}

/// Which package runners are available on the machine.
#[derive(Debug, Clone, Copy, PartialEq, Eq, Structural)]
pub struct RuntimeDeps {
    pub npx: bool,
    pub uvx: bool,
    pub docker: bool,
}

/// The package registry that a launch command draws from.
pub open spec fn runtime_of(command: Seq<char>) -> Option<Seq<char>> {
    if command == "npx"@ || command == "node"@ {
        Some("npm"@)
    } else if command == "uvx"@ || command == "uv"@ {
        Some("pypi"@)
    } else if command == "docker"@ {
        Some("oci"@)
    } else {
        None
    }
}

pub open spec fn is_upper_token_char(c: char) -> bool {
    ('A' <= c && c <= 'Z') || c == '_' || ('0' <= c && c <= '9')
}

/// Upper-case words that are real settings, not placeholders.
pub open spec fn is_real_value(v: Seq<char>) -> bool {
    v == "TRUE"@ || v == "FALSE"@ || v == "INFO"@ || v == "DEBUG"@ || v == "WARN"@ || v
        == "ERROR"@ || v == "NONE"@ || v == "AUTO"@
}

/// A value that asks the user to fill it in: empty, `YOUR_...`, `<...>`, or
/// an upper-case token of more than three characters that is no known
/// setting (surrounding whitespace aside).
pub open spec fn placeholder(value: Seq<char>) -> bool {
    let v = trim(value);
    v.len() == 0 || has_prefix(v, "YOUR_"@) || has_prefix(v, "your_"@) || (has_prefix(v, "<"@)
        && has_suffix(v, ">"@)) || (v.len() > 3 && (forall|i: int|
        0 <= i < v.len() ==> is_upper_token_char(#[trigger] v[i])) && !is_real_value(v))
}

fn all_upper_token(v: &[char]) -> (r: bool)
    ensures
        r == forall|i: int| 0 <= i < v@.len() ==> is_upper_token_char(#[trigger] v@[i]),
{
    let mut i: usize = 0;
    while i < v.len()
        invariant
            i <= v@.len(),
            forall|k: int| 0 <= k < i ==> is_upper_token_char(#[trigger] v@[k]),
        decreases v@.len() - i,
    {
        let c = v[i];
        if !(('A' <= c && c <= 'Z') || c == '_' || ('0' <= c && c <= '9')) {
            return false;
        }
        i = i + 1;
    }
    true
}

fn is_word(v: &[char], w: &str) -> (r: bool)
    ensures
        r == (v@ == w@),
{
    eq_chars(v, chars_of(w).as_slice())
}

/// Whether an environment value is a placeholder (see `placeholder`).
pub fn is_placeholder(value: &str) -> (r: bool)
    ensures
        r == placeholder(value@),
{
    let v = trim_chars(chars_of(value).as_slice());
    if v.len() == 0 {
        return true;
    }
    if starts_with(v.as_slice(), chars_of("YOUR_").as_slice()) || starts_with(
        v.as_slice(),
        chars_of("your_").as_slice(),
    ) {
        return true;
    }
    if starts_with(v.as_slice(), chars_of("<").as_slice()) && ends_with(
        v.as_slice(),
        chars_of(">").as_slice(),
    ) {
        return true;
    }
    if v.len() > 3 && all_upper_token(v.as_slice()) {
        let known = is_word(v.as_slice(), "TRUE") || is_word(v.as_slice(), "FALSE") || is_word(
            v.as_slice(),
            "INFO",
        ) || is_word(v.as_slice(), "DEBUG") || is_word(v.as_slice(), "WARN") || is_word(
            v.as_slice(),
            "ERROR",
        ) || is_word(v.as_slice(), "NONE") || is_word(v.as_slice(), "AUTO");
        if !known {
            return true;
        }
    }
    false
}

pub open spec fn opt_static(o: Option<&'static str>) -> Option<Seq<char>> {
    match o {
        Some(s) => Some(s@),
        None => None,
    }
}

/// `v` is the placeholder-valued variables of `env`, in order, each asked
/// for as a required secret.
pub open spec fn placeholder_vars(env: Seq<(String, String)>, v: Seq<MarketplaceEnvVar>, n: int) -> bool
    decreases n,
{
    if n <= 0 {
        v.len() == 0
    } else if placeholder(env[n - 1].1@) {
        v.len() > 0 && v.last().name == env[n - 1].0 && v.last().default_value == env[n - 1].1
            && v.last().is_required && v.last().is_secret && placeholder_vars(
            env,
            v.drop_last(),
            n - 1,
        )
    } else {
        placeholder_vars(env, v, n - 1)
    }
}

/// `d` is the variables of `env` with real values, in order.
pub open spec fn default_vars(env: Seq<(String, String)>, d: Seq<(String, String)>, n: int) -> bool
    decreases n,
{
    if n <= 0 {
        d.len() == 0
    } else if !placeholder(env[n - 1].1@) {
        d.len() > 0 && d.last() == env[n - 1] && default_vars(env, d.drop_last(), n - 1)
    } else {
        default_vars(env, d, n - 1)
    }
}

/// `name` is the name of a placeholder variable among the first `n`.
pub open spec fn asked_in(env: Seq<(String, String)>, name: String, n: int) -> bool {
    exists|k: int| 0 <= k < n && placeholder(env[k].1@) && name == env[k].0
}

/// `e` is a variable with a real value among the first `n`.
pub open spec fn kept_in(env: Seq<(String, String)>, e: (String, String), n: int) -> bool {
    exists|k: int| 0 <= k < n && !placeholder(env[k].1@) && e == env[k]
}

pub open spec fn names_of(v: Seq<MarketplaceEnvVar>) -> Seq<String> {
    v.map_values(|x: MarketplaceEnvVar| x.name)
}

proof fn lemma_placeholder_members(env: Seq<(String, String)>, v: Seq<MarketplaceEnvVar>, n: int)
    requires
        0 <= n <= env.len(),
        placeholder_vars(env, v, n),
    ensures
        forall|j: int| 0 <= j < v.len() ==> asked_in(env, #[trigger] v[j].name, n),
        forall|k: int|
            0 <= k < n && placeholder(#[trigger] env[k].1@) ==> names_of(v).contains(env[k].0),
    decreases n,
{
    if n > 0 {
        if placeholder(env[n - 1].1@) {
            let w = v.drop_last();
            lemma_placeholder_members(env, w, n - 1);
            assert forall|j: int| 0 <= j < v.len() implies asked_in(env, #[trigger] v[j].name, n) by {
                if j < w.len() {
                    assert(v[j] == w[j]);
                    assert(asked_in(env, w[j].name, n - 1));
                    let k = choose|k: int| 0 <= k < n - 1 && placeholder(env[k].1@) && w[j].name == env[k].0;
                    assert(0 <= k < n && placeholder(env[k].1@) && v[j].name == env[k].0);
                } else {
                    assert(v[j].name == env[n - 1].0);
                    assert(placeholder(env[n - 1].1@));
                }
            }
            assert forall|k: int| 0 <= k < n && placeholder(#[trigger] env[k].1@) implies names_of(v).contains(env[k].0) by {
                if k < n - 1 {
                    assert(names_of(w).contains(env[k].0));
                    let j = choose|j: int| 0 <= j < names_of(w).len() && names_of(w)[j] == env[k].0;
                    assert(names_of(v)[j] == names_of(w)[j]);
                } else {
                    assert(names_of(v)[v.len() - 1] == env[k].0);
                }
            }
        } else {
            lemma_placeholder_members(env, v, n - 1);
            assert forall|j: int| 0 <= j < v.len() implies asked_in(env, #[trigger] v[j].name, n) by {
                assert(asked_in(env, v[j].name, n - 1));
                let k = choose|k: int| 0 <= k < n - 1 && placeholder(env[k].1@) && v[j].name == env[k].0;
                assert(0 <= k < n && placeholder(env[k].1@) && v[j].name == env[k].0);
            }
        }
    }
}

proof fn lemma_default_members(env: Seq<(String, String)>, d: Seq<(String, String)>, n: int)
    requires
        0 <= n <= env.len(),
        default_vars(env, d, n),
    ensures
        forall|l: int| 0 <= l < d.len() ==> kept_in(env, #[trigger] d[l], n),
        forall|k: int| 0 <= k < n && !placeholder(#[trigger] env[k].1@) ==> d.contains(env[k]),
    decreases n,
{
    if n > 0 {
        if !placeholder(env[n - 1].1@) {
            let w = d.drop_last();
            lemma_default_members(env, w, n - 1);
            assert forall|l: int| 0 <= l < d.len() implies kept_in(env, #[trigger] d[l], n) by {
                if l < w.len() {
                    assert(d[l] == w[l]);
                    assert(kept_in(env, w[l], n - 1));
                    let k = choose|k: int| 0 <= k < n - 1 && !placeholder(env[k].1@) && w[l] == env[k];
                    assert(0 <= k < n && !placeholder(env[k].1@) && d[l] == env[k]);
                } else {
                    assert(d[l] == env[n - 1]);
                }
            }
            assert forall|k: int| 0 <= k < n && !placeholder(#[trigger] env[k].1@) implies d.contains(env[k]) by {
                if k < n - 1 {
                    assert(w.contains(env[k]));
                    let l = choose|l: int| 0 <= l < w.len() && w[l] == env[k];
                    assert(d[l] == w[l]);
                } else {
                    assert(d[d.len() - 1] == env[k]);
                }
            }
        } else {
            lemma_default_members(env, d, n - 1);
            assert forall|l: int| 0 <= l < d.len() implies kept_in(env, #[trigger] d[l], n) by {
                assert(kept_in(env, d[l], n - 1));
                let k = choose|k: int| 0 <= k < n - 1 && !placeholder(env[k].1@) && d[l] == env[k];
                assert(0 <= k < n && !placeholder(env[k].1@) && d[l] == env[k]);
            }
        }
    }
}

/// The variables asked for and the real defaults split an environment: no
/// name is in both, and every variable is in one of them.
pub proof fn lemma_env_split(c: InstallConfig, v: Seq<MarketplaceEnvVar>, d: Seq<(String, String)>)
    requires
        c.wf(),
        placeholder_vars(c.env@, v, c.env@.len() as int),
        default_vars(c.env@, d, c.env@.len() as int),
    ensures
        forall|j: int, l: int|
            0 <= j < v.len() && 0 <= l < d.len() ==> #[trigger] v[j].name@ != #[trigger] d[l].0@,
        forall|k: int|
            0 <= k < c.env@.len() ==> names_of(v).contains(#[trigger] c.env@[k].0) || d.contains(
                c.env@[k],
            ),
{
    let env = c.env@;
    lemma_placeholder_members(env, v, env.len() as int);
    lemma_default_members(env, d, env.len() as int);
    assert forall|j: int, l: int| 0 <= j < v.len() && 0 <= l < d.len() implies #[trigger] v[j].name@
        != #[trigger] d[l].0@ by {
        assert(asked_in(env, v[j].name, env.len() as int));
        assert(kept_in(env, d[l], env.len() as int));
        let k1 = choose|k: int| 0 <= k < env.len() && placeholder(env[k].1@) && v[j].name == env[k].0;
        let k2 = choose|k: int| 0 <= k < env.len() && !placeholder(env[k].1@) && d[l] == env[k];
        if v[j].name@ == d[l].0@ {
            assert(env[k1].0@ == env[k2].0@);
            assert(k1 == k2);
        }
    }
    assert forall|k: int| 0 <= k < env.len() implies names_of(v).contains(#[trigger] env[k].0)
        || d.contains(env[k]) by {
        if placeholder(env[k].1@) {
        } else {
        }
    }
}

impl InstallConfig {
    /// Each variable name occurs once, as in a map.
    pub open spec fn wf(&self) -> bool {
        env_keys_distinct(self.env@)
    }

    /// The package registry of the launch command.
    pub fn runtime(&self) -> (r: Option<&'static str>)
        ensures
            opt_static(r) == runtime_of(self.command@),
    {
        let c = chars_of(self.command.as_str());
        if is_word(c.as_slice(), "npx") || is_word(c.as_slice(), "node") {
            Some("npm")
        } else if is_word(c.as_slice(), "uvx") || is_word(c.as_slice(), "uv") {
            Some("pypi")
        } else if is_word(c.as_slice(), "docker") {
            Some("oci")
        } else {
            None
        }
    }

    /// The environment variables whose values are placeholders.
    pub fn placeholder_env_vars(&self) -> (r: Vec<MarketplaceEnvVar>)
        ensures
            placeholder_vars(self.env@, r@, self.env@.len() as int),
    {
        let mut out: Vec<MarketplaceEnvVar> = Vec::new();
        let mut i: usize = 0;
        while i < self.env.len()
            invariant
                i <= self.env@.len(),
                placeholder_vars(self.env@, out@, i as int),
            decreases self.env@.len() - i,
        {
            if is_placeholder(self.env[i].1.as_str()) {
                let ghost before = out@;
                out.push(
                    MarketplaceEnvVar {
                        name: self.env[i].0.clone(),
                        default_value: self.env[i].1.clone(),
                        is_required: true,
                        is_secret: true,
                    },
                );
                assert(out@.drop_last() =~= before);
            }
            i = i + 1;
        }
        out
    }

    /// The environment variables with real default values.
    pub fn default_env(&self) -> (r: Vec<(String, String)>)
        ensures
            default_vars(self.env@, r@, self.env@.len() as int),
    {
        let mut out: Vec<(String, String)> = Vec::new();
        let mut i: usize = 0;
        while i < self.env.len()
            invariant
                i <= self.env@.len(),
                default_vars(self.env@, out@, i as int),
            decreases self.env@.len() - i,
        {
            if !is_placeholder(self.env[i].1.as_str()) {
                let ghost before = out@;
                out.push((self.env[i].0.clone(), self.env[i].1.clone()));
                assert(out@.drop_last() =~= before);
            }
            i = i + 1;
        }
        out
    }
}

pub open spec fn opt_string_view(o: Option<String>) -> Option<Seq<char>> {
    match o {
        Some(s) => Some(s@),
        None => None,
    }
}

/// Whether `ids` holds `id`.
pub open spec fn listed(ids: Seq<String>, id: Seq<char>) -> bool {
    exists|k: int| 0 <= k < ids.len() && #[trigger] ids[k]@ == id
}

fn is_listed(ids: &[String], id: &String) -> (r: bool)
    ensures
        r == listed(ids@, id@),
{
    let mut i: usize = 0;
    while i < ids.len()
        invariant
            i <= ids@.len(),
            forall|k: int| 0 <= k < i ==> #[trigger] ids@[k]@ != id@,
        decreases ids@.len() - i,
    {
        if eq_chars(chars_of(ids[i].as_str()).as_slice(), chars_of(id.as_str()).as_slice()) {
            return true;
        }
        i = i + 1;
    }
    false
}

/// Whether some variable of `env` holds a placeholder.
pub open spec fn has_placeholder(env: Seq<(String, String)>) -> bool {
    exists|k: int| 0 <= k < env.len() && placeholder(#[trigger] env[k].1@)
}

proof fn lemma_placeholder_vars_empty(env: Seq<(String, String)>, v: Seq<MarketplaceEnvVar>, n: int)
    requires
        0 <= n <= env.len(),
        placeholder_vars(env, v, n),
    ensures
        (v.len() == 0) == !exists|k: int| 0 <= k < n && placeholder(#[trigger] env[k].1@),
    decreases n,
{
    if n > 0 {
        if placeholder(env[n - 1].1@) {
            lemma_placeholder_vars_empty(env, v.drop_last(), n - 1);
        } else {
            lemma_placeholder_vars_empty(env, v, n - 1);
            if exists|k: int| 0 <= k < n && placeholder(#[trigger] env[k].1@) {
                let k = choose|k: int| 0 <= k < n && placeholder(#[trigger] env[k].1@);
                assert(k < n - 1);
            }
        }
    }
}

impl MarketplaceServer {
    /// The entry as a search lists it: installable entries run as a process,
    /// need configuration when a variable holds a placeholder, and are marked
    /// installed when their id is in `installed_ids`.
    pub fn to_summary(&self, installed_ids: &[String]) -> (r: RegistryServerSummary)
        ensures
            r.id == self.id,
            r.display_name == self.name,
            r.description == self.description,
            r.version == self.version,
            r.icon_url is None,
            !r.has_remote,
            r.repository_url == self.repository_url,
            r.stars == self.stars,
            r.installed == listed(installed_ids@, self.id@),
            match self.install {
                Some(c) => r.transport_types@.len() == 1 && r.transport_types@[0]@ == "stdio"@
                    && opt_string_view(r.registry_type) == runtime_of(c.command@)
                    && r.requires_config == has_placeholder(c.env@),
                None => r.transport_types@.len() == 0 && r.registry_type is None
                    && !r.requires_config,
            },
    {
        let (transport_types, registry_type, requires_config) = match &self.install {
            Some(config) => {
                let mut tt: Vec<String> = Vec::new();
                tt.push("stdio".to_owned());
                let rt = match config.runtime() {
                    Some(s) => Some(s.to_owned()),
                    None => None,
                };
                let vars = config.placeholder_env_vars();
                proof {
                    lemma_placeholder_vars_empty(config.env@, vars@, config.env@.len() as int);
                }
                (tt, rt, vars.len() > 0)
            },
            None => (Vec::new(), None, false),
        };
        RegistryServerSummary {
            id: self.id.clone(),
            display_name: self.name.clone(),
            description: clone_opt(&self.description),
            version: clone_opt(&self.version),
            icon_url: None,
            transport_types,
            registry_type,
            requires_config,
            has_remote: false,
            repository_url: clone_opt(&self.repository_url),
            installed: is_listed(installed_ids, &self.id),
            stars: self.stars,
        }
    }

    /// The entry with what installing it takes.
    pub fn to_detail(&self) -> (r: MarketplaceServerDetail)
        ensures
            r.id == self.id,
            r.name == self.name,
            r.description == self.description,
            r.repository_url == self.repository_url,
            r.stars == self.stars,
            r.version == self.version,
            match self.install {
                Some(c) => r.command == Some(c.command) && r.args@ == c.args@ && placeholder_vars(
                    c.env@,
                    r.env_vars@,
                    c.env@.len() as int,
                ) && opt_string_view(r.runtime) == runtime_of(c.command@),
                None => r.command is None && r.args@.len() == 0 && r.env_vars@.len() == 0
                    && r.runtime is None,
            },
    {
        let (command, args, env_vars, runtime) = match &self.install {
            Some(config) => (
                Some(config.command.clone()),
                clone_strings(&config.args),
                config.placeholder_env_vars(),
                match config.runtime() {
                    Some(s) => Some(s.to_owned()),
                    None => None,
                },
            ),
            None => (None, Vec::new(), Vec::new(), None),
        };
        MarketplaceServerDetail {
            id: self.id.clone(),
            name: self.name.clone(),
            description: clone_opt(&self.description),
            repository_url: clone_opt(&self.repository_url),
            stars: self.stars,
            version: clone_opt(&self.version),
            command,
            args,
            env_vars,
            runtime,
        }
    }
}

/// `s` without its trailing slashes.
pub open spec fn strip_slashes(s: Seq<char>) -> Seq<char>
    decreases s.len(),
{
    if s.len() > 0 && s.last() == '/' {
        strip_slashes(s.drop_last())
    } else {
        s
    }
}

/// `s` without a `.git` ending.
pub open spec fn strip_git(s: Seq<char>) -> Seq<char> {
    if has_suffix(s, ".git"@) {
        s.subrange(0, s.len() - ".git"@.len())
    } else {
        s
    }
}

/// `s` cut before its first `/tree/`.
pub open spec fn cut_tree(s: Seq<char>) -> Seq<char> {
    match find_spec(s, "/tree/"@) {
        Some(i) => s.subrange(0, i),
        None => s,
    }
}

/// A repository URL reduced for matching across marketplaces: trimmed,
/// lower-cased, without trailing slashes, `.git`, or a `/tree/...` subpath.
pub open spec fn normalized_repo(url: Seq<char>) -> Seq<char> {
    cut_tree(strip_git(strip_slashes(lower_of(trim(url)))))
}

/// Normalizes a repository URL (see `normalized_repo`).
pub fn normalize_repo_url(url: &str) -> (r: String)
    ensures
        r@ == normalized_repo(url@),
{
    let t = string_of(trim_chars(chars_of(url).as_slice()).as_slice());
    let mut u = to_lower(t.as_str());
    let ghost lowered = u@;
    assert(strip_slashes(lowered) == strip_slashes(u@));
    while u.len() > 0 && u[u.len() - 1] == '/'
        invariant
            strip_slashes(lowered) == strip_slashes(u@),
        decreases u@.len(),
    {
        assert(u@.drop_last() =~= u@.subrange(0, u@.len() - 1));
        u.pop();
    }
    let git = chars_of(".git");
    if ends_with(u.as_slice(), git.as_slice()) {
        u = copy_range(u.as_slice(), 0, u.len() - git.len());
    }
    match find(u.as_slice(), chars_of("/tree/").as_slice()) {
        Some(i) => {
            u = copy_range(u.as_slice(), 0, i);
        },
        None => {},
    }
    string_of(u.as_slice())
}

/// A package of the official registry.
#[derive(Debug, Clone)]
pub struct Package {
    pub registry_type: Option<String>,
    pub identifier: Option<String>,
    /// The package's environment variables: name and whether it is required.
    pub environment_variables: Vec<(String, Option<bool>)>,
}

/// The launch command and arguments for a package of a known registry.
pub open spec fn launch_of(registry: Seq<char>, identifier: Seq<char>) -> Option<(Seq<char>, Seq<Seq<char>>)> {
    if registry == "npm"@ {
        Some(("npx"@, seq!["-y"@, identifier]))
    } else if registry == "pypi"@ {
        Some(("uvx"@, seq![identifier]))
    } else if registry == "oci"@ {
        Some(("docker"@, seq!["run"@, "-i"@, "--rm"@, identifier]))
    } else {
        None
    }
}

/// The names of the required variables among the first `n`, each once, in
/// the order they first appear.
pub open spec fn required_names(vars: Seq<(String, Option<bool>)>, n: int) -> Seq<Seq<char>>
    decreases n,
{
    if n <= 0 {
        Seq::empty()
    } else {
        let p = required_names(vars, n - 1);
        if vars[n - 1].1 == Some(true) && !p.contains(vars[n - 1].0@) {
            p.push(vars[n - 1].0@)
        } else {
            p
        }
    }
}

/// The names of an environment, in order.
pub open spec fn env_keys(env: Seq<(String, String)>) -> Seq<Seq<char>> {
    env.map_values(|e: (String, String)| e.0@)
}

/// No two variables of an environment share a name.
pub open spec fn env_keys_distinct(env: Seq<(String, String)>) -> bool {
    forall|i: int, j: int|
        0 <= i < env.len() && 0 <= j < env.len() && i != j ==> #[trigger] env[i].0@ != #[trigger] env[j].0@
}

fn has_key(env: &Vec<(String, String)>, name: &String) -> (r: bool)
    ensures
        r == env_keys(env@).contains(name@),
{
    let mut i: usize = 0;
    while i < env.len()
        invariant
            i <= env@.len(),
            forall|k: int| 0 <= k < i ==> #[trigger] env@[k].0@ != name@,
        decreases env@.len() - i,
    {
        if eq_chars(chars_of(env[i].0.as_str()).as_slice(), chars_of(name.as_str()).as_slice()) {
            assert(env_keys(env@)[i as int] == name@);
            return true;
        }
        i = i + 1;
    }
    assert(!env_keys(env@).contains(name@)) by {
        if env_keys(env@).contains(name@) {
            let k = choose|k: int| 0 <= k < env_keys(env@).len() && env_keys(env@)[k] == name@;
            assert(env@[k].0@ != name@);
        }
    }
    false
}

pub open spec fn views_of(v: Seq<String>) -> Seq<Seq<char>> {
    v.map_values(|s: String| s@)
}

/// The install configuration of a package, when its registry is known.
pub fn package_to_config(pkg: &Package) -> (r: Option<InstallConfig>)
    ensures
        config_of(*pkg, r),
{
    let id = match &pkg.identifier {
        Some(i) => i,
        None => {
            return None;
        },
    };
    let rt = match &pkg.registry_type {
        Some(r) => chars_of(r.as_str()),
        None => {
            return None;
        },
    };
    let mut args: Vec<String> = Vec::new();
    let command: String;
    if is_word(rt.as_slice(), "npm") {
        command = "npx".to_owned();
        args.push("-y".to_owned());
        args.push(id.clone());
    } else if is_word(rt.as_slice(), "pypi") {
        command = "uvx".to_owned();
        args.push(id.clone());
    } else if is_word(rt.as_slice(), "oci") {
        command = "docker".to_owned();
        args.push("run".to_owned());
        args.push("-i".to_owned());
        args.push("--rm".to_owned());
        args.push(id.clone());
    } else {
        return None;
    }
    assert(views_of(args@) =~= launch_of(rt@, id@).unwrap().1);
    let mut env: Vec<(String, String)> = Vec::new();
    let mut i: usize = 0;
    let vars = &pkg.environment_variables;
    assert(env_keys(env@) =~= Seq::<Seq<char>>::empty());
    while i < vars.len()
        invariant
            i <= vars@.len(),
            env_keys(env@) == required_names(vars@, i as int),
            forall|k: int| 0 <= k < env@.len() ==> (#[trigger] env@[k]).1@.len() == 0,
            env_keys_distinct(env@),
        decreases vars@.len() - i,
    {
        if vars[i].1 == Some(true) && !has_key(&env, &vars[i].0) {
            let ghost before = env@;
            let name = vars[i].0.clone();
            env.push((name, String::new()));
            assert(env_keys(env@) =~= env_keys(before).push(vars@[i as int].0@));
            assert(env_keys_distinct(env@)) by {
                assert forall|a: int, b: int|
                    0 <= a < env@.len() && 0 <= b < env@.len() && a != b implies #[trigger] env@[a].0@
                    != #[trigger] env@[b].0@ by {
                    if a == before.len() && b < before.len() {
                        assert(env_keys(before)[b] == before[b].0@);
                    } else if b == before.len() && a < before.len() {
                        assert(env_keys(before)[a] == before[a].0@);
                    }
                }
            }
        }
        i = i + 1;
    }
    Some(InstallConfig { command, args, env })
}

/// `i` is the first package of registry `rt`.
pub open spec fn first_of_registry(ps: Seq<Package>, rt: Seq<char>, i: int) -> bool {
    0 <= i < ps.len() && opt_string_view(ps[i].registry_type) == Some(rt) && forall|j: int|
        0 <= j < i ==> opt_string_view(#[trigger] ps[j].registry_type) != Some(rt)
}

fn find_registry(ps: &[Package], rt: &str) -> (r: Option<usize>)
    ensures
        match r {
            Some(i) => first_of_registry(ps@, rt@, i as int),
            None => forall|j: int| 0 <= j < ps@.len() ==> opt_string_view(#[trigger] ps@[j].registry_type) != Some(rt@),
        },
{
    let mut i: usize = 0;
    while i < ps.len()
        invariant
            i <= ps@.len(),
            forall|j: int| 0 <= j < i ==> opt_string_view(#[trigger] ps@[j].registry_type) != Some(rt@),
        decreases ps@.len() - i,
    {
        if let Some(t) = &ps[i].registry_type {
            if is_word(chars_of(t.as_str()).as_slice(), rt) {
                return Some(i);
            }
        }
        i = i + 1;
    }
    None
}

/// `r` is what package `pkg` installs as: the launch of its registry with
/// its identifier and its required variables, or nothing.
pub open spec fn config_of(pkg: Package, r: Option<InstallConfig>) -> bool {
    match (pkg.identifier, pkg.registry_type) {
        (Some(id), Some(rt)) => match launch_of(rt@, id@) {
            Some(l) => r matches Some(c) && c.command@ == l.0 && views_of(c.args@) == l.1
                && env_keys(c.env@) == required_names(
                pkg.environment_variables@,
                pkg.environment_variables@.len() as int,
            ) && (forall|k: int| 0 <= k < c.env@.len() ==> (#[trigger] c.env@[k]).1@.len() == 0)
                && c.wf(),
            None => r is None,
        },
        _ => r is None,
    }
}

/// A package that yields no install configuration.
pub open spec fn package_to_config_none(p: Package) -> bool {
    match (p.identifier, p.registry_type) {
        (Some(id), Some(rt)) => launch_of(rt@, id@) is None,
        _ => true,
    }
}

pub open spec fn has_registry(ps: Seq<Package>, rt: Seq<char>) -> bool {
    exists|i: int| first_of_registry(ps, rt, i)
}

pub open spec fn registry_index(ps: Seq<Package>, rt: Seq<char>) -> int {
    choose|i: int| first_of_registry(ps, rt, i)
}

/// `i` is the first package that converts.
pub open spec fn first_convertible(ps: Seq<Package>, i: int) -> bool {
    0 <= i < ps.len() && !package_to_config_none(ps[i]) && forall|j: int|
        0 <= j < i ==> package_to_config_none(#[trigger] ps[j])
}

/// The package chosen: the first npm one, else the first pypi one, else the
/// first oci one, else the first that converts.
pub open spec fn chosen_package(ps: Seq<Package>) -> Option<int> {
    if has_registry(ps, "npm"@) {
        Some(registry_index(ps, "npm"@))
    } else if has_registry(ps, "pypi"@) {
        Some(registry_index(ps, "pypi"@))
    } else if has_registry(ps, "oci"@) {
        Some(registry_index(ps, "oci"@))
    } else if exists|i: int| first_convertible(ps, i) {
        Some(choose|i: int| first_convertible(ps, i))
    } else {
        None
    }
}

proof fn lemma_registry_index(ps: Seq<Package>, rt: Seq<char>, i: int)
    requires
        first_of_registry(ps, rt, i),
    ensures
        has_registry(ps, rt),
        registry_index(ps, rt) == i,
{
    let c = registry_index(ps, rt);
    if c < i {
        assert(opt_string_view(ps[c].registry_type) != Some(rt));
    } else if c > i {
        assert(opt_string_view(ps[i].registry_type) != Some(rt));
    }
}

/// The install configuration of the preferred package (see `chosen_package`).
pub fn best_package_config(packages: &[Package]) -> (r: Option<InstallConfig>)
    ensures
        match chosen_package(packages@) {
            Some(i) => config_of(packages@[i], r),
            None => r is None,
        },
{
    if let Some(i) = find_registry(packages, "npm") {
        proof {
            lemma_registry_index(packages@, "npm"@, i as int);
        }
        return package_to_config(&packages[i]);
    }
    if let Some(i) = find_registry(packages, "pypi") {
        proof {
            lemma_registry_index(packages@, "pypi"@, i as int);
        }
        return package_to_config(&packages[i]);
    }
    if let Some(i) = find_registry(packages, "oci") {
        proof {
            lemma_registry_index(packages@, "oci"@, i as int);
        }
        return package_to_config(&packages[i]);
    }
    let mut i: usize = 0;
    while i < packages.len()
        invariant
            i <= packages@.len(),
            !has_registry(packages@, "npm"@),
            !has_registry(packages@, "pypi"@),
            !has_registry(packages@, "oci"@),
            forall|j: int| 0 <= j < i ==> #[trigger] package_to_config_none(packages@[j]),
        decreases packages@.len() - i,
    {
        let c = package_to_config(&packages[i]);
        if c.is_some() {
            proof {
                assert(first_convertible(packages@, i as int));
                let k = choose|k: int| first_convertible(packages@, k);
                if k < i {
                    assert(package_to_config_none(packages@[k]));
                } else if k > i {
                    assert(package_to_config_none(packages@[i as int]));
                }
            }
            return c;
        }
        i = i + 1;
    }
    proof {
        if exists|k: int| first_convertible(packages@, k) {
            let k = choose|k: int| first_convertible(packages@, k);
            assert(package_to_config_none(packages@[k]));
        }
    }
    None
}

} // verus!
