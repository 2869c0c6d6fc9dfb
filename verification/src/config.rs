//! Profiles and per-tool configuration.
//!
//! A configuration holds named profiles, each listing the tool ids it wants
//! installed, and optional per-tool settings. Reading the configuration file
//! happens outside the library; this module holds the lookup and fallback
//! rules.

use vstd::prelude::*;

use crate::errors::{BootstrapError, BootstrapResult};
use crate::strutil::str_eq;

verus! {

/// Profile configuration: the tools a profile installs.
pub struct Profile {
    /// Tools to install in this profile
    pub tools: Vec<String>,
}

/// Tool-specific configuration.
pub struct ToolConfig {
    /// Required version (exact)
    pub version: Option<String>,
    /// Minimum version
    pub min_version: Option<String>,
    /// Custom install arguments
    pub install_args: Vec<String>,
}

/// A named profile.
pub struct ProfileEntry {
    pub name: String,
    pub profile: Profile,
}

/// A named tool configuration.
pub struct ToolConfigEntry {
    pub name: String,
    pub config: ToolConfig,
}

/// Top-level configuration.
pub struct Config {
    /// Profiles (dev, ci, full), in file order.
    pub profiles: Vec<ProfileEntry>,
    /// Tool-specific configuration, in file order.
    pub tools: Vec<ToolConfigEntry>,
}

/// The index of the first profile with the given name, or -1.
pub open spec fn profile_index(ps: Seq<ProfileEntry>, name: Seq<char>, from: int) -> int
    decreases ps.len() - from
        when 0 <= from <= ps.len()
{
    if from >= ps.len() {
        -1
    } else if ps[from].name@ == name {
        from
    } else {
        profile_index(ps, name, from + 1)
    }
}

/// Whether a profile of the given name exists.
pub open spec fn has_profile(ps: Seq<ProfileEntry>, name: Seq<char>) -> bool {
    exists|k: int| 0 <= k < ps.len() && ps[k].name@ == name
}

/// The index of the first tool configuration with the given name, or -1.
pub open spec fn tool_config_index(ts: Seq<ToolConfigEntry>, name: Seq<char>, from: int) -> int
    decreases ts.len() - from
        when 0 <= from <= ts.len()
{
    if from >= ts.len() {
        -1
    } else if ts[from].name@ == name {
        from
    } else {
        tool_config_index(ts, name, from + 1)
    }
}

/// The tools installed when no profile of the requested name exists.
pub open spec fn default_tools() -> Seq<Seq<char>> {
    seq![
        "ripgrep"@,
        "python-black"@,
        "python-ruff"@,
        "python-pylint"@,
        "yamllint"@,
        "pytest"@,
        "actionlint"@,
        "shellcheck"@,
        "shfmt"@,
    ]
}

/// The tool list a profile name resolves to: the profile's own list, or the
/// default list when the name is unknown.
pub open spec fn tools_of_profile(ps: Seq<ProfileEntry>, name: Seq<char>) -> Seq<Seq<char>> {
    if has_profile(ps, name) {
        ps[profile_index(ps, name, 0)].profile.tools.deep_view()
    } else {
        default_tools()
    }
}

pub proof fn lemma_profile_index_works(ps: Seq<ProfileEntry>, name: Seq<char>, from: int)
    requires
        0 <= from <= ps.len(),
    ensures
        profile_index(ps, name, from) == -1 ==> forall|k: int|
            from <= k < ps.len() ==> ps[k].name@ != name,
        profile_index(ps, name, from) != -1 ==> from <= profile_index(ps, name, from) < ps.len()
            && ps[profile_index(ps, name, from)].name@ == name && forall|k: int|
            from <= k < profile_index(ps, name, from) ==> ps[k].name@ != name,
    decreases ps.len() - from,
{
    if from < ps.len() && ps[from].name@ != name {
        lemma_profile_index_works(ps, name, from + 1);
    }
}

pub proof fn lemma_tool_config_index_works(ts: Seq<ToolConfigEntry>, name: Seq<char>, from: int)
    requires
        0 <= from <= ts.len(),
    ensures
        tool_config_index(ts, name, from) == -1 ==> forall|k: int|
            from <= k < ts.len() ==> ts[k].name@ != name,
        tool_config_index(ts, name, from) != -1 ==> from <= tool_config_index(ts, name, from)
            < ts.len() && ts[tool_config_index(ts, name, from)].name@ == name,
    decreases ts.len() - from,
{
    if from < ts.len() && ts[from].name@ != name {
        lemma_tool_config_index_works(ts, name, from + 1);
    }
}

impl Config {
    /// Get required tools for the default profile, "dev".
    pub fn get_required_tools(&self) -> (r: Vec<&str>)
        ensures
            r.deep_view() == tools_of_profile(self.profiles@, "dev"@),
    {
        self.get_tools_for_profile("dev")
    }

    /// Get the tool list of a profile; an unknown profile name falls back to
    /// the default tool list.
    #[verifier::loop_isolation(false)]
    pub fn get_tools_for_profile(&self, profile: &str) -> (r: Vec<&str>)
        ensures
            r.deep_view() == tools_of_profile(self.profiles@, profile@),
    {
        proof {
            lemma_profile_index_works(self.profiles@, profile@, 0);
        }
        let n = self.profiles.len();
        let mut k: usize = 0;
        while k < n
            invariant
                k <= n == self.profiles@.len(),
                forall|t: int| 0 <= t < k ==> self.profiles@[t].name@ != profile@,
            decreases n - k,
        {
            if str_eq(self.profiles[k].name.as_str(), profile) {
                proof {
                    assert(profile_index(self.profiles@, profile@, 0) == k as int) by {
                        lemma_profile_index_unique(self.profiles@, profile@, k as int);
                    }
                }
                let tools = &self.profiles[k].profile.tools;
                let mut out: Vec<&str> = Vec::new();
                let m = tools.len();
                let mut t: usize = 0;
                while t < m
                    invariant
                        t <= m == tools@.len(),
                        out@.len() == t,
                        forall|w: int| 0 <= w < t ==> out@[w]@ == tools@[w]@,
                    decreases m - t,
                {
                    out.push(tools[t].as_str());
                    t = t + 1;
                }
                proof {
                    assert(out.deep_view() =~= tools.deep_view());
                }
                return out;
            }
            k = k + 1;
        }
        let mut out: Vec<&str> = Vec::new();
        out.push("ripgrep");
        out.push("python-black");
        out.push("python-ruff");
        out.push("python-pylint");
        out.push("yamllint");
        out.push("pytest");
        out.push("actionlint");
        out.push("shellcheck");
        out.push("shfmt");
        proof {
            assert(out.deep_view() =~= default_tools());
        }
        out
    }

    /// Resolve the tool list of a profile and append the given overrides.
    #[verifier::loop_isolation(false)]
    pub fn resolve_tools(&self, profile: &str, overrides: &Vec<String>) -> (r: Vec<String>)
        ensures
            r.deep_view() == tools_of_profile(self.profiles@, profile@) + overrides.deep_view(),
    {
        let base = self.get_tools_for_profile(profile);
        let mut out: Vec<String> = Vec::new();
        let n = base.len();
        let mut k: usize = 0;
        while k < n
            invariant
                k <= n == base@.len(),
                out@.len() == k,
                forall|t: int| 0 <= t < k ==> out@[t]@ == base@[t]@,
            decreases n - k,
        {
            out.push(base[k].to_owned());
            k = k + 1;
        }
        let m = overrides.len();
        let mut t: usize = 0;
        while t < m
            invariant
                t <= m == overrides@.len(),
                out@.len() == n + t,
                forall|w: int| 0 <= w < n ==> out@[w]@ == base@[w]@,
                forall|w: int| 0 <= w < t ==> out@[n + w]@ == overrides@[w]@,
            decreases m - t,
        {
            out.push(overrides[t].clone());
            t = t + 1;
        }
        proof {
            assert(out.deep_view() =~= base.deep_view() + overrides.deep_view());
        }
        out
    }

    /// Get the configuration of one tool, if the file holds any.
    #[verifier::loop_isolation(false)]
    pub fn get_tool_config(&self, tool_id: &str) -> (r: Option<&ToolConfig>)
        ensures
            match r {
                Some(c) => tool_config_index(self.tools@, tool_id@, 0) >= 0 && c == &self.tools@[
                    tool_config_index(self.tools@, tool_id@, 0)
                ].config,
                None => tool_config_index(self.tools@, tool_id@, 0) == -1,
            },
    {
        proof {
            lemma_tool_config_index_works(self.tools@, tool_id@, 0);
        }
        let n = self.tools.len();
        let mut k: usize = 0;
        while k < n
            invariant
                k <= n == self.tools@.len(),
                forall|t: int| 0 <= t < k ==> self.tools@[t].name@ != tool_id@,
            decreases n - k,
        {
            if str_eq(self.tools[k].name.as_str(), tool_id) {
                proof {
                    lemma_tool_config_index_unique(self.tools@, tool_id@, k as int);
                }
                return Some(&self.tools[k].config);
            }
            k = k + 1;
        }
        None
    }

    /// The outcome of loading configuration: a parsed file is used as is; a
    /// missing file is an error in CI mode and the default configuration
    /// otherwise.
    pub fn resolve_loaded(parsed: Option<Config>, ci_mode: bool) -> (r: BootstrapResult<Config>)
        ensures
            match r {
                Ok(c) => (parsed_was_some(parsed, c) || (!ci_mode && c.profiles@.len() == 0
                    && c.tools@.len() == 0)),
                Err(e) => parsed is None && ci_mode && e matches BootstrapError::ConfigError(_),
            },
            parsed is Some ==> r is Ok,
            parsed is None && ci_mode ==> r is Err,
            parsed is None && !ci_mode ==> (r matches Ok(c) && c.profiles@.len() == 0
                && c.tools@.len() == 0),
    {
        match parsed {
            Some(c) => Ok(c),
            None => {
                if ci_mode {
                    Err(
                        BootstrapError::ConfigError(
                            ".bootstrap.toml is required in CI mode but was not found. Create a .bootstrap.toml file with at least a [profile.ci] section.".to_owned(),
                        ),
                    )
                } else {
                    Ok(Config::default())
                }
            },
        }
    }
}

/// Whether `parsed` held exactly the returned configuration.
pub open spec fn parsed_was_some(parsed: Option<Config>, c: Config) -> bool {
    parsed == Some(c)
}

impl Default for Config {
    /// The default configuration: no profiles and no tool settings.
    fn default() -> (r: Config)
        ensures
            r.profiles@.len() == 0,
            r.tools@.len() == 0,
    {
        Config { profiles: Vec::new(), tools: Vec::new() }
    }
}

/// Any index holding the name is the first one when all before it differ.
proof fn lemma_profile_index_unique(ps: Seq<ProfileEntry>, name: Seq<char>, w: int)
    requires
        0 <= w < ps.len(),
        ps[w].name@ == name,
        forall|t: int| 0 <= t < w ==> ps[t].name@ != name,
    ensures
        profile_index(ps, name, 0) == w,
    decreases w,
{
    lemma_profile_index_unique_from(ps, name, w, 0);
}

proof fn lemma_profile_index_unique_from(ps: Seq<ProfileEntry>, name: Seq<char>, w: int, from: int)
    requires
        0 <= from <= w < ps.len(),
        ps[w].name@ == name,
        forall|t: int| from <= t < w ==> ps[t].name@ != name,
    ensures
        profile_index(ps, name, from) == w,
    decreases w - from,
{
    if from < w {
        lemma_profile_index_unique_from(ps, name, w, from + 1);
    }
}

proof fn lemma_tool_config_index_unique(ts: Seq<ToolConfigEntry>, name: Seq<char>, w: int)
    requires
        0 <= w < ts.len(),
        ts[w].name@ == name,
        forall|t: int| 0 <= t < w ==> ts[t].name@ != name,
    ensures
        tool_config_index(ts, name, 0) == w,
{
    lemma_tool_config_index_unique_from(ts, name, w, 0);
}

proof fn lemma_tool_config_index_unique_from(
    ts: Seq<ToolConfigEntry>,
    name: Seq<char>,
    w: int,
    from: int,
)
    requires
        0 <= from <= w < ts.len(),
        ts[w].name@ == name,
        forall|t: int| from <= t < w ==> ts[t].name@ != name,
    ensures
        tool_config_index(ts, name, from) == w,
    decreases w - from,
{
    if from < w {
        lemma_tool_config_index_unique_from(ts, name, w, from + 1);
    }
}

} // verus!
