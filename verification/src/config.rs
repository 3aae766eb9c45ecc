//! Configuration: models, providers, agents and permissions.

pub mod laws;

use crate::auth::Auth;
use crate::paths;
use crate::strmap::StrMap;
use crate::text;
use vstd::prelude::*;
use vstd::string::*;

verus! {

/// Whether a tool may run.
#[derive(Debug, Clone, Copy, PartialEq, Eq, Structural)]
pub enum Permission {
    Allow,
    Ask,
    Deny,
}

/// The name of a permission.
pub open spec fn permission_name(p: Permission) -> Seq<char> {
    match p {
        Permission::Allow => "allow"@,
        Permission::Ask => "ask"@,
        Permission::Deny => "deny"@,
    }
}

impl Permission {
    /// The name of the permission.
    pub fn display(&self) -> (s: String)
        ensures
            s@ == permission_name(*self),
    {
        match self {
            Permission::Allow => "allow".to_owned(),
            Permission::Ask => "ask".to_owned(),
            Permission::Deny => "deny".to_owned(),
        }
    }
}

/// The longest answer that is asked for where nothing is configured.
pub const DEFAULT_MAX_TOKENS: u32 = 4096;

/// Where DeepSeek is unless something else is configured.
pub const DEFAULT_DEEPSEEK_BASE_URL: &'static str = "https://api.deepseek.com/v1";

/// Where GitHub Models is unless something else is configured.
pub const DEFAULT_GITHUB_BASE_URL: &'static str = "https://models.github.ai/inference";

/// Where Ollama is unless something else is configured.
pub const DEFAULT_OLLAMA_BASE_URL: &'static str = "http://localhost:11434";

/// Where something of the configuration is kept: in the user's configuration
/// directory where there is a home directory, else in the current directory.
pub open spec fn kept_at(home: Option<Seq<char>>, name: Seq<char>) -> Seq<char> {
    match home {
        Some(h) => paths::joined(paths::joined(paths::joined(h, ".config"@), "mote"@), name),
        None => name,
    }
}

/// Where something of the configuration is kept.
pub fn config_location(home: Option<&str>, name: &str) -> (s: String)
    ensures
        s@ == kept_at(
            match home {
                Some(h) => Some(h@),
                None => None,
            },
            name@,
        ),
{
    match home {
        Some(h) => {
            let config = paths::join_path(h, ".config");
            let mote = paths::join_path(config.as_str(), "mote");
            paths::join_path(mote.as_str(), name)
        },
        None => name.to_owned(),
    }
}

/// The whole configuration.
#[derive(Debug)]
pub struct Config {
    pub model: ModelConfig,
    pub providers: ProvidersConfig,
    pub history: HistoryConfig,
    pub prompts: PromptConfig,
    pub ui: UiConfig,
    pub agents: StrMap<AgentConfig>,
    pub permissions: GlobalPermissionConfig,
    pub server: ServerConfig,
    pub logging: LoggingConfig,
}

/// The model that is used unless something else is said.
#[derive(Debug)]
pub struct ModelConfig {
    pub provider: String,
    pub model_id: String,
    /// The bits of the single-precision sampling temperature.
    pub temperature: u32,
    pub max_tokens: u32,
}

#[derive(Debug)]
pub struct ProvidersConfig {
    pub deepseek: Option<ProviderDeepSeek>,
    pub github: Option<ProviderGitHub>,
    pub ollama: Option<ProviderOllama>,
}

#[derive(Debug)]
pub struct ProviderDeepSeek {
    /// The key; one in the credentials file goes before it.
    pub api_key: Option<String>,
    pub base_url: String,
    pub default_model: Option<String>,
    pub default_max_tokens: Option<u32>,
}

#[derive(Debug)]
pub struct ProviderGitHub {
    pub base_url: String,
    pub default_model: Option<String>,
    pub default_max_tokens: Option<u32>,
}

#[derive(Debug)]
pub struct ProviderOllama {
    pub base_url: String,
    pub default_model: Option<String>,
    pub default_max_tokens: Option<u32>,
}

#[derive(Debug)]
pub struct HistoryConfig {
    pub dir: String,
}

/// The files that the system prompt is made of.
#[derive(Debug)]
pub struct PromptConfig {
    pub default: String,
    pub model_specific: Option<String>,
    pub instructions: Vec<String>,
}

impl Default for PromptConfig {
    fn default() -> (p: PromptConfig)
        ensures
            p.default@ == "prompts/default.txt"@,
            p.model_specific is None,
            p.instructions@.len() == 0,
    {
        PromptConfig {
            default: "prompts/default.txt".to_owned(),
            model_specific: None,
            instructions: Vec::new(),
        }
    }
}

/// Colours of the client.
#[derive(Debug)]
pub struct UiConfig {
    pub input_accent: String,
    pub user_accent: String,
}

impl Default for UiConfig {
    fn default() -> (u: UiConfig)
        ensures
            u.input_accent@ == "cyan"@,
            u.user_accent@ == "cyan"@,
    {
        UiConfig { input_accent: "cyan".to_owned(), user_accent: "cyan".to_owned() }
    }
}

/// How the server listens and how long a task may take.
#[derive(Debug)]
pub struct ServerConfig {
    pub port: u16,
    pub max_steps: usize,
    /// The agent of a request that names none.
    pub default_agent: String,
}

impl Default for ServerConfig {
    fn default() -> (s: ServerConfig)
        ensures
            s.port == 9847,
            s.max_steps == 10,
            s.default_agent@ == "default"@,
    {
        ServerConfig { port: 9847, max_steps: 10, default_agent: "default".to_owned() }
    }
}

#[derive(Debug)]
pub struct LoggingConfig {
    pub dir: String,
}

/// What is different for one agent.
#[derive(Debug)]
pub struct AgentConfig {
    pub model: Option<String>,
    pub model_specific: Option<String>,
    pub default: Option<String>,
    /// The bits of the single-precision sampling temperature.
    pub temperature: Option<u32>,
    pub max_tokens: Option<u32>,
    pub permissions: StrMap<Permission>,
    /// What the agent is told in its system prompt.
    pub instructions: Option<String>,
    /// `primary`, `subagent` or `all`.
    pub mode: String,
}

impl Default for AgentConfig {
    fn default() -> (a: AgentConfig)
        ensures
            a.model is None,
            a.model_specific is None,
            a.default is None,
            a.temperature is None,
            a.max_tokens is None,
            a.permissions@ == Map::<Seq<char>, Permission>::empty(),
            a.instructions is None,
            a.mode@ == "primary"@,
    {
        AgentConfig {
            model: None,
            model_specific: None,
            default: None,
            temperature: None,
            max_tokens: None,
            permissions: StrMap::new(),
            instructions: None,
            mode: "primary".to_owned(),
        }
    }
}

/// Whether users may pick an agent of this mode.
pub open spec fn selectable(mode: Seq<char>) -> bool {
    mode == "primary"@ || mode == "all"@
}

/// Whether other agents may delegate to an agent of this mode.
pub open spec fn callable(mode: Seq<char>) -> bool {
    mode == "subagent"@ || mode == "all"@
}

impl AgentConfig {
    /// Whether users may pick the agent.
    pub fn is_user_selectable(&self) -> (b: bool)
        ensures
            b == selectable(self.mode@),
    {
        text::same(self.mode.as_str(), "primary") || text::same(self.mode.as_str(), "all")
    }

    /// Whether other agents may delegate to the agent.
    pub fn is_subagent_callable(&self) -> (b: bool)
        ensures
            b == callable(self.mode@),
    {
        text::same(self.mode.as_str(), "subagent") || text::same(self.mode.as_str(), "all")
    }

    /// Whether `a` is the same agent with a mode that there is: another one
    /// becomes `primary`.
    pub open spec fn is_with_known_mode(&self, a: AgentConfig) -> bool {
        if selectable(self.mode@) || callable(self.mode@) {
            a == *self
        } else {
            a.mode@ == "primary"@ && a == (AgentConfig { mode: a.mode, ..*self })
        }
    }

    /// The agent with a mode that there is: another one becomes `primary`.
    pub fn with_known_mode(self) -> (a: AgentConfig)
        ensures
            self.is_with_known_mode(a),
    {
        if self.is_user_selectable() || self.is_subagent_callable() {
            self
        } else {
            let mut a = self;
            a.mode = "primary".to_owned();
            a
        }
    }
}

/// Permissions for all agents.
#[derive(Debug)]
pub struct GlobalPermissionConfig {
    pub default: Permission,
    pub tools: StrMap<Permission>,
}

impl Default for GlobalPermissionConfig {
    fn default() -> (g: GlobalPermissionConfig)
        ensures
            g.default == Permission::Ask,
            g.tools@ == Map::<Seq<char>, Permission>::empty(),
    {
        GlobalPermissionConfig { default: Permission::Ask, tools: StrMap::new() }
    }
}

// ---- references to environment variables ----

/// A character that the name of a variable starts with.
pub open spec fn starts_name(c: char) -> bool {
    ('A' <= c && c <= 'Z') || ('a' <= c && c <= 'z') || c == '_'
}

/// A character that the name of a variable goes on with.
pub open spec fn continues_name(c: char) -> bool {
    starts_name(c) || ('0' <= c && c <= '9')
}

/// How many characters of `s` go on with a name.
pub open spec fn name_len(s: Seq<char>) -> nat
    decreases s.len(),
{
    if s.len() > 0 && continues_name(s[0]) {
        1 + name_len(s.skip(1))
    } else {
        0
    }
}

/// The length of the reference that `s` starts with, and the variable that it
/// names: `${...}` with anything but a closing brace inside, or `$` and a name.
pub open spec fn reference_at(s: Seq<char>) -> Option<(nat, Seq<char>)> {
    if s.len() >= 2 && s[0] == '$' && s[1] == '{' {
        match text::find(s.skip(2), seq!['}']) {
            Some(k) => if k > 0 {
                Some((k + 3, s.subrange(2, (k + 2) as int)))
            } else {
                None
            },
            None => None,
        }
    } else if s.len() >= 2 && s[0] == '$' && starts_name(s[1]) {
        let n = 1 + name_len(s.skip(2));
        Some((n + 1, s.subrange(1, (n + 1) as int)))
    } else {
        None
    }
}

/// Where the first reference in `s` is.
pub open spec fn reference_start(s: Seq<char>) -> Option<nat>
    decreases s.len(),
{
    if s.len() == 0 {
        None
    } else if reference_at(s) is Some {
        Some(0nat)
    } else {
        match reference_start(s.skip(1)) {
            Some(k) => Some(k + 1),
            None => None,
        }
    }
}

/// A text with its first reference told apart.
pub struct ReferenceView {
    pub before: Seq<char>,
    pub reference: Seq<char>,
    pub name: Seq<char>,
    pub after: Seq<char>,
}

/// `s` with its first reference told apart.
pub open spec fn first_reference(s: Seq<char>) -> Option<ReferenceView> {
    match reference_start(s) {
        Some(k) => {
            let r = reference_at(s.skip(k as int))->0;
            Some(
                ReferenceView {
                    before: s.take(k as int),
                    reference: s.subrange(k as int, (k + r.0) as int),
                    name: r.1,
                    after: s.skip((k + r.0) as int),
                },
            )
        },
        None => None,
    }
}

/// A text with its first reference told apart.
pub struct Reference {
    pub before: String,
    pub reference: String,
    pub name: String,
    pub after: String,
}

/// Calls `regex::Regex::captures` with a pattern for references to variables:
/// the leftmost match, the text around it, and the name that its groups hold.
#[verifier::external_body]
fn find_reference(val: &str) -> (r: Option<Reference>)
    ensures
        match r {
            Some(f) => first_reference(val@) == Some(
                ReferenceView {
                    before: f.before@,
                    reference: f.reference@,
                    name: f.name@,
                    after: f.after@,
                },
            ),
            None => first_reference(val@) is None,
        },
{
    let pattern = regex::Regex::new(r"\$\{([^}]+)\}|\$([A-Za-z_][A-Za-z0-9_]*)").unwrap();
    let caps = pattern.captures(val)?;
    let whole = caps.get(0)?;
    let name = caps.get(1).or_else(|| caps.get(2))?;
    Some(
        Reference {
            before: val[..whole.start()].to_owned(),
            reference: whole.as_str().to_owned(),
            name: name.as_str().to_owned(),
            after: val[whole.end()..].to_owned(),
        },
    )
}

/// What a reference stands for; one to a variable that is not set stands for
/// itself.
pub open spec fn reference_value(
    name: Seq<char>,
    reference: Seq<char>,
    env: Map<Seq<char>, String>,
) -> Seq<char> {
    if env.contains_key(name) {
        env[name]@
    } else {
        reference
    }
}

/// `s` with the references to variables replaced by their values.
pub open spec fn expanded(s: Seq<char>, env: Map<Seq<char>, String>) -> Seq<char>
    decreases s.len(),
{
    match first_reference(s) {
        Some(f) => if f.after.len() < s.len() {
            f.before + reference_value(f.name, f.reference, env) + expanded(f.after, env)
        } else {
            s
        },
        None => s,
    }
}

proof fn lemma_name_len(s: Seq<char>)
    ensures
        name_len(s) <= s.len(),
    decreases s.len(),
{
    if s.len() > 0 && continues_name(s[0]) {
        lemma_name_len(s.skip(1));
    }
}

proof fn lemma_reference_at(s: Seq<char>)
    ensures
        reference_at(s) matches Some(r) ==> 2 <= r.0 <= s.len(),
{
    if s.len() >= 2 {
        text::lemma_find_bounds(s.skip(2), seq!['}']);
        lemma_name_len(s.skip(2));
    }
}

proof fn lemma_reference_start(s: Seq<char>)
    ensures
        reference_start(s) matches Some(k) ==> k < s.len() && reference_at(s.skip(k as int)) is Some
            && s[k as int] == '$',
    decreases s.len(),
{
    assert(s.skip(0) =~= s);
    if s.len() > 0 && reference_at(s) is None {
        lemma_reference_start(s.skip(1));
        if let Some(k) = reference_start(s.skip(1)) {
            assert(s.skip(1).skip(k as int) =~= s.skip((k + 1) as int));
        }
    }
}

/// The parts of a text around its first reference make up the text.
pub proof fn law_reference_parts(s: Seq<char>)
    ensures
        first_reference(s) matches Some(f) ==> f.before + f.reference + f.after == s
            && f.reference.len() >= 2 && f.after.len() < s.len() && f.reference[0] == '$',
{
    lemma_reference_start(s);
    if let Some(k) = reference_start(s) {
        lemma_reference_at(s.skip(k as int));
        let f = first_reference(s)->0;
        assert(f.before + f.reference + f.after =~= s);
    }
}

/// A text without a dollar sign stays as it is.
pub proof fn law_plain_text_is_kept(s: Seq<char>, env: Map<Seq<char>, String>)
    requires
        !s.contains('$'),
    ensures
        expanded(s, env) == s,
{
    lemma_reference_start(s);
    if let Some(k) = reference_start(s) {
        assert(s.contains(s[k as int]));
    }
}

/// Where no variable is set, every text stays as it is.
pub proof fn law_unset_variables_are_kept(s: Seq<char>, env: Map<Seq<char>, String>)
    requires
        forall|name: Seq<char>| !env.contains_key(name),
    ensures
        expanded(s, env) == s,
    decreases s.len(),
{
    law_reference_parts(s);
    if let Some(f) = first_reference(s) {
        law_unset_variables_are_kept(f.after, env);
    }
}

// ---- what is effective ----

/// What stands before the first slash and what behind it.
pub open spec fn provider_and_model(s: Seq<char>) -> Option<(Seq<char>, Seq<char>)> {
    match text::find(s, "/"@) {
        Some(k) => Some((s.take(k as int), s.skip((k + "/"@.len()) as int))),
        None => None,
    }
}

/// What an agent resolves a permission to: its own, else that of all agents
/// for the tool, else the default.
pub open spec fn resolved_permission(
    agent: Option<Map<Seq<char>, Permission>>,
    tools: Map<Seq<char>, Permission>,
    default: Permission,
    tool: Seq<char>,
) -> Permission {
    if agent matches Some(own) && own.contains_key(tool) {
        agent->0[tool]
    } else if tools.contains_key(tool) {
        tools[tool]
    } else {
        default
    }
}

impl Config {
    /// The provider that requests go to; an agent may name another in its model.
    pub open spec fn provider_for(&self, agent_model: Option<Seq<char>>) -> Seq<char> {
        match agent_model {
            Some(m) => match provider_and_model(m) {
                Some(pm) => pm.0,
                None => self.model.provider@,
            },
            None => self.model.provider@,
        }
    }

    /// The model that the configured provider uses where it sets one.
    pub open spec fn provider_default_model(&self) -> Option<Seq<char>> {
        let name = self.model.provider@;
        if name == "deepseek"@ {
            match self.providers.deepseek {
                Some(p) => text::opt_view(p.default_model),
                None => None,
            }
        } else if name == "github"@ {
            match self.providers.github {
                Some(p) => text::opt_view(p.default_model),
                None => None,
            }
        } else if name == "ollama"@ {
            match self.providers.ollama {
                Some(p) => text::opt_view(p.default_model),
                None => None,
            }
        } else {
            None
        }
    }

    /// The model that is asked for.
    pub open spec fn model_for(&self, agent_model: Option<Seq<char>>) -> Seq<char> {
        match agent_model {
            Some(m) => match provider_and_model(m) {
                Some(pm) => pm.1,
                None => m,
            },
            None => match self.provider_default_model() {
                Some(m) => m,
                None => self.model.model_id@,
            },
        }
    }

    /// The longest answer that is asked for: what the agent says, else the
    /// provider, else the model.
    pub open spec fn max_tokens_for(&self, agent: Option<u32>, provider: Seq<char>) -> u32 {
        let own = if provider == "deepseek"@ {
            match self.providers.deepseek {
                Some(p) => p.default_max_tokens,
                None => None,
            }
        } else if provider == "github"@ {
            match self.providers.github {
                Some(p) => p.default_max_tokens,
                None => None,
            }
        } else if provider == "ollama"@ {
            match self.providers.ollama {
                Some(p) => p.default_max_tokens,
                None => None,
            }
        } else {
            None
        };
        match agent {
            Some(n) => n,
            None => match own {
                Some(n) => n,
                None => self.model.max_tokens,
            },
        }
    }

    /// The key for DeepSeek: the one in the credentials goes before the one in
    /// the configuration.
    pub open spec fn deepseek_key(&self, auth: Auth, env: Map<Seq<char>, String>) -> Result<
        Seq<char>,
        Seq<char>,
    > {
        let configured = match self.providers.deepseek {
            Some(p) => text::opt_view(p.api_key),
            None => None,
        };
        match (auth.key_of("deepseek"@), configured) {
            (Some(key), _) => Ok(expanded(key, env)),
            (None, Some(key)) => Ok(expanded(key, env)),
            (None, None) => Err(
                "No DeepSeek API key found. Add it to ~/.config/mote/auth.json: {\"deepseek\":{\"api_key\":\"sk-...\"}}"@,
            ),
        }
    }

    /// Where DeepSeek is.
    pub open spec fn deepseek_url(&self, env: Map<Seq<char>, String>) -> Result<
        Seq<char>,
        Seq<char>,
    > {
        match self.providers.deepseek {
            Some(p) => Ok(text::trim_end_char(expanded(p.base_url@, env), '/')),
            None => Err("DeepSeek not configured"@),
        }
    }

    /// Where Ollama is.
    pub open spec fn ollama_url(&self, env: Map<Seq<char>, String>) -> Result<
        Seq<char>,
        Seq<char>,
    > {
        match self.providers.ollama {
            Some(p) => Ok(text::trim_end_char(expanded(p.base_url@, env), '/')),
            None => Err("Ollama not configured"@),
        }
    }

    /// Where GitHub Models is.
    pub open spec fn github_url(&self, env: Map<Seq<char>, String>) -> Seq<char> {
        text::trim_end_char(
            expanded(
                match self.providers.github {
                    Some(p) => p.base_url@,
                    None => DEFAULT_GITHUB_BASE_URL@,
                },
                env,
            ),
            '/',
        )
    }

    /// The provider that requests go to.
    pub fn effective_provider(&self, agent_override: Option<&str>) -> (s: String)
        ensures
            s@ == self.provider_for(
                match agent_override {
                    Some(m) => Some(m@),
                    None => None,
                },
            ),
    {
        match agent_override {
            Some(m) => match text::split_once_str(m, "/") {
                Some((provider, _)) => provider,
                None => self.model.provider.clone(),
            },
            None => self.model.provider.clone(),
        }
    }

    /// The model that is asked for.
    pub fn effective_model_id(&self, agent_override: Option<&str>) -> (s: String)
        ensures
            s@ == self.model_for(
                match agent_override {
                    Some(m) => Some(m@),
                    None => None,
                },
            ),
    {
        match agent_override {
            Some(m) => match text::split_once_str(m, "/") {
                Some((_, model)) => model,
                None => m.to_owned(),
            },
            None => {
                let name = self.model.provider.as_str();
                let own: Option<String> = if text::same(name, "deepseek") {
                    match &self.providers.deepseek {
                        Some(p) => text::clone_opt(&p.default_model),
                        None => None,
                    }
                } else if text::same(name, "github") {
                    match &self.providers.github {
                        Some(p) => text::clone_opt(&p.default_model),
                        None => None,
                    }
                } else if text::same(name, "ollama") {
                    match &self.providers.ollama {
                        Some(p) => text::clone_opt(&p.default_model),
                        None => None,
                    }
                } else {
                    None
                };
                match own {
                    Some(m) => m,
                    None => self.model.model_id.clone(),
                }
            },
        }
    }

    /// Provider and model, as they are shown.
    pub fn effective_model_info(&self, agent_override: Option<&str>) -> (s: String)
        ensures
            ({
                let m = match agent_override {
                    Some(m) => Some(m@),
                    None => None,
                };
                s@ == self.provider_for(m) + "/"@ + self.model_for(m)
            }),
    {
        let provider = self.effective_provider(agent_override);
        let model = self.effective_model_id(agent_override);
        text::cat3(provider.as_str(), "/", model.as_str())
    }

    /// The bits of the sampling temperature: what the agent says, else the model.
    pub fn effective_temperature(&self, agent_override: Option<u32>) -> (t: u32)
        ensures
            t == match agent_override {
                Some(t) => t,
                None => self.model.temperature,
            },
    {
        match agent_override {
            Some(t) => t,
            None => self.model.temperature,
        }
    }

    /// The longest answer that is asked for.
    pub fn effective_max_tokens(&self, agent_override: Option<u32>, provider_name: &str) -> (n: u32)
        ensures
            n == self.max_tokens_for(agent_override, provider_name@),
    {
        match agent_override {
            Some(n) => {
                return n;
            },
            None => {},
        }
        let own: Option<u32> = if text::same(provider_name, "deepseek") {
            match &self.providers.deepseek {
                Some(p) => p.default_max_tokens,
                None => None,
            }
        } else if text::same(provider_name, "github") {
            match &self.providers.github {
                Some(p) => p.default_max_tokens,
                None => None,
            }
        } else if text::same(provider_name, "ollama") {
            match &self.providers.ollama {
                Some(p) => p.default_max_tokens,
                None => None,
            }
        } else {
            None
        };
        match own {
            Some(n) => n,
            None => self.model.max_tokens,
        }
    }

    /// The colour of the input area.
    pub fn input_accent(&self) -> (s: &str)
        ensures
            s@ == self.ui.input_accent@,
    {
        self.ui.input_accent.as_str()
    }

    /// The colour of the user's messages.
    pub fn user_accent(&self) -> (s: &str)
        ensures
            s@ == self.ui.user_accent@,
    {
        self.ui.user_accent.as_str()
    }

    /// The names of the agents, in order.
    pub fn agent_names(&self) -> (names: Vec<String>)
        ensures
            text::is_sorted(text::views(names@)),
            text::views(names@).no_duplicates(),
            forall|k: Seq<char>| #[trigger]
                text::views(names@).contains(k) <==> self.agents@.contains_key(k),
    {
        self.agents.key_facts();
        let names = text::sorted_strings(self.agents.keys());
        proof {
            text::lemma_reordered(text::views(names@), self.agents.key_list());
        }
        names
    }

    /// `val` with the references to environment variables replaced.
    pub fn expand(val: &str, env: &StrMap<String>) -> (s: String)
        ensures
            s@ == expanded(val@, env@),
    {
        let mut out = String::new();
        let mut rest = val.to_owned();
        assert(out@ + expanded(rest@, env@) =~= expanded(val@, env@));
        loop
            invariant
                out@ + expanded(rest@, env@) == expanded(val@, env@),
            decreases rest@.len(),
        {
            proof {
                law_reference_parts(rest@);
            }
            match find_reference(rest.as_str()) {
                Some(f) => {
                    let ghost so_far = out@;
                    let ghost value = reference_value(f.name@, f.reference@, env@);
                    out.append(f.before.as_str());
                    match env.get(f.name.as_str()) {
                        Some(v) => out.append(v.as_str()),
                        None => out.append(f.reference.as_str()),
                    }
                    assert(out@ =~= so_far + f.before@ + value);
                    assert(out@ + expanded(f.after@, env@) =~= so_far + (f.before@ + value
                        + expanded(f.after@, env@)));
                    rest = f.after;
                },
                None => {
                    out.append(rest.as_str());
                    return out;
                },
            }
        }
    }

    /// `url` with variables replaced and without slashes at its end.
    fn expand_url(url: &str, env: &StrMap<String>) -> (s: String)
        ensures
            s@ == text::trim_end_char(expanded(url@, env@), '/'),
    {
        text::trim_end_char_str(Config::expand(url, env).as_str(), '/')
    }

    /// The key for DeepSeek: the one in the credentials goes before the one in
    /// the configuration.
    pub fn resolve_deepseek_api_key(&self, auth: &Auth, env: &StrMap<String>) -> (r: Result<
        String,
        String,
    >)
        ensures
            text::result_view(r) == self.deepseek_key(*auth, env@),
    {
        match auth.api_key("deepseek") {
            Some(key) => {
                return Ok(Config::expand(key, env));
            },
            None => {},
        }
        match &self.providers.deepseek {
            Some(p) => match &p.api_key {
                Some(key) => {
                    return Ok(Config::expand(key.as_str(), env));
                },
                None => {},
            },
            None => {},
        }
        Err(
            "No DeepSeek API key found. Add it to ~/.config/mote/auth.json: {\"deepseek\":{\"api_key\":\"sk-...\"}}".to_owned(),
        )
    }

    /// The key of a provider that is only in the credentials.
    pub fn resolve_provider_api_key(
        &self,
        auth: &Auth,
        provider: &str,
        env: &StrMap<String>,
    ) -> (r: Result<String, String>)
        ensures
            text::result_view(r) == provider_key(*auth, provider@, env@),
    {
        match auth.api_key(provider) {
            Some(key) => Ok(Config::expand(key, env)),
            None => Err(
                text::cat3(
                    "No API key found for provider '",
                    provider,
                    "'. Add it to ~/.config/mote/auth.json",
                ),
            ),
        }
    }

    /// Where DeepSeek is.
    pub fn deepseek_base_url(&self, env: &StrMap<String>) -> (r: Result<String, String>)
        ensures
            text::result_view(r) == self.deepseek_url(env@),
    {
        match &self.providers.deepseek {
            Some(p) => Ok(Config::expand_url(p.base_url.as_str(), env)),
            None => Err("DeepSeek not configured".to_owned()),
        }
    }

    /// Where Ollama is.
    pub fn ollama_base_url(&self, env: &StrMap<String>) -> (r: Result<String, String>)
        ensures
            text::result_view(r) == self.ollama_url(env@),
    {
        match &self.providers.ollama {
            Some(p) => Ok(Config::expand_url(p.base_url.as_str(), env)),
            None => Err("Ollama not configured".to_owned()),
        }
    }

    /// Where a provider without settings of its own is.
    pub fn provider_base_url(&self, provider: &str) -> (r: Result<String, String>)
        ensures
            text::result_view(r) == provider_url(provider@),
    {
        if text::same(provider, "glm") {
            Ok("https://api.z.ai/api".to_owned())
        } else if text::same(provider, "kimi") {
            Ok("https://api.moonshot.ai".to_owned())
        } else if text::same(provider, "minimax") {
            Ok("https://api.minimax.io".to_owned())
        } else {
            Err(text::cat3("Provider '", provider, "' not configured"))
        }
    }

    /// The token for GitHub Models.
    pub fn resolve_github_token(&self, auth: &Auth, env: &StrMap<String>) -> (r: Result<
        String,
        String,
    >)
        ensures
            text::result_view(r) == github_token(*auth, env@),
    {
        match auth.token("github") {
            Some(token) => Ok(Config::expand(token, env)),
            None => Err(
                "No GitHub token found in auth.json. Run --login github first.".to_owned(),
            ),
        }
    }

    /// Where GitHub Models is.
    pub fn github_base_url(&self, env: &StrMap<String>) -> (r: Result<String, String>)
        ensures
            r matches Ok(s) && s@ == self.github_url(env@),
    {
        match &self.providers.github {
            Some(p) => Ok(Config::expand_url(p.base_url.as_str(), env)),
            None => Ok(Config::expand_url(DEFAULT_GITHUB_BASE_URL, env)),
        }
    }

    /// The model that GitHub Models uses where it sets one.
    pub fn github_default_model(&self) -> (r: Option<&str>)
        ensures
            match r {
                Some(s) => self.providers.github matches Some(p) && text::opt_view(p.default_model)
                    == Some(s@),
                None => self.providers.github matches Some(p) ==> p.default_model is None,
            },
    {
        match &self.providers.github {
            Some(p) => match &p.default_model {
                Some(m) => Some(m.as_str()),
                None => None,
            },
            None => None,
        }
    }

    /// The permission of an agent for a tool.
    pub fn resolve_permission(&self, agent_name: &str, tool_name: &str) -> (p: Permission)
        ensures
            p == resolved_permission(
                if self.agents@.contains_key(agent_name@) {
                    Some(self.agents@[agent_name@].permissions@)
                } else {
                    None
                },
                self.permissions.tools@,
                self.permissions.default,
                tool_name@,
            ),
    {
        match self.agents.get(agent_name) {
            Some(agent) => match agent.permissions.get(tool_name) {
                Some(p) => {
                    return *p;
                },
                None => {},
            },
            None => {},
        }
        match self.permissions.tools.get(tool_name) {
            Some(p) => *p,
            None => self.permissions.default,
        }
    }
}

/// The key of a provider that is only in the credentials.
pub open spec fn provider_key(auth: Auth, provider: Seq<char>, env: Map<Seq<char>, String>) -> Result<
    Seq<char>,
    Seq<char>,
> {
    match auth.key_of(provider) {
        Some(key) => Ok(expanded(key, env)),
        None => Err(
            "No API key found for provider '"@ + provider
                + "'. Add it to ~/.config/mote/auth.json"@,
        ),
    }
}

/// Where a provider without settings of its own is.
pub open spec fn provider_url(provider: Seq<char>) -> Result<Seq<char>, Seq<char>> {
    match known_base_url(provider) {
        Some(url) => Ok(url),
        None => Err("Provider '"@ + provider + "' not configured"@),
    }
}

/// The token for GitHub Models.
pub open spec fn github_token(auth: Auth, env: Map<Seq<char>, String>) -> Result<
    Seq<char>,
    Seq<char>,
> {
    match auth.token_of("github"@) {
        Some(token) => Ok(expanded(token, env)),
        None => Err("No GitHub token found in auth.json. Run --login github first."@),
    }
}

/// Where the providers without settings of their own are.
pub open spec fn known_base_url(provider: Seq<char>) -> Option<Seq<char>> {
    if provider == "glm"@ {
        Some("https://api.z.ai/api"@)
    } else if provider == "kimi"@ {
        Some("https://api.moonshot.ai"@)
    } else if provider == "minimax"@ {
        Some("https://api.minimax.io"@)
    } else {
        None
    }
}

/// Adds the agent that a file describes: it goes by the name of the file, and a
/// mode that there is not becomes `primary`. Other files are left out.
pub fn add_file_agent(agents: &mut StrMap<AgentConfig>, file_name: &str, agent: AgentConfig)
    ensures
        match paths::stem(file_name@, "toml"@) {
            Some(name) => final(agents)@ == old(agents)@.insert(name, final(agents)@[name])
                && agent.is_with_known_mode(final(agents)@[name]),
            None => final(agents)@ == old(agents)@,
        },
{
    match paths::stem_of(file_name, "toml") {
        Some(name) => {
            let known = agent.with_known_mode();
            agents.insert(name, known);
        },
        None => {},
    }
}

/// The agents of files and of the configuration together; where both have one
/// of a name, the one of the configuration counts.
pub fn all_agents(
    file_agents: StrMap<AgentConfig>,
    config_agents: StrMap<AgentConfig>,
) -> (agents: StrMap<AgentConfig>)
    ensures
        agents@ == file_agents@.union_prefer_right(config_agents@),
{
    file_agents.merged(config_agents)
}

/// An agent of the configuration goes before one of a file; an agent of a file
/// alone is kept.
pub proof fn law_configured_agents_win(
    file: Map<Seq<char>, AgentConfig>,
    config: Map<Seq<char>, AgentConfig>,
    name: Seq<char>,
)
    ensures
        ({
            let all = file.union_prefer_right(config);
            &&& all.contains_key(name) <==> file.contains_key(name) || config.contains_key(name)
            &&& config.contains_key(name) ==> all[name] == config[name]
            &&& file.contains_key(name) && !config.contains_key(name) ==> all[name] == file[name]
        }),
{
}

/// The permissions of an agent for some tools. Loading a skill and finishing
/// the task are always allowed.
pub open spec fn permission_map(
    agent: Option<Map<Seq<char>, Permission>>,
    tools: Map<Seq<char>, Permission>,
    default: Permission,
    names: Seq<Seq<char>>,
) -> Map<Seq<char>, Permission> {
    Map::new(
        |k: Seq<char>|
            names.contains(k) || k == "use_skill"@ || k == "finish_task"@ || k == "subagent"@,
        |k: Seq<char>|
            if k == "use_skill"@ || k == "finish_task"@ {
                Permission::Allow
            } else {
                resolved_permission(agent, tools, default, k)
            },
    )
}

/// The permission of an agent for a tool.
fn agent_permission(config: &Config, agent_cfg: Option<&AgentConfig>, tool: &str) -> (p: Permission)
    ensures
        p == resolved_permission(
            match agent_cfg {
                Some(a) => Some(a.permissions@),
                None => None,
            },
            config.permissions.tools@,
            config.permissions.default,
            tool@,
        ),
{
    match agent_cfg {
        Some(a) => match a.permissions.get(tool) {
            Some(p) => {
                return *p;
            },
            None => {},
        },
        None => {},
    }
    match config.permissions.tools.get(tool) {
        Some(p) => *p,
        None => config.permissions.default,
    }
}

/// The permissions of an agent for some tools.
pub fn build_permission_map(
    config: &Config,
    agent_cfg: Option<&AgentConfig>,
    tool_names: &Vec<String>,
) -> (perms: StrMap<Permission>)
    ensures
        perms@ == permission_map(
            match agent_cfg {
                Some(a) => Some(a.permissions@),
                None => None,
            },
            config.permissions.tools@,
            config.permissions.default,
            text::views(tool_names@),
        ),
{
    let ghost own = match agent_cfg {
        Some(a) => Some(a.permissions@),
        None => None,
    };
    let ghost names = text::views(tool_names@);
    let mut perms: StrMap<Permission> = StrMap::new();
    let mut i: usize = 0;
    while i < tool_names.len()
        invariant
            i <= tool_names.len(),
            names == text::views(tool_names@),
            own == match agent_cfg {
                Some(a) => Some(a.permissions@),
                None => None,
            },
            forall|k: Seq<char>| #[trigger]
                perms@.contains_key(k) <==> names.take(i as int).contains(k),
            forall|k: Seq<char>| #[trigger]
                perms@.contains_key(k) ==> perms@[k] == resolved_permission(
                    own,
                    config.permissions.tools@,
                    config.permissions.default,
                    k,
                ),
        decreases tool_names.len() - i,
    {
        let name = &tool_names[i];
        let ghost before = perms@;
        let p = agent_permission(config, agent_cfg, name.as_str());
        perms.insert(name.clone(), p);
        proof {
            let prior = names.take(i as int);
            let now = names.take(i + 1);
            assert(now =~= prior.push(name@));
            assert forall|k: Seq<char>| #[trigger] perms@.contains_key(k) <==> now.contains(k) by {
                if prior.contains(k) {
                    let j = choose|j: int| 0 <= j < prior.len() && prior[j] == k;
                    assert(now[j] == k);
                }
                if now.contains(k) && k != name@ {
                    let j = choose|j: int| 0 <= j < now.len() && now[j] == k;
                    assert(prior[j] == k);
                }
                if k == name@ {
                    assert(now[i as int] == k);
                }
                assert(before.contains_key(k) <==> prior.contains(k));
            }
        }
        i += 1;
    }
    assert(names.take(names.len() as int) =~= names);
    proof {
        reveal_strlit("use_skill");
        reveal_strlit("finish_task");
        reveal_strlit("subagent");
        assert("subagent"@.len() != "use_skill"@.len());
        assert("subagent"@.len() != "finish_task"@.len());
    }
    perms.insert("use_skill".to_owned(), Permission::Allow);
    perms.insert("finish_task".to_owned(), Permission::Allow);
    let p = agent_permission(config, agent_cfg, "subagent");
    perms.insert("subagent".to_owned(), p);
    assert(perms@ =~= permission_map(
        own,
        config.permissions.tools@,
        config.permissions.default,
        names,
    ));
    perms
}

/// Loading a skill and finishing the task are allowed whatever is configured.
pub proof fn law_skills_are_always_allowed(
    agent: Option<Map<Seq<char>, Permission>>,
    tools: Map<Seq<char>, Permission>,
    default: Permission,
    names: Seq<Seq<char>>,
)
    ensures
        permission_map(agent, tools, default, names).contains_key("use_skill"@),
        permission_map(agent, tools, default, names)["use_skill"@] == Permission::Allow,
        permission_map(agent, tools, default, names).contains_key("finish_task"@),
        permission_map(agent, tools, default, names)["finish_task"@] == Permission::Allow,
{
}

/// Permissions without a user to ask: what needs consent is allowed.
pub open spec fn unattended(perms: Map<Seq<char>, Permission>) -> Map<Seq<char>, Permission> {
    perms.map_values(
        |p: Permission|
            if p == Permission::Ask {
                Permission::Allow
            } else {
                p
            },
    )
}

/// Permissions after the user has allowed some tools for good.
pub open spec fn with_remembered(
    perms: Map<Seq<char>, Permission>,
    remembered: Seq<Seq<char>>,
) -> Map<Seq<char>, Permission> {
    Map::new(
        |k: Seq<char>| perms.contains_key(k),
        |k: Seq<char>|
            if perms[k] == Permission::Ask && remembered.contains(k) {
                Permission::Allow
            } else {
                perms[k]
            },
    )
}

/// Permissions without a user to ask.
pub fn unattended_permissions(perms: StrMap<Permission>) -> (r: StrMap<Permission>)
    ensures
        r@ == unattended(perms@),
{
    let keys = perms.keys();
    perms.key_facts();
    let ghost list = perms.key_list();
    let ghost start = perms@;
    let mut r = perms;
    let mut i: usize = 0;
    while i < keys.len()
        invariant
            i <= keys.len(),
            text::views(keys@) == list,
            r@.dom() == start.dom(),
            forall|k: Seq<char>| #[trigger]
                r@.contains_key(k) ==> r@[k] == start[k] || start[k] == Permission::Ask && r@[k]
                    == Permission::Allow,
            forall|j: int|
                0 <= j < i && start.contains_key(#[trigger] list[j]) ==> r@[list[j]]
                    != Permission::Ask,
        decreases keys.len() - i,
    {
        assert(list[i as int] == keys@[i as int]@);
        match r.get(keys[i].as_str()) {
            Some(p) => {
                if *p == Permission::Ask {
                    r.insert(keys[i].clone(), Permission::Allow);
                    assert(r@.dom() =~= start.dom());
                }
            },
            None => {},
        }
        i += 1;
    }
    assert forall|k: Seq<char>| start.contains_key(k) implies #[trigger] r@[k]
        == unattended(start)[k] by {
        assert(list.contains(k));
        let j = choose|j: int| 0 <= j < list.len() && list[j] == k;
        assert(start.contains_key(list[j]));
        assert(r@.contains_key(k));
    }
    assert(r@ =~= unattended(start));
    r
}

/// Permissions after the user has allowed some tools for good.
pub fn allow_remembered(perms: StrMap<Permission>, remembered: &Vec<String>) -> (r: StrMap<
    Permission,
>)
    ensures
        r@ == with_remembered(perms@, text::views(remembered@)),
{
    let ghost all = text::views(remembered@);
    let ghost start = perms@;
    let mut r = perms;
    let mut i: usize = 0;
    assert(r@ =~= with_remembered(start, all.take(0)));
    while i < remembered.len()
        invariant
            i <= remembered.len(),
            all == text::views(remembered@),
            r@ == with_remembered(start, all.take(i as int)),
        decreases remembered.len() - i,
    {
        let name = &remembered[i];
        let ghost prior = all.take(i as int);
        let ghost now = all.take(i + 1);
        assert(now =~= prior.push(name@));
        assert forall|k: Seq<char>| #[trigger] now.contains(k) <==> prior.contains(k) || k
            == name@ by {
            if prior.contains(k) {
                let j = choose|j: int| 0 <= j < prior.len() && prior[j] == k;
                assert(now[j] == k);
            }
            if now.contains(k) && k != name@ {
                let j = choose|j: int| 0 <= j < now.len() && now[j] == k;
                assert(prior[j] == k);
            }
            if k == name@ {
                assert(now[i as int] == k);
            }
        }
        match r.get(name.as_str()) {
            Some(p) => {
                if *p == Permission::Ask {
                    r.insert(name.clone(), Permission::Allow);
                }
            },
            None => {},
        }
        assert(r@ =~= with_remembered(start, now));
        i += 1;
    }
    assert(all.take(all.len() as int) =~= all);
    r
}

/// A tool that is denied stays denied, for subagents and whatever the user has
/// allowed before; and a subagent never has to ask.
pub proof fn law_denied_stays_denied(
    perms: Map<Seq<char>, Permission>,
    remembered: Seq<Seq<char>>,
    tool: Seq<char>,
)
    requires
        perms.contains_key(tool),
    ensures
        perms[tool] == Permission::Deny <==> unattended(perms)[tool] == Permission::Deny,
        perms[tool] == Permission::Deny <==> with_remembered(perms, remembered)[tool]
            == Permission::Deny,
        unattended(perms)[tool] != Permission::Ask,
{
}

/// The three modes of an agent: users pick primary agents, agents delegate to
/// subagents, and both do with agents of the mode `all`.
pub proof fn law_agent_modes()
    ensures
        selectable("primary"@) && !callable("primary"@),
        !selectable("subagent"@) && callable("subagent"@),
        selectable("all"@) && callable("all"@),
{
    reveal_strlit("primary");
    reveal_strlit("subagent");
    reveal_strlit("all");
    assert("primary"@.len() == 7);
    assert("subagent"@.len() == 8);
    assert("all"@.len() == 3);
}

} // verus!
