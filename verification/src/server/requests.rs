//! What requests ask for, and whether they are accepted.

use super::compaction;
use super::ServerState;
use crate::auth::Auth;
use crate::clock;
use crate::config;
use crate::config::{AgentConfig, Config, Permission};
use crate::json;
use crate::json::{Json, JsonView};
use crate::llm;
use crate::llm::{
    ChatMessage, ChatMessageView, ChatOptions, ChatOptionsView, Provider, ProviderView, Role,
};
use crate::paths;
use crate::prompt;
use crate::protocol::{
    ChatRequest, ChatRequestView, CompactRequest, HistoryMessage,
    HistoryMessageView, ModelInfo, ModelInfoView, SessionData, SessionInfo, UiConfig,
};
use crate::session;
use crate::session::{Message, Said, Session, SessionMeta};
use crate::strmap::StrMap;
use crate::text;
use crate::tools::defs;
use vstd::prelude::*;
use vstd::string::*;

verus! {

/// Whether a text names a saved session.
pub open spec fn is_session_id(id: Seq<char>) -> bool {
    id.len() > 0 && text::plain_name(id, "-_"@)
}

/// Whether a text names a client.
pub open spec fn is_session_key(key: Seq<char>) -> bool {
    key.len() > 0 && text::plain_name(key, "-_:"@)
}

/// Whether a text is one component of a path, whatever it is joined to.
pub open spec fn is_one_component(s: Seq<char>) -> bool {
    s.len() > 0 && !s.contains('/') && !s.contains('\\') && !s.contains('.')
}

proof fn lemma_one_component(s: Seq<char>, extra: Seq<char>)
    requires
        s.len() > 0,
        text::no_other_ascii(s, extra),
        !extra.contains('/') && !extra.contains('\\') && !extra.contains('.'),
    ensures
        is_one_component(s),
{
}

/// Checks the name of a saved session. A name that passes cannot lead out of
/// the directory that it is looked up in.
pub fn validate_session_id(id: &str) -> (b: bool)
    ensures
        b == is_session_id(id@),
        b ==> is_one_component(id@),
{
    let plain = text::is_plain_name(id, "-_");
    proof {
        reveal_strlit("-_");
        if plain && id@.len() > 0 {
            lemma_one_component(id@, "-_"@);
        }
    }
    !id.is_empty() && plain
}

/// Checks the name of a client. A name that passes cannot lead out of the
/// directory that it is looked up in.
pub fn validate_runtime_session_key(key: &str) -> (b: bool)
    ensures
        b == is_session_key(key@),
        b ==> is_one_component(key@),
{
    let plain = text::is_plain_name(key, "-_:");
    proof {
        reveal_strlit("-_:");
        if plain && key@.len() > 0 {
            lemma_one_component(key@, "-_:"@);
        }
    }
    !key.is_empty() && plain
}

/// The name of the client in the value of the header that gives it.
pub fn runtime_session_key_from_header(value: Option<&str>) -> (r: Option<String>)
    ensures
        text::opt_view(r) == match value {
            Some(v) => if is_session_key(text::trimmed(v@)) {
                Some(text::trimmed(v@))
            } else {
                None
            },
            None => None,
        },
        r matches Some(key) ==> is_one_component(key@),
{
    match value {
        Some(v) => {
            let key = text::trim_str(v);
            if validate_runtime_session_key(key.as_str()) {
                Some(key)
            } else {
                None
            }
        },
        None => None,
    }
}

/// What clients call a role; they are not shown the others.
pub open spec fn shown_role(role: Role) -> Option<Seq<char>> {
    match role {
        Role::User => Some("user"@),
        Role::Assistant => Some("assistant"@),
        _ => None,
    }
}

/// What clients call a role; they are not shown the others.
pub fn protocol_role_for_session(role: Role) -> (r: Option<&'static str>)
    ensures
        match r {
            Some(s) => shown_role(role) == Some(s@),
            None => shown_role(role) is None,
        },
{
    match role {
        Role::User => Some("user"),
        Role::Assistant => Some("assistant"),
        _ => None,
    }
}

/// Gives a session the identifier of the session that it continues.
pub fn apply_selected_session_id(session: &mut Session, selected_session_id: Option<&str>)
    ensures
        *final(session) == (Session { id: final(session).id, ..*old(session) }),
        final(session).id@ == match selected_session_id {
            Some(id) => id@,
            None => old(session).id@,
        },
{
    match selected_session_id {
        Some(id) => {
            session.id = id.to_owned();
        },
        None => {},
    }
}

/// Where the sessions of a client are kept.
pub fn history_dir_for_session(base_history_dir: &str, runtime_session_key: &str) -> (s: String)
    ensures
        s@ == paths::joined(base_history_dir@, runtime_session_key@),
{
    paths::join_path(base_history_dir, runtime_session_key)
}

/// The file that keeps a session.
pub open spec fn session_path(base: Seq<char>, key: Seq<char>, id: Seq<char>) -> Seq<char> {
    paths::joined(paths::joined(base, key), id + ".md"@)
}

/// The file that keeps a session.
pub fn session_file(base_history_dir: &str, runtime_session_key: &str, id: &str) -> (s: String)
    ensures
        s@ == session_path(base_history_dir@, runtime_session_key@, id@),
{
    let dir = history_dir_for_session(base_history_dir, runtime_session_key);
    paths::join_path(dir.as_str(), text::cat2(id, ".md").as_str())
}

/// The file of a session stands in the directory of its client, and that in the
/// directory of all sessions, whatever names pass for the client and the
/// session.
pub proof fn law_session_files_stay_in_place(base: Seq<char>, key: Seq<char>, id: Seq<char>)
    requires
        base.len() > 0,
        is_one_component(key),
        is_one_component(id),
    ensures
        paths::components(session_path(base, key, id)) == paths::components(base).push(key).push(
            id + ".md"@,
        ),
        paths::within(session_path(base, key, id), base),
        key != ".."@,
        id + ".md"@ != ".."@,
{
    reveal_strlit(".");
    reveal_strlit("..");
    reveal_strlit(".md");
    let dir = paths::joined(base, key);
    let name = id + ".md"@;
    assert("."@[0] == '.');
    assert(".."@[0] == '.');
    assert("."@.contains('.'));
    assert(".."@.contains('.'));
    assert(name[0] == id[0]);
    assert(id.contains(id[0]));
    assert(key.contains(key[0]));
    assert(!name.contains('/')) by {
        if name.contains('/') {
            let i = choose|i: int| 0 <= i < name.len() && name[i] == '/';
            if i < id.len() {
                assert(id[i] == '/');
            } else {
                assert(".md"@[i - id.len()] == '/');
            }
        }
    }
    paths::law_names_stay_below(base, key);
    paths::law_names_stay_below(dir, name);
    let all = paths::components(session_path(base, key, id));
    let top = paths::components(base);
    assert(all.take(top.len() as int) =~= top);
}

/// What is found where a request says that the workspace is.
#[derive(Debug)]
pub struct WorkspaceFacts {
    pub exists: bool,
    /// The path without links, or why there is none.
    pub canonical: Result<String, String>,
    pub is_dir: bool,
}

/// Where a request works and for whom.
#[derive(Debug)]
pub struct RequestContext {
    pub workspace: String,
    pub runtime_session_key: String,
    pub repo_agents_md: Option<String>,
}

/// The model of [`RequestContext`].
pub struct RequestContextView {
    pub workspace: Seq<char>,
    pub runtime_session_key: Seq<char>,
    pub repo_agents_md: Option<Seq<char>>,
}

impl View for RequestContext {
    type V = RequestContextView;

    open spec fn view(&self) -> RequestContextView {
        RequestContextView {
            workspace: self.workspace@,
            runtime_session_key: self.runtime_session_key@,
            repo_agents_md: text::opt_view(self.repo_agents_md),
        }
    }
}

/// The workspace of a request, or why it has none.
pub open spec fn workspace_of(
    root: Option<Seq<char>>,
    exists: bool,
    canonical: Result<Seq<char>, Seq<char>>,
    is_dir: bool,
) -> Result<Seq<char>, Seq<char>> {
    match root {
        None => Err("Missing workspace_root in chat request"@),
        Some(path) => if !paths::absolute(path) {
            Err("workspace_root must be an absolute path"@)
        } else if !exists {
            Err("workspace_root does not exist: "@ + path)
        } else {
            match canonical {
                Err(e) => Err("Failed to canonicalize workspace_root "@ + path + ": "@ + e),
                Ok(workspace) => if !is_dir {
                    Err("workspace_root is not a directory: "@ + workspace)
                } else {
                    Ok(workspace)
                },
            }
        },
    }
}

/// Where a request works and for whom, or why it is refused.
pub open spec fn context_of(
    root: Option<Seq<char>>,
    key: Option<Seq<char>>,
    repo_agents_md: Option<Seq<char>>,
    exists: bool,
    canonical: Result<Seq<char>, Seq<char>>,
    is_dir: bool,
) -> Result<RequestContextView, Seq<char>> {
    match workspace_of(root, exists, canonical, is_dir) {
        Err(e) => Err(e),
        Ok(workspace) => match key {
            None => Err("Missing runtime_session_key in chat request"@),
            Some(runtime_session_key) => if is_session_key(runtime_session_key) {
                Ok(RequestContextView { workspace, runtime_session_key, repo_agents_md })
            } else {
                Err("Invalid runtime_session_key"@)
            },
        },
    }
}

/// The model of a context or of the reason why there is none.
pub open spec fn context_result(r: Result<RequestContext, String>) -> Result<
    RequestContextView,
    Seq<char>,
> {
    match r {
        Ok(c) => Ok(c@),
        Err(e) => Err(e@),
    }
}

fn resolve_workspace(root: &Option<String>, found: &WorkspaceFacts) -> (r: Result<String, String>)
    ensures
        text::result_view(r) == workspace_of(
            text::opt_view(*root),
            found.exists,
            text::result_view(found.canonical),
            found.is_dir,
        ),
{
    let path = match root {
        Some(path) => path.as_str(),
        None => {
            return Err("Missing workspace_root in chat request".to_owned());
        },
    };
    if !paths::is_absolute(path) {
        return Err("workspace_root must be an absolute path".to_owned());
    }
    if !found.exists {
        return Err(text::cat2("workspace_root does not exist: ", path));
    }
    match &found.canonical {
        Ok(workspace) => if found.is_dir {
            Ok(workspace.clone())
        } else {
            Err(text::cat2("workspace_root is not a directory: ", workspace.as_str()))
        },
        Err(e) => {
            let mut message = text::cat3("Failed to canonicalize workspace_root ", path, ": ");
            message.append(e.as_str());
            Err(message)
        },
    }
}

/// Where a request works and for whom, given what is found where it says that
/// the workspace is.
pub fn resolve_request_context(request: &ChatRequest, found: &WorkspaceFacts) -> (r: Result<
    RequestContext,
    String,
>)
    ensures
        context_result(r) == context_of(
            request@.workspace_root,
            request@.runtime_session_key,
            request@.repo_agents_md,
            found.exists,
            text::result_view(found.canonical),
            found.is_dir,
        ),
        r matches Ok(c) ==> is_one_component(c.runtime_session_key@),
{
    let workspace = match resolve_workspace(&request.workspace_root, found) {
        Ok(workspace) => workspace,
        Err(e) => {
            return Err(e);
        },
    };
    match &request.runtime_session_key {
        None => Err("Missing runtime_session_key in chat request".to_owned()),
        Some(key) => if validate_runtime_session_key(key.as_str()) {
            Ok(
                RequestContext {
                    workspace,
                    runtime_session_key: key.clone(),
                    repo_agents_md: text::clone_opt(&request.repo_agents_md),
                },
            )
        } else {
            Err("Invalid runtime_session_key".to_owned())
        },
    }
}

/// The same for a request to summarize.
pub fn resolve_compact_request_context(request: &CompactRequest, found: &WorkspaceFacts) -> (r:
    Result<RequestContext, String>)
    ensures
        context_result(r) == context_of(
            request@.workspace_root,
            request@.runtime_session_key,
            request@.repo_agents_md,
            found.exists,
            text::result_view(found.canonical),
            found.is_dir,
        ),
        r matches Ok(c) ==> is_one_component(c.runtime_session_key@),
{
    let chat_request = ChatRequest {
        message: String::new(),
        agent: request.agent.clone(),
        model_override: text::clone_opt(&request.model_override),
        provider_override: text::clone_opt(&request.provider_override),
        history: Vec::new(),
        session_id: text::clone_opt(&request.session_id),
        workspace_root: text::clone_opt(&request.workspace_root),
        repo_agents_md: text::clone_opt(&request.repo_agents_md),
        runtime_session_key: text::clone_opt(&request.runtime_session_key),
        run_id: None,
        compaction: None,
    };
    resolve_request_context(&chat_request, found)
}

/// The agent that a request is for.
pub open spec fn agent_asked_for(agent: Seq<char>, default_agent: Seq<char>) -> Seq<char> {
    if agent.len() == 0 {
        default_agent
    } else {
        agent
    }
}

/// Whether users can choose an agent. One that is not configured can be chosen.
pub open spec fn can_be_chosen(agents: Map<Seq<char>, AgentConfig>, name: Seq<char>) -> bool {
    agents.contains_key(name) ==> config::selectable(agents[name].mode@)
}

fn is_choosable(agents: &StrMap<AgentConfig>, name: &str) -> (b: bool)
    ensures
        b == can_be_chosen(agents@, name@),
{
    match agents.get(name) {
        Some(agent) => agent.is_user_selectable(),
        None => true,
    }
}

/// A request that is accepted.
#[derive(Debug)]
pub struct AcceptedRequest {
    pub context: RequestContext,
    pub agent_name: String,
}

/// The model of [`AcceptedRequest`].
pub struct AcceptedRequestView {
    pub context: RequestContextView,
    pub agent_name: Seq<char>,
}

/// The model of an accepted request or of the reason why it is refused.
pub open spec fn acceptance(r: Result<AcceptedRequest, String>) -> Result<
    AcceptedRequestView,
    Seq<char>,
> {
    match r {
        Ok(a) => Ok(AcceptedRequestView { context: a.context@, agent_name: a.agent_name@ }),
        Err(e) => Err(e@),
    }
}

/// Whether a request is accepted once it is known where it works; `refusal` is
/// the answer where users cannot choose the agent.
pub open spec fn accepted(
    context: Result<RequestContextView, Seq<char>>,
    session_id: Option<Seq<char>>,
    agent_name: Seq<char>,
    agents: Map<Seq<char>, AgentConfig>,
    refusal: Seq<char>,
) -> Result<AcceptedRequestView, Seq<char>> {
    match context {
        Err(e) => Err(e),
        Ok(context) => if session_id is Some && !is_session_id(session_id->0) {
            Err("Invalid session_id"@)
        } else if !can_be_chosen(agents, agent_name) {
            Err(refusal)
        } else {
            Ok(AcceptedRequestView { context, agent_name })
        },
    }
}

/// Why a request for an agent that only other agents call is refused.
pub open spec fn subagent_only(agent_name: Seq<char>) -> Seq<char> {
    "Agent '"@ + agent_name
        + "' is a subagent-only agent and cannot be used directly. Use a primary agent and delegate via the subagent tool."@
}

/// Why a request to summarize for an agent that only other agents call is
/// refused.
pub open spec fn not_selectable(agent_name: Seq<char>) -> Seq<char> {
    "Agent '"@ + agent_name + "' is not user-selectable"@
}

fn agent_or_default(agent: &str, default_agent: &str) -> (s: String)
    ensures
        s@ == agent_asked_for(agent@, default_agent@),
{
    if agent.is_empty() {
        default_agent.to_owned()
    } else {
        agent.to_owned()
    }
}

fn is_valid_selection(session_id: &Option<String>) -> (b: bool)
    ensures
        b == (session_id is Some ==> is_session_id(session_id->0@)),
        b && session_id is Some ==> is_one_component(session_id->0@),
{
    match session_id {
        Some(id) => validate_session_id(id.as_str()),
        None => true,
    }
}

/// Accepts a chat request or says why it is refused.
pub fn accept_chat(
    request: &ChatRequest,
    found: &WorkspaceFacts,
    default_agent: &str,
    agents: &StrMap<AgentConfig>,
) -> (r: Result<AcceptedRequest, String>)
    ensures
        ({
            let name = agent_asked_for(request@.agent, default_agent@);
            acceptance(r) == accepted(
                context_of(
                    request@.workspace_root,
                    request@.runtime_session_key,
                    request@.repo_agents_md,
                    found.exists,
                    text::result_view(found.canonical),
                    found.is_dir,
                ),
                request@.session_id,
                name,
                agents@,
                subagent_only(name),
            )
        }),
        r is Ok && request.session_id is Some ==> is_one_component(request.session_id->0@),
        r matches Ok(a) ==> is_one_component(a.context.runtime_session_key@),
{
    let context = match resolve_request_context(request, found) {
        Ok(context) => context,
        Err(e) => {
            return Err(e);
        },
    };
    if !is_valid_selection(&request.session_id) {
        return Err("Invalid session_id".to_owned());
    }
    let agent_name = agent_or_default(request.agent.as_str(), default_agent);
    if !is_choosable(agents, agent_name.as_str()) {
        return Err(
            text::cat3(
                "Agent '",
                agent_name.as_str(),
                "' is a subagent-only agent and cannot be used directly. Use a primary agent and delegate via the subagent tool.",
            ),
        );
    }
    Ok(AcceptedRequest { context, agent_name })
}

/// Accepts a request to summarize or says why it is refused.
pub fn accept_compaction(
    request: &CompactRequest,
    found: &WorkspaceFacts,
    default_agent: &str,
    agents: &StrMap<AgentConfig>,
) -> (r: Result<AcceptedRequest, String>)
    ensures
        ({
            let name = agent_asked_for(request@.agent, default_agent@);
            acceptance(r) == accepted(
                context_of(
                    request@.workspace_root,
                    request@.runtime_session_key,
                    request@.repo_agents_md,
                    found.exists,
                    text::result_view(found.canonical),
                    found.is_dir,
                ),
                request@.session_id,
                name,
                agents@,
                not_selectable(name),
            )
        }),
        r is Ok && request.session_id is Some ==> is_one_component(request.session_id->0@),
        r matches Ok(a) ==> is_one_component(a.context.runtime_session_key@),
{
    let context = match resolve_compact_request_context(request, found) {
        Ok(context) => context,
        Err(e) => {
            return Err(e);
        },
    };
    if !is_valid_selection(&request.session_id) {
        return Err("Invalid session_id".to_owned());
    }
    let agent_name = agent_or_default(request.agent.as_str(), default_agent);
    if !is_choosable(agents, agent_name.as_str()) {
        return Err(text::cat3("Agent '", agent_name.as_str(), "' is not user-selectable"));
    }
    Ok(AcceptedRequest { context, agent_name })
}

/// Which model an agent uses and how.
#[derive(Debug)]
pub struct AgentContext {
    pub provider: Provider,
    pub opts: ChatOptions,
    pub eff_provider: String,
    pub eff_model_id: String,
}

/// The provider that a request goes to: the one that it names, else the one that
/// its model names, else the agent's.
pub open spec fn chosen_provider(
    config: Config,
    agent_model: Option<Seq<char>>,
    model_override: Option<Seq<char>>,
    provider_override: Option<Seq<char>>,
) -> Seq<char> {
    match provider_override {
        Some(p) => p,
        None => match model_override {
            Some(m) => match config::provider_and_model(m) {
                Some(pm) => pm.0,
                None => config.provider_for(agent_model),
            },
            None => config.provider_for(agent_model),
        },
    }
}

/// The model that a request goes to.
pub open spec fn chosen_model(
    config: Config,
    agent_model: Option<Seq<char>>,
    model_override: Option<Seq<char>>,
) -> Seq<char> {
    match model_override {
        Some(m) => match config::provider_and_model(m) {
            Some(pm) => pm.1,
            None => m,
        },
        None => config.model_for(agent_model),
    }
}

/// What an agent is configured to do differently.
pub open spec fn agent_settings(
    agents: Map<Seq<char>, AgentConfig>,
    name: Seq<char>,
) -> (Option<Seq<char>>, Option<u32>, Option<u32>) {
    if agents.contains_key(name) {
        let a = agents[name];
        (text::opt_view(a.model), a.temperature, a.max_tokens)
    } else {
        (None, None, None)
    }
}

/// The view of an optional text.
pub open spec fn opt_str(s: Option<&str>) -> Option<Seq<char>> {
    match s {
        Some(t) => Some(t@),
        None => None,
    }
}

fn choose_model(
    config: &Config,
    agent_model: Option<&str>,
    model_override: Option<&str>,
    provider_override: Option<&str>,
) -> (r: (String, String))
    ensures
        r.0@ == chosen_provider(
            *config,
            opt_str(agent_model),
            opt_str(model_override),
            opt_str(provider_override),
        ),
        r.1@ == chosen_model(*config, opt_str(agent_model), opt_str(model_override)),
{
    let (named, model) = match model_override {
        Some(m) => match text::split_once_str(m, "/") {
            Some((provider, model)) => (Some(provider), model),
            None => (None, m.to_owned()),
        },
        None => (None, config.effective_model_id(agent_model)),
    };
    let provider = match provider_override {
        Some(p) => p.to_owned(),
        None => match named {
            Some(p) => p,
            None => config.effective_provider(agent_model),
        },
    };
    (provider, model)
}

/// Which model an agent uses for a request and how. The tools are left to the
/// agent loop.
pub fn resolve_agent_context(
    config: &Config,
    auth: &Auth,
    env: &StrMap<String>,
    agents: &StrMap<AgentConfig>,
    agent_name: &str,
    model_override: Option<&str>,
    provider_override: Option<&str>,
) -> (r: Result<AgentContext, String>)
    ensures
        ({
            let own = agent_settings(agents@, agent_name@);
            let provider = chosen_provider(
                *config,
                own.0,
                opt_str(model_override),
                opt_str(provider_override),
            );
            let model = chosen_model(*config, own.0, opt_str(model_override));
            match llm::provider_for(*config, *auth, env@, provider) {
                Ok(p) => r matches Ok(c) && c.provider@ == p && c.eff_provider@ == provider
                    && c.eff_model_id@ == model && c.opts@ == (ChatOptionsView {
                    model_id: model,
                    temperature: match own.1 {
                        Some(t) => t,
                        None => config.model.temperature,
                    },
                    max_tokens: config.max_tokens_for(own.2, provider),
                    tools: Seq::empty(),
                }),
                Err(e) => r matches Err(error) && error@ == e,
            }
        }),
{
    let agent = agents.get(agent_name);
    let agent_model: Option<&str> = match agent {
        Some(a) => match &a.model {
            Some(m) => Some(m.as_str()),
            None => None,
        },
        None => None,
    };
    let (eff_provider, eff_model_id) = choose_model(
        config,
        agent_model,
        model_override,
        provider_override,
    );
    let temperature = config.effective_temperature(
        match agent {
            Some(a) => a.temperature,
            None => None,
        },
    );
    let provider = match llm::build_provider_for(config, auth, env, eff_provider.as_str()) {
        Ok(p) => p,
        Err(e) => {
            return Err(e);
        },
    };
    let max_tokens = config.effective_max_tokens(
        match agent {
            Some(a) => a.max_tokens,
            None => None,
        },
        eff_provider.as_str(),
    );
    let opts = ChatOptions {
        model_id: eff_model_id.clone(),
        temperature,
        max_tokens,
        tools: Vec::new(),
    };
    assert(opts@.tools =~= Seq::empty());
    Ok(AgentContext { provider, opts, eff_provider, eff_model_id })
}

/// What the tools of a run may do: as configured, with what the user allowed for
/// good.
pub fn run_permissions(
    config: &Config,
    agent: Option<&AgentConfig>,
    workspace: &str,
    remembered: &Vec<String>,
) -> (perms: StrMap<Permission>)
    ensures
        perms@ == config::with_remembered(
            config::permission_map(
                match agent {
                    Some(a) => Some(a.permissions@),
                    None => None,
                },
                config.permissions.tools@,
                config.permissions.default,
                prompt::tool_names(defs::builtin_defs()),
            ),
            text::views(remembered@),
        ),
{
    let tools = defs::builtin_tools(workspace);
    let names = prompt::tool_names_of(&tools);
    config::allow_remembered(config::build_permission_map(config, agent, &names), remembered)
}

/// What a chat request does about runs.
#[derive(Debug)]
pub enum RunChoice {
    /// It follows a run.
    Attach { run_id: String },
    /// It starts a run.
    Start { run_id: String },
}

/// The identifier of a run that starts at the time of this stamp.
pub open spec fn run_id(stamp: Seq<char>) -> Seq<char> {
    "run_"@ + stamp
}

/// The identifier of a run that starts at the time of this stamp.
pub fn run_id_at(stamp: &str) -> (s: String)
    ensures
        s@ == run_id(stamp@),
{
    text::cat2("run_", stamp)
}

/// A new identifier of a run, after the time.
pub fn new_run_id() -> (s: String)
    ensures
        exists|stamp: Seq<char>| clock::is_stamp(stamp) && s@ == #[trigger] run_id(stamp),
{
    let stamp = clock::local_time(clock::STAMP);
    run_id_at(stamp.as_str())
}

/// What a chat request does about runs: one that names a run follows it.
pub fn choose_run(state: &ServerState, run_id: &Option<String>) -> (r: Result<RunChoice, String>)
    ensures
        match *run_id {
            Some(id) => if state.run(id@) is Some {
                r matches Ok(RunChoice::Attach { run_id: chosen }) && chosen@ == id@
            } else {
                r matches Err(e) && e@ == "Unknown run_id: "@ + id@
            },
            None => r matches Ok(RunChoice::Start { run_id: chosen }) && exists|stamp: Seq<char>|
                clock::is_stamp(stamp) && chosen@ == #[trigger] self::run_id(stamp),
        },
{
    match run_id {
        Some(id) => if state.runs.contains_key(id.as_str()) {
            Ok(RunChoice::Attach { run_id: id.clone() })
        } else {
            Err(text::cat2("Unknown run_id: ", id.as_str()))
        },
        None => Ok(RunChoice::Start { run_id: new_run_id() }),
    }
}

/// What the model is sent of the messages that a client shows.
pub open spec fn shown_conversation(messages: Seq<HistoryMessageView>) -> Seq<ChatMessageView>
    decreases messages.len(),
{
    if messages.len() == 0 {
        Seq::empty()
    } else {
        let before = shown_conversation(messages.drop_last());
        let m = messages.last();
        if m.role == "user"@ {
            before.push(llm::text_message(Role::User, m.content))
        } else if m.role == "assistant"@ {
            before.push(llm::text_message(Role::Assistant, m.content))
        } else {
            before
        }
    }
}

/// The conversation that a request continues: what sums up its start, if
/// anything does, then what was said since.
pub open spec fn earlier_conversation(request: ChatRequestView) -> Seq<ChatMessageView> {
    let summed_up = match request.compaction {
        Some(c) => seq![compaction::context_message(c)],
        None => Seq::empty(),
    };
    summed_up + shown_conversation(request.history)
}

/// The conversation that a request continues.
pub fn request_history(request: &ChatRequest) -> (history: Vec<ChatMessage>)
    ensures
        ChatMessage::views(history@) == earlier_conversation(request@),
{
    let ghost all = HistoryMessage::views(request.history@);
    let mut history: Vec<ChatMessage> = Vec::new();
    match &request.compaction {
        Some(c) => {
            history.push(compaction::compaction_context_message(c));
        },
        None => {},
    }
    let ghost start = ChatMessage::views(history@);
    assert(start =~= match request@.compaction {
        Some(c) => seq![compaction::context_message(c)],
        None => Seq::empty(),
    });
    let mut i: usize = 0;
    assert(start =~= start + shown_conversation(all.take(0)));
    while i < request.history.len()
        invariant
            i <= request.history.len(),
            all == HistoryMessage::views(request.history@),
            ChatMessage::views(history@) == start + shown_conversation(all.take(i as int)),
        decreases request.history.len() - i,
    {
        assert(all.take(i + 1).drop_last() =~= all.take(i as int));
        assert(all.take(i + 1).last() == request.history@[i as int]@);
        let m = &request.history[i];
        let ghost before = ChatMessage::views(history@);
        if text::same(m.role.as_str(), "user") {
            let said = ChatMessage::user(m.content.as_str());
            history.push(said);
            assert(ChatMessage::views(history@) =~= before.push(said@));
        } else if text::same(m.role.as_str(), "assistant") {
            let said = ChatMessage::assistant_text(m.content.as_str());
            history.push(said);
            assert(ChatMessage::views(history@) =~= before.push(said@));
        }
        assert(ChatMessage::views(history@) =~= start + shown_conversation(all.take(i + 1)));
        i += 1;
    }
    assert(all.take(all.len() as int) =~= all);
    history
}

/// Whether clients are told of an agent: as one that other agents can call, or
/// as one that users can choose.
pub open spec fn is_told(agent: AgentConfig, as_callable: bool) -> bool {
    if as_callable {
        config::callable(agent.mode@)
    } else {
        config::selectable(agent.mode@)
    }
}

/// Whether a list holds, in order and each once, the agents that clients are
/// told of.
pub open spec fn lists_agents(
    names: Seq<Seq<char>>,
    agents: Map<Seq<char>, AgentConfig>,
    as_callable: bool,
) -> bool {
    &&& text::is_sorted(names)
    &&& names.no_duplicates()
    &&& forall|k: Seq<char>| #[trigger]
        names.contains(k) <==> agents.contains_key(k) && is_told(agents[k], as_callable)
}

fn tells_of(agent: &AgentConfig, as_callable: bool) -> (b: bool)
    ensures
        b == is_told(*agent, as_callable),
{
    if as_callable {
        agent.is_subagent_callable()
    } else {
        agent.is_user_selectable()
    }
}

fn told_agents(agents: &StrMap<AgentConfig>, as_callable: bool) -> (names: Vec<String>)
    ensures
        lists_agents(text::views(names@), agents@, as_callable),
{
    let keys = agents.keys();
    agents.key_facts();
    let ghost all = text::views(keys@);
    let mut found: Vec<String> = Vec::new();
    let mut i: usize = 0;
    while i < keys.len()
        invariant
            i <= keys.len(),
            all == text::views(keys@),
            all.no_duplicates(),
            forall|k: Seq<char>| #[trigger] all.contains(k) <==> agents@.contains_key(k),
            text::views(found@).no_duplicates(),
            forall|k: Seq<char>| #[trigger]
                text::views(found@).contains(k) <==> all.take(i as int).contains(k) && is_told(
                    agents@[k],
                    as_callable,
                ),
        decreases keys.len() - i,
    {
        let ghost before = text::views(found@);
        let ghost name = keys@[i as int]@;
        assert(all[i as int] == name);
        assert(all.contains(name));
        assert(all.take(i + 1) =~= all.take(i as int).push(name));
        assert(!all.take(i as int).contains(name)) by {
            if all.take(i as int).contains(name) {
                let j = choose|j: int|
                    0 <= j < all.take(i as int).len() && all.take(i as int)[j] == name;
                assert(all[j] == all[i as int]);
            }
        }
        assert forall|k: Seq<char>| #[trigger]
            all.take(i + 1).contains(k) <==> all.take(i as int).contains(k) || k == name by {
            vstd::seq_lib::lemma_seq_contains_after_push(all.take(i as int), name, k);
        }
        match agents.get(keys[i].as_str()) {
            Some(agent) => {
                if tells_of(agent, as_callable) {
                    found.push(keys[i].clone());
                    assert(text::views(found@) =~= before.push(name));
                    assert forall|k: Seq<char>| #[trigger]
                        text::views(found@).contains(k) <==> before.contains(k) || k == name by {
                        vstd::seq_lib::lemma_seq_contains_after_push(before, name, k);
                    }
                    assert(!before.contains(name));
                }
            },
            None => {},
        }
        i += 1;
    }
    assert(all.take(all.len() as int) =~= all);
    let names = text::sorted_strings(found);
    proof {
        text::lemma_reordered(text::views(names@), text::views(found@));
    }
    names
}

/// Provider and model of an agent.
pub open spec fn model_info(config: Config, agent_model: Option<Seq<char>>) -> Seq<char> {
    config.provider_for(agent_model) + "/"@ + config.model_for(agent_model)
}

/// Provider and model of the agents that users can choose and of the default
/// agent.
pub open spec fn agent_models(config: Config, agents: Map<Seq<char>, AgentConfig>) -> Map<
    Seq<char>,
    Seq<char>,
> {
    Map::new(
        |k: Seq<char>|
            k == config.server.default_agent@ || (agents.contains_key(k) && config::selectable(
                agents[k].mode@,
            )),
        |k: Seq<char>|
            if agents.contains_key(k) && config::selectable(agents[k].mode@) {
                model_info(config, text::opt_view(agents[k].model))
            } else {
                model_info(config, None)
            },
    )
}

/// What a client needs to know of the configuration.
pub fn ui_config(config: &Config, agents: &StrMap<AgentConfig>) -> (u: UiConfig)
    ensures
        u.input_accent@ == config.ui.input_accent@,
        u.user_accent@ == config.ui.user_accent@,
        lists_agents(text::views(u.agent_names@), agents@, false),
        lists_agents(text::views(u.subagent_names@), agents@, true),
        u.model_info@ == config.model.provider@ + "/"@ + config.model.model_id@,
        u.agent_model_info@.map_values(|s: String| s@) == agent_models(*config, agents@),
        u.default_agent@ == config.server.default_agent@,
{
    let agent_names = told_agents(agents, false);
    let subagent_names = told_agents(agents, true);
    let ghost names = text::views(agent_names@);
    let ghost view = |s: String| s@;
    let ghost default_agent = config.server.default_agent@;
    let mut models: StrMap<String> = StrMap::new();
    models.insert(config.server.default_agent.clone(), config.effective_model_info(None));
    let mut i: usize = 0;
    while i < agent_names.len()
        invariant
            i <= agent_names.len(),
            names == text::views(agent_names@),
            lists_agents(names, agents@, false),
            default_agent == config.server.default_agent@,
            forall|k: Seq<char>| #[trigger]
                models@.contains_key(k) <==> k == default_agent || names.take(i as int).contains(k),
            forall|k: Seq<char>| #[trigger]
                models@.contains_key(k) ==> models@[k]@ == if names.take(i as int).contains(k) {
                    model_info(*config, text::opt_view(agents@[k].model))
                } else {
                    model_info(*config, None)
                },
        decreases agent_names.len() - i,
    {
        let ghost name = agent_names@[i as int]@;
        assert(names[i as int] == name);
        assert(names.contains(name));
        assert(names.take(i + 1) =~= names.take(i as int).push(name));
        assert forall|k: Seq<char>| #[trigger]
            names.take(i + 1).contains(k) <==> names.take(i as int).contains(k) || k == name by {
            vstd::seq_lib::lemma_seq_contains_after_push(names.take(i as int), name, k);
        }
        match agents.get(agent_names[i].as_str()) {
            Some(agent) => {
                let model: Option<&str> = match &agent.model {
                    Some(m) => Some(m.as_str()),
                    None => None,
                };
                models.insert(agent_names[i].clone(), config.effective_model_info(model));
            },
            None => {},
        }
        i += 1;
    }
    assert(names.take(names.len() as int) =~= names);
    assert(models@.map_values(view) =~= agent_models(*config, agents@));
    UiConfig {
        input_accent: config.input_accent().to_owned(),
        user_accent: config.user_accent().to_owned(),
        agent_names,
        subagent_names,
        model_info: text::cat3(
            config.model.provider.as_str(),
            "/",
            config.model.model_id.as_str(),
        ),
        agent_model_info: models,
        default_agent: config.server.default_agent.clone(),
    }
}

/// A saved session as it is listed.
pub fn session_info(meta: SessionMeta, message_count: usize) -> (i: SessionInfo)
    ensures
        i.id == meta.id,
        i.created@ == clock::or_empty(clock::utc_rfc3339(meta.created.secs, meta.created.nanos)),
        i.model@ == meta.model_provider@ + "/"@ + meta.model_id@,
        i.message_count == message_count,
        i.summary == meta.summary,
{
    SessionInfo {
        id: meta.id,
        created: clock::told_time(meta.created),
        model: text::cat3(meta.model_provider.as_str(), "/", meta.model_id.as_str()),
        message_count,
        summary: meta.summary,
    }
}

/// What clients are shown of a conversation.
pub open spec fn shown_messages(messages: Seq<Said>) -> Seq<HistoryMessageView>
    decreases messages.len(),
{
    if messages.len() == 0 {
        Seq::empty()
    } else {
        let before = shown_messages(messages.drop_last());
        match shown_role(messages.last().role) {
            Some(role) => before.push(
                HistoryMessageView { role, content: messages.last().content },
            ),
            None => before,
        }
    }
}

/// A saved session as it is loaded.
pub fn session_data(meta: SessionMeta, messages: &Vec<Message>) -> (d: SessionData)
    ensures
        d.id == meta.id,
        d.created@ == clock::or_empty(clock::utc_rfc3339(meta.created.secs, meta.created.nanos)),
        d.model@ == meta.model_provider@ + "/"@ + meta.model_id@,
        HistoryMessage::views(d.messages@) == shown_messages(session::said(messages@)),
        d.compaction == meta.compaction,
{
    let ghost all = session::said(messages@);
    let mut shown: Vec<HistoryMessage> = Vec::new();
    let mut i: usize = 0;
    assert(HistoryMessage::views(shown@) =~= shown_messages(all.take(0)));
    while i < messages.len()
        invariant
            i <= messages.len(),
            all == session::said(messages@),
            HistoryMessage::views(shown@) == shown_messages(all.take(i as int)),
        decreases messages.len() - i,
    {
        assert(all.take(i + 1).drop_last() =~= all.take(i as int));
        assert(all.take(i + 1).last() == messages@[i as int]@);
        match protocol_role_for_session(messages[i].role) {
            Some(role) => {
                let m = HistoryMessage {
                    role: role.to_owned(),
                    content: messages[i].content.clone(),
                };
                let ghost before = HistoryMessage::views(shown@);
                shown.push(m);
                assert(HistoryMessage::views(shown@) =~= before.push(m@));
            },
            None => {},
        }
        i += 1;
    }
    assert(all.take(all.len() as int) =~= all);
    SessionData {
        id: meta.id,
        created: clock::told_time(meta.created),
        model: text::cat3(meta.model_provider.as_str(), "/", meta.model_id.as_str()),
        messages: shown,
        compaction: meta.compaction,
    }
}

/// A credential to be saved.
#[derive(Debug)]
pub struct Credential {
    pub provider: String,
    /// `token` or `api_key`.
    pub field: String,
    pub value: String,
}

/// The credential in the body of a request: a token goes before a key.
pub open spec fn credential_of(body: JsonView) -> Result<
    (Seq<char>, Seq<char>, Seq<char>),
    Seq<char>,
> {
    match json::json_text(body, "provider"@) {
        None => Err("Missing field: provider"@),
        Some(provider) => match (
            json::json_text(body, "token"@),
            json::json_text(body, "api_key"@),
        ) {
            (Some(token), _) => Ok((provider, "token"@, token)),
            (None, Some(key)) => Ok((provider, "api_key"@, key)),
            (None, None) => Err("Missing field: token or api_key"@),
        },
    }
}

/// The credential in the body of a request.
pub fn credential_from_body(body: &Json) -> (r: Result<Credential, String>)
    ensures
        match credential_of(body@) {
            Ok(c) => r matches Ok(k) && k.provider@ == c.0 && k.field@ == c.1 && k.value@ == c.2,
            Err(e) => r matches Err(error) && error@ == e,
        },
{
    let provider = match body.text("provider") {
        Some(p) => p,
        None => {
            return Err("Missing field: provider".to_owned());
        },
    };
    match body.text("token") {
        Some(value) => Ok(Credential { provider, field: "token".to_owned(), value }),
        None => match body.text("api_key") {
            Some(value) => Ok(Credential { provider, field: "api_key".to_owned(), value }),
            None => Err("Missing field: token or api_key".to_owned()),
        },
    }
}

/// The providers whose models are listed.
pub fn listed_providers() -> (v: Vec<String>)
    ensures
        text::views(v@) == seq!["deepseek"@, "glm"@, "kimi"@, "minimax"@, "ollama"@, "github"@],
{
    let v = vec![
        "deepseek".to_owned(),
        "glm".to_owned(),
        "kimi".to_owned(),
        "minimax".to_owned(),
        "ollama".to_owned(),
        "github".to_owned(),
    ];
    assert(text::views(v@) =~= seq!["deepseek"@, "glm"@, "kimi"@, "minimax"@, "ollama"@, "github"@]);
    v
}

/// Adds the models of a provider to a listing.
pub fn list_models(listing: &mut Vec<ModelInfo>, provider: &str, models: &Vec<String>)
    ensures
        ModelInfo::views(final(listing)@) == ModelInfo::views(old(listing)@)
            + text::views(models@).map_values(
            |m: Seq<char>| ModelInfoView { provider: provider@, model_id: m },
        ),
{
    let ghost all = text::views(models@);
    let ghost info = |m: Seq<char>| ModelInfoView { provider: provider@, model_id: m };
    let ghost start = ModelInfo::views(listing@);
    let mut i: usize = 0;
    assert(start =~= start + all.take(0).map_values(info));
    while i < models.len()
        invariant
            i <= models.len(),
            all == text::views(models@),
            info == (|m: Seq<char>| ModelInfoView { provider: provider@, model_id: m }),
            ModelInfo::views(listing@) == start + all.take(i as int).map_values(info),
        decreases models.len() - i,
    {
        let ghost before = ModelInfo::views(listing@);
        let m = ModelInfo { provider: provider.to_owned(), model_id: models[i].clone() };
        listing.push(m);
        assert(ModelInfo::views(listing@) =~= before.push(m@));
        assert(all.take(i + 1).map_values(info) =~= all.take(i as int).map_values(info).push(m@));
        assert(ModelInfo::views(listing@) =~= start + all.take(i + 1).map_values(info));
        i += 1;
    }
    assert(all.take(all.len() as int) =~= all);
}

/// The number that decimal digits stand for.
pub open spec fn digits_value(s: Seq<char>) -> int
    decreases s.len(),
{
    if s.len() == 0 {
        0
    } else {
        10 * digits_value(s.drop_last()) + (s.last() as int - '0' as int)
    }
}

/// Whether a text consists of decimal digits.
pub open spec fn all_digits(s: Seq<char>) -> bool {
    forall|i: int| 0 <= i < s.len() ==> '0' <= #[trigger] s[i] && s[i] <= '9'
}

/// The port that a text gives: digits, with or without a plus sign before them.
pub open spec fn port_of(s: Seq<char>) -> Option<int> {
    let digits = if s.len() > 0 && s[0] == '+' {
        s.skip(1)
    } else {
        s
    };
    if digits.len() > 0 && all_digits(digits) && digits_value(digits) <= u16::MAX {
        Some(digits_value(digits))
    } else {
        None
    }
}

fn parse_port(s: &str) -> (r: Option<u16>)
    ensures
        match r {
            Some(p) => port_of(s@) == Some(p as int),
            None => port_of(s@) is None,
        },
{
    let v = text::chars_of(s);
    let start: usize = if v.len() > 0 && v[0] == '+' {
        1
    } else {
        0
    };
    let ghost digits = v@.skip(start as int);
    assert(v@.skip(0) =~= v@);
    if start == v.len() {
        return None;
    }
    let mut value: u32 = 0;
    let mut i: usize = start;
    assert(digits.take(0).len() == 0);
    while i < v.len()
        invariant
            start <= i <= v.len(),
            digits == v@.skip(start as int),
            port_of(s@) == (if digits.len() > 0 && all_digits(digits) && digits_value(digits)
                <= u16::MAX {
                Some(digits_value(digits))
            } else {
                None::<int>
            }),
            all_digits(digits.take(i - start)),
            value <= u16::MAX ==> value == digits_value(digits.take(i - start)),
            value > u16::MAX ==> digits_value(digits.take(i - start)) > u16::MAX && value
                == u16::MAX + 1,
        decreases v.len() - i,
    {
        let c = v[i];
        let ghost k = i - start;
        assert(digits[k] == c);
        if c < '0' || c > '9' {
            assert(!all_digits(digits));
            return None;
        }
        assert(digits.take(k + 1).drop_last() =~= digits.take(k));
        assert(digits.take(k + 1).last() == c);
        assert forall|j: int| 0 <= j < digits.take(k + 1).len() implies '0' <= #[trigger] digits.take(
            k + 1,
        )[j] && digits.take(k + 1)[j] <= '9' by {
            if j < k {
                assert(digits.take(k + 1)[j] == digits.take(k)[j]);
            }
        }
        if value <= u16::MAX as u32 {
            value = 10 * value + (c as u32 - '0' as u32);
            if value > u16::MAX as u32 {
                value = u16::MAX as u32 + 1;
            }
        }
        i += 1;
    }
    assert(digits.take(digits.len() as int) =~= digits);
    if value <= u16::MAX as u32 {
        Some(value as u16)
    } else {
        None
    }
}

/// The port that the environment asks for, if it asks for one.
pub open spec fn asked_port(env: Map<Seq<char>, String>) -> Option<Seq<char>> {
    if env.contains_key("MOTE_SERVER_PORT"@) {
        Some(env["MOTE_SERVER_PORT"@]@)
    } else if env.contains_key("MOTE_PORT"@) {
        Some(env["MOTE_PORT"@]@)
    } else {
        None
    }
}

/// What the environment says of the port.
pub fn port_setting(env: &StrMap<String>) -> (r: Option<String>)
    ensures
        text::opt_view(r) == asked_port(env@),
{
    match env.get("MOTE_SERVER_PORT") {
        Some(raw) => Some(raw.clone()),
        None => match env.get("MOTE_PORT") {
            Some(raw) => Some(raw.clone()),
            None => None,
        },
    }
}

/// The port that the environment asks for, if it asks for one.
pub fn server_port_override(env: &StrMap<String>) -> (r: Result<Option<u16>, String>)
    ensures
        match asked_port(env@) {
            None => r matches Ok(None),
            Some(raw) => match port_of(raw) {
                Some(p) => r matches Ok(Some(port)) && port == p,
                None => r matches Err(e) && e@ == "Invalid server port override: "@ + raw,
            },
        },
{
    let raw = match port_setting(env) {
        Some(raw) => raw,
        None => {
            return Ok(None);
        },
    };
    match parse_port(raw.as_str()) {
        Some(port) => Ok(Some(port)),
        None => Err(text::cat2("Invalid server port override: ", raw.as_str())),
    }
}

/// The port to try after one that could not be had: the next one, where the
/// port was in use and is not the last.
pub fn next_port(port: u16, in_use: bool) -> (r: Option<u16>)
    ensures
        r == (if in_use && port < u16::MAX {
            Some((port + 1) as u16)
        } else {
            None
        }),
{
    if in_use && port < u16::MAX {
        Some(port + 1)
    } else {
        None
    }
}

/// A directory of the configuration, as seen from where the configuration is.
pub fn configured_dir(dir: &str, base: &str) -> (s: String)
    ensures
        s@ == paths::joined(base@, dir@),
{
    paths::join_path(base, dir)
}

} // verus!
