//! What holds of requests, and of what clients are shown.

use super::compaction;
use super::requests;
use super::requests::{
    accept_chat, accept_compaction, credential_from_body, request_history,
    resolve_agent_context, run_permissions, server_port_override, session_data, session_info,
    AcceptedRequest, AgentContext, Credential, RunChoice, WorkspaceFacts,
};
use super::ServerState;
use crate::auth::Auth;
use crate::config;
use crate::config::{AgentConfig, Config, Permission};
use crate::json;
use crate::json::Json;
use crate::llm::{ChatMessage, Role};
use crate::paths;
use crate::prompt;
use crate::protocol::{
    ChatRequest, CompactRequest, HistoryMessage, HistoryMessageView, SessionData, SessionInfo,
    UiConfig,
};
use crate::session;
use crate::session::{Message, Said, SessionMeta};
use crate::strmap::StrMap;
use crate::text;
use crate::tools::defs;
use vstd::prelude::*;
use vstd::string::*;

verus! {

proof fn lemma_shown_conversation(history: Seq<HistoryMessageView>)
    ensures
        requests::shown_conversation(history).len() == compaction::shown_turns(history).len(),
        forall|i: int|
            0 <= i < compaction::shown_turns(history).len() ==> {
                let m = compaction::shown_turns(history)[i];
                let sent = #[trigger] requests::shown_conversation(history)[i];
                &&& sent.content == Some(m.content)
                &&& sent.tool_calls is None
                &&& sent.tool_call_id is None
                &&& m.role == "user"@ ==> sent.role == Role::User
                &&& m.role == "assistant"@ ==> sent.role == Role::Assistant
            },
    decreases history.len(),
{
    reveal(Seq::filter);
    reveal_strlit("user");
    reveal_strlit("assistant");
    if history.len() > 0 {
        lemma_shown_conversation(history.drop_last());
        assert("user"@.len() != "assistant"@.len());
    }
}

/// A request continues the conversation that it shows: the messages of the user
/// and of the model, in order, each with its own role and content. What sums up
/// the start of the conversation comes before all of them.
pub proof fn law_requests_continue_the_conversation(request: &ChatRequest, h: Vec<ChatMessage>)
    requires
        call_ensures(request_history, (request,), h),
    ensures
        ({
            let all = compaction::shown_turns(HistoryMessage::views(request.history@));
            let start: int = if request.compaction is Some {
                1
            } else {
                0
            };
            &&& h@.len() == start + all.len()
            &&& request.compaction is Some ==> compaction::is_context(h@[0]@) && h@[0]@
                == compaction::context_message(request.compaction->0@)
            &&& forall|i: int|
                start <= i < h@.len() ==> {
                    let m = all[i - start];
                    &&& (#[trigger] h@[i])@.content == Some(m.content)
                    &&& m.role == "user"@ ==> h@[i].role == Role::User
                    &&& m.role == "assistant"@ ==> h@[i].role == Role::Assistant
                }
        }),
{
    let shown = HistoryMessage::views(request.history@);
    let all = compaction::shown_turns(shown);
    lemma_shown_conversation(shown);
    let start: int = if request.compaction is Some {
        1
    } else {
        0
    };
    let sent = ChatMessage::views(h@);
    assert(sent.len() == h@.len());
    if let Some(c) = request.compaction {
        compaction::law_context_is_not_saved(c@, Seq::empty());
        assert(sent[0] == h@[0]@);
    }
    assert forall|i: int| start <= i < h@.len() implies {
        let m = all[i - start];
        &&& (#[trigger] h@[i])@.content == Some(m.content)
        &&& m.role == "user"@ ==> h@[i].role == Role::User
        &&& m.role == "assistant"@ ==> h@[i].role == Role::Assistant
    } by {
        assert(sent[i] == h@[i]@);
        assert(sent[i] == requests::shown_conversation(shown)[i - start]);
    }
}

/// The messages of a session that clients are shown.
pub open spec fn visible(messages: Seq<Said>) -> Seq<Said> {
    messages.filter(|m: Said| m.role == Role::User || m.role == Role::Assistant)
}

proof fn lemma_visible(messages: Seq<Said>)
    ensures
        requests::shown_messages(messages).len() == visible(messages).len(),
        forall|i: int|
            0 <= i < visible(messages).len() ==> {
                let m = visible(messages)[i];
                let shown = #[trigger] requests::shown_messages(messages)[i];
                &&& shown.content == m.content
                &&& m.role == Role::User && shown.role == "user"@ || m.role == Role::Assistant
                    && shown.role == "assistant"@
            },
    decreases messages.len(),
{
    reveal(Seq::filter);
    if messages.len() > 0 {
        lemma_visible(messages.drop_last());
    }
}

/// A session that is loaded shows what the user and the model said, in order,
/// each message with its own role and content, beside what sums up its start.
pub proof fn law_loaded_sessions_show_what_was_said(
    meta: SessionMeta,
    messages: &Vec<Message>,
    d: SessionData,
)
    requires
        call_ensures(session_data, (meta, messages), d),
    ensures
        ({
            let all = visible(session::said(messages@));
            &&& d.messages@.len() == all.len()
            &&& forall|i: int|
                0 <= i < all.len() ==> {
                    &&& (#[trigger] d.messages@[i])@.content == all[i].content
                    &&& all[i].role == Role::User && d.messages@[i]@.role == "user"@
                        || all[i].role == Role::Assistant && d.messages@[i]@.role == "assistant"@
                }
            &&& d.id@ == meta.id@
            &&& d.model@ == meta.model_provider@ + "/"@ + meta.model_id@
            &&& d.compaction == meta.compaction
        }),
{
    let said = session::said(messages@);
    let all = visible(said);
    lemma_visible(said);
    let shown = HistoryMessage::views(d.messages@);
    assert(shown.len() == d.messages@.len());
    assert forall|i: int| 0 <= i < all.len() implies {
        &&& (#[trigger] d.messages@[i])@.content == all[i].content
        &&& all[i].role == Role::User && d.messages@[i]@.role == "user"@ || all[i].role
            == Role::Assistant && d.messages@[i]@.role == "assistant"@
    } by {
        assert(shown[i] == d.messages@[i]@);
        assert(shown[i] == requests::shown_messages(said)[i]);
    }
}

proof fn lemma_all_shown(history: Seq<HistoryMessageView>)
    requires
        forall|i: int|
            0 <= i < history.len() ==> (#[trigger] history[i]).role == "user"@ || history[i].role
                == "assistant"@,
    ensures
        compaction::shown_turns(history) == history,
    decreases history.len(),
{
    reveal(Seq::filter);
    if history.len() > 0 {
        let before = history.drop_last();
        assert forall|i: int| 0 <= i < before.len() implies (#[trigger] before[i]).role == "user"@
            || before[i].role == "assistant"@ by {
            assert(before[i] == history[i]);
        }
        lemma_all_shown(before);
        assert(history[history.len() - 1].role == "user"@ || history[history.len() - 1].role
            == "assistant"@);
    }
    assert(compaction::shown_turns(history) =~= history);
}

/// Resuming a session loses nothing: where a client loads a session and sends
/// back what it was shown, the model gets what the user and the model said in
/// the session, in order, each message with its own role and content.
pub proof fn law_resumed_conversations_are_the_same(
    meta: SessionMeta,
    messages: &Vec<Message>,
    d: SessionData,
    request: &ChatRequest,
    h: Vec<ChatMessage>,
)
    requires
        call_ensures(session_data, (meta, messages), d),
        HistoryMessage::views(request.history@) == HistoryMessage::views(d.messages@),
        request.compaction is None,
        call_ensures(request_history, (request,), h),
    ensures
        ({
            let all = visible(session::said(messages@));
            &&& h@.len() == all.len()
            &&& forall|i: int|
                0 <= i < all.len() ==> (#[trigger] h@[i]).role == all[i].role && h@[i]@.content
                    == Some(all[i].content)
        }),
{
    law_loaded_sessions_show_what_was_said(meta, messages, d);
    law_requests_continue_the_conversation(request, h);
    let all = visible(session::said(messages@));
    let shown = HistoryMessage::views(d.messages@);
    assert(shown.len() == d.messages@.len());
    assert forall|i: int| 0 <= i < shown.len() implies (#[trigger] shown[i]).role == "user"@
        || shown[i].role == "assistant"@ by {
        assert(shown[i] == d.messages@[i]@);
        assert(all[i].role == Role::User || all[i].role == Role::Assistant);
    }
    lemma_all_shown(shown);
    assert forall|i: int| 0 <= i < all.len() implies (#[trigger] h@[i]).role == all[i].role
        && h@[i]@.content == Some(all[i].content) by {
        assert(shown[i] == d.messages@[i]@);
        assert(d.messages@[i]@.content == all[i].content);
        reveal_strlit("user");
        reveal_strlit("assistant");
        assert("user"@.len() != "assistant"@.len());
    }
}

/// A session is listed under its own identifier, with the provider and the
/// model that it used, the number of its messages and what sums it up.
pub proof fn law_sessions_are_listed_as_they_are(
    meta: SessionMeta,
    message_count: usize,
    i: SessionInfo,
)
    requires
        call_ensures(session_info, (meta, message_count), i),
    ensures
        i.id@ == meta.id@,
        i.model@ == meta.model_provider@ + "/"@ + meta.model_id@,
        i.message_count == message_count,
        i.summary == meta.summary,
{
}

/// What a request must give to be accepted: an existing directory by its
/// absolute path, a name for the client, and if any, a proper name of a session.
pub open spec fn is_placed(
    root: Option<String>,
    key: Option<String>,
    session_id: Option<String>,
    found: &WorkspaceFacts,
) -> bool {
    &&& root is Some
    &&& paths::absolute(root->0@)
    &&& found.exists
    &&& found.canonical is Ok
    &&& found.is_dir
    &&& key is Some
    &&& key->0@.len() > 0
    &&& text::plain_name(key->0@, "-_:"@)
    &&& session_id is Some ==> session_id->0@.len() > 0 && text::plain_name(session_id->0@, "-_"@)
}

/// A chat request is accepted exactly if it is placed and the agent that it is
/// for, or else the default agent, is not one that only other agents call. It
/// then works in the directory that was found, for the client that it names.
pub proof fn law_chat_requests_are_accepted_or_refused(
    request: &ChatRequest,
    found: &WorkspaceFacts,
    default_agent: &str,
    agents: &StrMap<AgentConfig>,
    r: Result<AcceptedRequest, String>,
)
    requires
        call_ensures(accept_chat, (request, found, default_agent, agents), r),
    ensures
        ({
            let name = if request.agent@.len() == 0 {
                default_agent@
            } else {
                request.agent@
            };
            let open = agents@.contains_key(name) ==> agents@[name].mode@ == "primary"@
                || agents@[name].mode@ == "all"@;
            &&& r is Ok <==> open && is_placed(
                request.workspace_root,
                request.runtime_session_key,
                request.session_id,
                found,
            )
            &&& r matches Ok(a) ==> a.agent_name@ == name && a.context.workspace@
                == found.canonical->Ok_0@ && a.context.runtime_session_key@
                == request.runtime_session_key->0@ && text::opt_view(a.context.repo_agents_md)
                == text::opt_view(request.repo_agents_md)
        }),
{
}

/// The same holds of a request to sum up a conversation.
pub proof fn law_requests_to_sum_up_are_accepted_or_refused(
    request: &CompactRequest,
    found: &WorkspaceFacts,
    default_agent: &str,
    agents: &StrMap<AgentConfig>,
    r: Result<AcceptedRequest, String>,
)
    requires
        call_ensures(accept_compaction, (request, found, default_agent, agents), r),
    ensures
        ({
            let name = if request.agent@.len() == 0 {
                default_agent@
            } else {
                request.agent@
            };
            let open = agents@.contains_key(name) ==> agents@[name].mode@ == "primary"@
                || agents@[name].mode@ == "all"@;
            &&& r is Ok <==> open && is_placed(
                request.workspace_root,
                request.runtime_session_key,
                request.session_id,
                found,
            )
            &&& r matches Ok(a) ==> a.agent_name@ == name && a.context.workspace@
                == found.canonical->Ok_0@ && a.context.runtime_session_key@
                == request.runtime_session_key->0@
        }),
{
}

/// What a request says of the provider and the model goes before what the agent
/// is configured with, and that before the configuration for all agents. A
/// provider that the request names on its own goes before one that it names
/// with the model. The answer comes with the limits that count for the agent,
/// and without any tools yet.
pub proof fn law_requests_choose_their_model(
    config: &Config,
    auth: &Auth,
    env: &StrMap<String>,
    agents: &StrMap<AgentConfig>,
    agent_name: &str,
    model_override: Option<&str>,
    provider_override: Option<&str>,
    r: Result<AgentContext, String>,
    provider: Seq<char>,
    model: Seq<char>,
)
    requires
        call_ensures(
            resolve_agent_context,
            (config, auth, env, agents, agent_name, model_override, provider_override),
            r,
        ),
        !provider.contains('/'),
    ensures
        r matches Ok(c) ==> {
            let own = agents@.contains_key(agent_name@);
            let own_model = if own {
                text::opt_view(agents@[agent_name@].model)
            } else {
                None
            };
            let named = provider + "/"@ + model;
            &&& provider_override matches Some(p) ==> c.eff_provider@ == p@
            &&& provider_override is None && model_override is Some && model_override->0@ == named
                ==> c.eff_provider@ == provider
            &&& provider_override is None && model_override is None && own_model == Some(named)
                ==> c.eff_provider@ == provider
            &&& provider_override is None && model_override is None && own_model is None
                ==> c.eff_provider@ == config.model.provider@
            &&& model_override is Some && model_override->0@ == named ==> c.eff_model_id@ == model
            &&& model_override is Some && model_override->0@ == provider ==> c.eff_model_id@
                == provider
            &&& model_override is None && own_model == Some(named) ==> c.eff_model_id@ == model
            &&& c.opts.model_id@ == c.eff_model_id@
            &&& c.opts.tools@.len() == 0
            &&& own && agents@[agent_name@].temperature is Some ==> Some(c.opts.temperature)
                == agents@[agent_name@].temperature
            &&& own && agents@[agent_name@].max_tokens is Some ==> Some(c.opts.max_tokens)
                == agents@[agent_name@].max_tokens
            &&& !own ==> c.opts.temperature == config.model.temperature
        },
{
    config::laws::law_models_are_named_behind_their_provider(provider, model);
    if r is Ok {
        let c = r->Ok_0;
        assert(c.opts@.tools.len() == c.opts.tools@.len());
    }
}

/// In a run, a tool of the server may do what the agent is configured to let it
/// do, else what all agents are, else the default; where that needs consent, and
/// the user gave it for good, it is allowed.
pub proof fn law_runs_have_their_permissions(
    config: &Config,
    agent: Option<&AgentConfig>,
    workspace: &str,
    remembered: &Vec<String>,
    perms: StrMap<Permission>,
    tool: Seq<char>,
)
    requires
        call_ensures(run_permissions, (config, agent, workspace, remembered), perms),
        prompt::tool_names(defs::builtin_defs()).contains(tool),
        tool != "use_skill"@,
        tool != "finish_task"@,
    ensures
        ({
            let own = agent is Some && agent->0.permissions@.contains_key(tool);
            let configured = if own {
                agent->0.permissions@[tool]
            } else if config.permissions.tools@.contains_key(tool) {
                config.permissions.tools@[tool]
            } else {
                config.permissions.default
            };
            &&& perms@.contains_key(tool)
            &&& perms@[tool] == if configured == Permission::Ask && text::views(
                remembered@,
            ).contains(tool) {
                Permission::Allow
            } else {
                configured
            }
        }),
{
}

/// A credential is saved for the provider that the request names: its token
/// where it gives one, else its key.
pub proof fn law_credentials_are_taken_as_given(body: &Json, r: Result<Credential, String>)
    requires
        call_ensures(credential_from_body, (body,), r),
    ensures
        ({
            let provider = json::json_text(body@, "provider"@);
            let token = json::json_text(body@, "token"@);
            let key = json::json_text(body@, "api_key"@);
            &&& r is Ok <==> provider is Some && (token is Some || key is Some)
            &&& r matches Ok(c) ==> Some(c.provider@) == provider && (token is Some ==> c.field@
                == "token"@ && Some(c.value@) == token) && (token is None ==> c.field@
                == "api_key"@ && Some(c.value@) == key)
        }),
{
}

proof fn lemma_digits_of(n: nat)
    ensures
        requests::all_digits(text::decimal(n)),
        text::decimal(n).len() > 0,
        requests::digits_value(text::decimal(n)) == n,
    decreases n,
{
    let s = text::decimal(n);
    if n < 10 {
        assert(s.drop_last() =~= Seq::empty());
        assert(s.last() == text::digit(n));
        assert(requests::digits_value(s.drop_last()) == 0);
    } else {
        lemma_digits_of(n / 10);
        assert(s.drop_last() =~= text::decimal(n / 10));
        assert(s.last() == text::digit(n % 10));
        assert forall|i: int| 0 <= i < s.len() implies '0' <= #[trigger] s[i] && s[i] <= '9' by {
            if i < s.len() - 1 {
                assert(s[i] == text::decimal(n / 10)[i]);
            }
        }
    }
}

/// A port that the environment gives in decimal notation is the port that is
/// used; the setting for the server goes before the one for all.
pub proof fn law_ports_are_read_as_written(
    env: &StrMap<String>,
    n: u16,
    r: Result<Option<u16>, String>,
)
    requires
        call_ensures(server_port_override, (env,), r),
        env@.contains_key("MOTE_SERVER_PORT"@) && env@["MOTE_SERVER_PORT"@]@ == text::decimal(
            n as nat,
        ) || !env@.contains_key("MOTE_SERVER_PORT"@) && env@.contains_key("MOTE_PORT"@)
            && env@["MOTE_PORT"@]@ == text::decimal(n as nat),
    ensures
        r == Ok::<Option<u16>, String>(Some(n)),
{
    lemma_digits_of(n as nat);
    let s = text::decimal(n as nat);
    assert('0' <= s[0] && s[0] <= '9');
}

/// A client is told the configured colours and the default agent, which agents
/// users can choose and which other agents can call, and for each agent that
/// can be chosen the provider and the model that it names.
pub proof fn law_clients_are_told_the_configuration(
    config: &Config,
    agents: &StrMap<AgentConfig>,
    u: UiConfig,
    name: Seq<char>,
    provider: Seq<char>,
    model: Seq<char>,
)
    requires
        call_ensures(requests::ui_config, (config, agents), u),
        agents@.contains_key(name),
        !provider.contains('/'),
    ensures
        u.input_accent@ == config.ui.input_accent@,
        u.user_accent@ == config.ui.user_accent@,
        u.default_agent@ == config.server.default_agent@,
        u.model_info@ == config.model.provider@ + "/"@ + config.model.model_id@,
        text::views(u.agent_names@).contains(name) <==> agents@[name].mode@ == "primary"@
            || agents@[name].mode@ == "all"@,
        text::views(u.subagent_names@).contains(name) <==> agents@[name].mode@ == "subagent"@
            || agents@[name].mode@ == "all"@,
        text::views(u.agent_names@).contains(name) && text::opt_view(agents@[name].model) == Some(
            provider + "/"@ + model,
        ) ==> u.agent_model_info@.contains_key(name) && u.agent_model_info@[name]@ == provider
            + "/"@ + model,
{
    config::laws::law_models_are_named_behind_their_provider(provider, model);
    let told = u.agent_model_info@.map_values(|s: String| s@);
    if text::views(u.agent_names@).contains(name) {
        assert(requests::is_told(agents@[name], false));
        assert(told.contains_key(name));
        assert(told[name] == u.agent_model_info@[name]@);
    }
}

/// A chat request that is refused is told the first thing that is wrong with
/// it: the workspace, the name of the client, the name of the session, or the
/// agent.
pub proof fn law_refusals_say_why(
    request: &ChatRequest,
    found: &WorkspaceFacts,
    default_agent: &str,
    agents: &StrMap<AgentConfig>,
    r: Result<AcceptedRequest, String>,
)
    requires
        call_ensures(accept_chat, (request, found, default_agent, agents), r),
    ensures
        r matches Err(e) ==> {
            let root = request.workspace_root;
            let key = request.runtime_session_key;
            let name = if request.agent@.len() == 0 {
                default_agent@
            } else {
                request.agent@
            };
            e@ == if root is None {
                "Missing workspace_root in chat request"@
            } else if !paths::absolute(root->0@) {
                "workspace_root must be an absolute path"@
            } else if !found.exists {
                "workspace_root does not exist: "@ + root->0@
            } else if found.canonical is Err {
                "Failed to canonicalize workspace_root "@ + root->0@ + ": "@
                    + found.canonical->Err_0@
            } else if !found.is_dir {
                "workspace_root is not a directory: "@ + found.canonical->Ok_0@
            } else if key is None {
                "Missing runtime_session_key in chat request"@
            } else if !requests::is_session_key(key->0@) {
                "Invalid runtime_session_key"@
            } else if request.session_id is Some && !requests::is_session_id(
                request.session_id->0@,
            ) {
                "Invalid session_id"@
            } else {
                "Agent '"@ + name
                    + "' is a subagent-only agent and cannot be used directly. Use a primary agent and delegate via the subagent tool."@
            }
        },
{
}

/// A request that names a run follows that very run, if there is one; one that
/// names none starts a run.
pub proof fn law_requests_follow_the_run_they_name(
    state: &ServerState,
    run_id: &Option<String>,
    r: Result<RunChoice, String>,
)
    requires
        call_ensures(requests::choose_run, (state, run_id), r),
    ensures
        run_id is None ==> r is Ok && r->Ok_0 is Start,
        run_id is Some && state.runs@.contains_key(run_id->0@) ==> r is Ok && r->Ok_0 is Attach
            && r->Ok_0->Attach_run_id@ == run_id->0@,
        run_id is Some && !state.runs@.contains_key(run_id->0@) ==> r is Err && r->Err_0@
            == "Unknown run_id: "@ + run_id->0@,
{
}

} // verus!
