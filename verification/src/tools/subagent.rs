//! Delegation to another agent: who may be called, with which permissions, and
//! what its run amounts to.

use crate::agent;
use crate::agent::{AgentEvent, AgentEventView};
use crate::clock;
use crate::config;
use crate::config::{AgentConfig, Config, Permission};
use crate::llm::{ChatOptions, ChatOptionsView, ToolDef, ToolDefView};
use crate::prompt;
use crate::strmap::StrMap;
use crate::text;
use vstd::prelude::*;
use vstd::string::*;

verus! {

/// How deep agents may delegate.
pub const MAX_DEPTH: u8 = 3;

/// For how many seconds a subagent may run.
pub const TIMEOUT_SECS: u64 = 300;

/// Why an agent cannot be called, if it cannot.
pub open spec fn call_error(
    depth: u8,
    max_depth: u8,
    agents: Map<Seq<char>, AgentConfig>,
    name: Seq<char>,
) -> Option<Seq<char>> {
    if depth >= max_depth {
        Some(
            "Sub-agent recursion limit reached (max "@ + text::decimal(max_depth as nat)
                + " levels)"@,
        )
    } else if !agents.contains_key(name) {
        Some("Unknown sub-agent: '"@ + name + "'"@)
    } else if !config::callable(agents[name].mode@) {
        Some("Agent '"@ + name + "' is not available as a subagent"@)
    } else {
        None
    }
}

/// Checks whether an agent can be called.
pub fn check_call(depth: u8, max_depth: u8, agents: &StrMap<AgentConfig>, name: &str) -> (r: Result<
    (),
    String,
>)
    ensures
        match r {
            Ok(_) => call_error(depth, max_depth, agents@, name@) is None,
            Err(e) => call_error(depth, max_depth, agents@, name@) == Some(e@),
        },
{
    if depth >= max_depth {
        return Err(
            text::cat3(
                "Sub-agent recursion limit reached (max ",
                text::decimal_of(max_depth as u64).as_str(),
                " levels)",
            ),
        );
    }
    match agents.get(name) {
        Some(agent) => if agent.is_subagent_callable() {
            Ok(())
        } else {
            Err(text::cat3("Agent '", name, "' is not available as a subagent"))
        },
        None => Err(text::cat3("Unknown sub-agent: '", name, "'")),
    }
}

/// How a subagent is run.
pub struct SubagentSetup {
    pub provider: String,
    pub options: ChatOptions,
    pub permissions: StrMap<Permission>,
}

/// The permissions of a subagent: there is no user to ask.
pub open spec fn subagent_permissions(
    config: Config,
    agent: Option<AgentConfig>,
    names: Seq<Seq<char>>,
) -> Map<Seq<char>, Permission> {
    config::unattended(
        config::permission_map(
            match agent {
                Some(a) => Some(a.permissions@),
                None => None,
            },
            config.permissions.tools@,
            config.permissions.default,
            names,
        ),
    )
}

/// How a subagent is run: its model, its limits, and the tools that are not
/// denied to it.
pub fn setup(config: &Config, agent: Option<&AgentConfig>, tools: &Vec<ToolDef>) -> (s:
    SubagentSetup)
    ensures
        ({
            let own = match agent {
                Some(a) => Some(*a),
                None => None,
            };
            let model = match agent {
                Some(a) => text::opt_view(a.model),
                None => None,
            };
            let perms = subagent_permissions(
                *config,
                own,
                prompt::tool_names(ToolDef::views(tools@)),
            );
            &&& s.provider@ == config.provider_for(model)
            &&& s.permissions@ == perms
            &&& s.options@ == (ChatOptionsView {
                model_id: config.model_for(model),
                temperature: match own {
                    Some(a) => match a.temperature {
                        Some(t) => t,
                        None => config.model.temperature,
                    },
                    None => config.model.temperature,
                },
                max_tokens: config.max_tokens_for(
                    match own {
                        Some(a) => a.max_tokens,
                        None => None,
                    },
                    config.provider_for(model),
                ),
                tools: agent::advertised(ToolDef::views(tools@), perms),
            })
        }),
{
    let model: Option<&str> = match agent {
        Some(a) => match &a.model {
            Some(m) => Some(m.as_str()),
            None => None,
        },
        None => None,
    };
    let provider = config.effective_provider(model);
    let temperature = config.effective_temperature(
        match agent {
            Some(a) => a.temperature,
            None => None,
        },
    );
    let max_tokens = config.effective_max_tokens(
        match agent {
            Some(a) => a.max_tokens,
            None => None,
        },
        provider.as_str(),
    );
    let names = prompt::tool_names_of(tools);
    let permissions = config::unattended_permissions(
        config::build_permission_map(config, agent, &names),
    );
    let options = ChatOptions {
        model_id: config.effective_model_id(model),
        temperature,
        max_tokens,
        tools: agent::advertised_tool_defs(tools, &permissions),
    };
    SubagentSetup { provider, options, permissions }
}

/// A subagent never asks the user: each of its tools is either allowed or
/// denied.
pub proof fn law_subagents_never_ask(
    config: Config,
    agent: Option<AgentConfig>,
    tools: Seq<ToolDefView>,
    i: int,
)
    requires
        0 <= i < tools.len(),
    ensures
        agent::permission_of(
            subagent_permissions(config, agent, prompt::tool_names(tools)),
            tools[i].function.name,
        ) != Permission::Ask,
{
    let names = prompt::tool_names(tools);
    assert(names[i] == tools[i].function.name);
    assert(names.contains(tools[i].function.name));
}

/// What a run of a subagent amounts to so far.
pub struct SubagentRun {
    pub id: String,
    pub name: String,
    pub content: String,
    pub tool_log: String,
    /// Whether the run has ended.
    pub ended: bool,
}

/// The model of [`SubagentRun`].
pub struct SubagentRunView {
    pub id: Seq<char>,
    pub name: Seq<char>,
    pub content: Seq<char>,
    pub tool_log: Seq<char>,
    pub ended: bool,
}

impl View for SubagentRun {
    type V = SubagentRunView;

    open spec fn view(&self) -> SubagentRunView {
        SubagentRunView {
            id: self.id@,
            name: self.name@,
            content: self.content@,
            tool_log: self.tool_log@,
            ended: self.ended,
        }
    }
}

/// The result of a tool as it is noted in the log.
pub open spec fn logged_result(result: Seq<char>) -> Seq<char> {
    if text::byte_len(result) > 100 {
        text::truncated(result, 97) + "..."@
    } else {
        result
    }
}

impl SubagentRunView {
    /// The subagent reports something, or its loop breaks with an error.
    pub open spec fn with_event(self, event: Result<AgentEventView, Seq<char>>) -> SubagentRunView {
        match event {
            Ok(AgentEventView::Done { content, .. }) => SubagentRunView {
                content,
                ended: true,
                ..self
            },
            Ok(AgentEventView::Cancelled { content, .. }) => SubagentRunView {
                content,
                ended: true,
                ..self
            },
            Ok(AgentEventView::NeedsContinuation { content, .. }) => SubagentRunView {
                content,
                ended: true,
                ..self
            },
            Ok(AgentEventView::TextDelta(piece)) => SubagentRunView {
                content: self.content + piece,
                ..self
            },
            Ok(AgentEventView::ToolStarted { id, name }) => SubagentRunView {
                tool_log: self.tool_log + ("\n  [Tool: "@ + name + "]"@),
                ..self
            },
            Ok(AgentEventView::ToolCompleted { result, .. }) => SubagentRunView {
                tool_log: self.tool_log + (" → "@ + logged_result(result)),
                ..self
            },
            Ok(AgentEventView::ToolFailed { id, error }) => SubagentRunView {
                tool_log: self.tool_log + (" → FAILED: "@ + error),
                ..self
            },
            Ok(_) => self,
            Err(error) => SubagentRunView {
                content: "[Sub-agent error: "@ + error + "]"@,
                ended: true,
                ..self
            },
        }
    }

    /// What the agent that delegated reports of it.
    pub open spec fn forwarded(self, event: Result<AgentEventView, Seq<char>>) -> Option<
        AgentEventView,
    > {
        match event {
            Ok(AgentEventView::TextDelta(data)) => Some(
                AgentEventView::SubagentTextDelta { id: self.id, data },
            ),
            Ok(AgentEventView::ReasoningDelta(data)) => Some(
                AgentEventView::SubagentReasoningDelta { id: self.id, data },
            ),
            Ok(AgentEventView::ToolStarted { id, name }) => Some(
                AgentEventView::SubagentToolStarted { id: self.id, sub_id: id, tool_name: name },
            ),
            Ok(AgentEventView::ToolCompleted { id, result, changes, .. }) => Some(
                AgentEventView::SubagentToolCompleted { id: self.id, sub_id: id, result, changes },
            ),
            Ok(AgentEventView::ToolFailed { id, error }) => Some(
                AgentEventView::SubagentToolFailed { id: self.id, sub_id: id, error },
            ),
            _ => None,
        }
    }

    /// What the run amounts to, as the tool reports it.
    pub open spec fn result(self) -> Seq<char> {
        let used = if self.tool_log.len() == 0 {
            self.content
        } else {
            "[Tools used:"@ + self.tool_log + "]\n"@ + self.content
        };
        if used.len() == 0 {
            "[Sub-agent '"@ + self.name + "' completed]"@
        } else {
            used
        }
    }
}

/// The model of an event or an error.
pub open spec fn event_view(event: Result<AgentEvent, String>) -> Result<
    AgentEventView,
    Seq<char>,
> {
    match event {
        Ok(e) => Ok(e@),
        Err(e) => Err(e@),
    }
}

/// The model of an optional event.
pub open spec fn opt_event_view(event: Option<AgentEvent>) -> Option<AgentEventView> {
    match event {
        Some(e) => Some(e@),
        None => None,
    }
}

/// The identifier of a run of a subagent that starts at the time of this stamp.
pub open spec fn subagent_id(stamp: Seq<char>) -> Seq<char> {
    "sub_"@ + stamp
}

/// The identifier of a run of a subagent that starts at the time of this stamp.
pub fn subagent_id_at(stamp: &str) -> (s: String)
    ensures
        s@ == subagent_id(stamp@),
{
    text::cat2("sub_", stamp)
}

/// A new identifier of a run of a subagent, after the time.
pub fn new_subagent_id() -> (s: String)
    ensures
        exists|stamp: Seq<char>| clock::is_stamp(stamp) && s@ == #[trigger] subagent_id(stamp),
{
    let stamp = clock::local_time(clock::STAMP);
    subagent_id_at(stamp.as_str())
}

impl SubagentRun {
    /// A run begins; what the agent that delegated reports first.
    pub fn begin(id: String, name: &str) -> (r: (SubagentRun, AgentEvent))
        ensures
            r.0@ == (SubagentRunView {
                id: id@,
                name: name@,
                content: Seq::empty(),
                tool_log: Seq::empty(),
                ended: false,
            }),
            r.1@ == (AgentEventView::SubagentStarted { id: id@, name: name@ }),
    {
        let event = AgentEvent::SubagentStarted { id: id.clone(), name: name.to_owned() };
        let run = SubagentRun {
            id,
            name: name.to_owned(),
            content: String::new(),
            tool_log: String::new(),
            ended: false,
        };
        (run, event)
    }

    /// Takes what the subagent reports; returns what is reported of it.
    pub fn event(&mut self, event: Result<AgentEvent, String>) -> (r: Option<AgentEvent>)
        ensures
            final(self)@ == old(self)@.with_event(event_view(event)),
            opt_event_view(r) == old(self)@.forwarded(event_view(event)),
    {
        match event {
            Ok(AgentEvent::Done { content, .. }) => {
                self.content = content;
                self.ended = true;
                None
            },
            Ok(AgentEvent::Cancelled { content, .. }) => {
                self.content = content;
                self.ended = true;
                None
            },
            Ok(AgentEvent::NeedsContinuation { content, .. }) => {
                self.content = content;
                self.ended = true;
                None
            },
            Ok(AgentEvent::TextDelta(data)) => {
                self.content.append(data.as_str());
                Some(AgentEvent::SubagentTextDelta { id: self.id.clone(), data })
            },
            Ok(AgentEvent::ReasoningDelta(data)) => Some(
                AgentEvent::SubagentReasoningDelta { id: self.id.clone(), data },
            ),
            Ok(AgentEvent::ToolStarted { id, name }) => {
                let note = text::cat3("\n  [Tool: ", name.as_str(), "]");
                self.tool_log.append(note.as_str());
                Some(
                    AgentEvent::SubagentToolStarted {
                        id: self.id.clone(),
                        sub_id: id,
                        tool_name: name,
                    },
                )
            },
            Ok(AgentEvent::ToolCompleted { id, name: _, result, changes, rollback_entries: _ }) => {
                let logged = if text::len_bytes(result.as_str()) > 100 {
                    text::cat2(agent::safe_truncate(result.as_str(), 97), "...")
                } else {
                    result.clone()
                };
                let note = text::cat2(" → ", logged.as_str());
                self.tool_log.append(note.as_str());
                Some(
                    AgentEvent::SubagentToolCompleted {
                        id: self.id.clone(),
                        sub_id: id,
                        result,
                        changes,
                    },
                )
            },
            Ok(AgentEvent::ToolFailed { id, error }) => {
                let note = text::cat2(" → FAILED: ", error.as_str());
                self.tool_log.append(note.as_str());
                Some(AgentEvent::SubagentToolFailed { id: self.id.clone(), sub_id: id, error })
            },
            Ok(_) => None,
            Err(error) => {
                self.content = text::cat3("[Sub-agent error: ", error.as_str(), "]");
                self.ended = true;
                None
            },
        }
    }

    /// What the run amounts to, and what is reported of its end.
    pub fn conclude(&self) -> (r: (String, AgentEvent))
        ensures
            r.0@ == self@.result(),
            r.1@ == (AgentEventView::SubagentDone { id: self@.id, content: self@.content }),
    {
        let mut result = String::new();
        if !self.tool_log.as_str().is_empty() {
            result = text::cat3("[Tools used:", self.tool_log.as_str(), "]\n");
        }
        result.append(self.content.as_str());
        assert(self.tool_log@.len() == 0 ==> result@ =~= self.content@);
        if result.as_str().is_empty() {
            result = text::cat3("[Sub-agent '", self.name.as_str(), "' completed]");
        }
        let event = AgentEvent::SubagentDone {
            id: self.id.clone(),
            content: self.content.clone(),
        };
        (result, event)
    }

    /// The error for a run that was stopped because it took too long.
    pub fn timed_out(&self) -> (s: String)
        ensures
            s@ == "Sub-agent '"@ + self@.name + "' timed out after "@ + text::decimal(
                TIMEOUT_SECS as nat,
            ) + "s"@,
    {
        let mut s = text::cat3("Sub-agent '", self.name.as_str(), "' timed out after ");
        s.append(text::decimal_of(TIMEOUT_SECS).as_str());
        s.append("s");
        s
    }
}

/// A subagent uses the model that it names, and runs with its own permissions: a
/// tool that is denied to it, or else to all agents, or else by default, is not
/// offered to it, and every other one is.
pub proof fn law_subagents_have_their_own_tools(
    config: &Config,
    agent: Option<&AgentConfig>,
    tools: &Vec<ToolDef>,
    s: SubagentSetup,
    i: int,
    provider: Seq<char>,
    model: Seq<char>,
)
    requires
        call_ensures(setup, (config, agent, tools), s),
        0 <= i < tools@.len(),
        tools@[i]@.function.name != "use_skill"@,
        tools@[i]@.function.name != "finish_task"@,
        !provider.contains('/'),
    ensures
        ({
            let name = tools@[i]@.function.name;
            let configured = if agent is Some && agent->0.permissions@.contains_key(name) {
                agent->0.permissions@[name]
            } else if config.permissions.tools@.contains_key(name) {
                config.permissions.tools@[name]
            } else {
                config.permissions.default
            };
            &&& s.options@.tools.contains(tools@[i]@) <==> configured != Permission::Deny
            &&& s.permissions@.contains_key(name)
            &&& s.permissions@[name] == if configured == Permission::Deny {
                Permission::Deny
            } else {
                Permission::Allow
            }
            &&& agent is Some && text::opt_view(agent->0.model) == Some(provider + "/"@ + model)
                ==> s.provider@ == provider && s.options.model_id@ == model
            &&& agent is Some && agent->0.temperature is Some ==> Some(s.options.temperature)
                == agent->0.temperature
            &&& agent is Some && agent->0.max_tokens is Some ==> Some(s.options.max_tokens)
                == agent->0.max_tokens
        }),
{
    let def = tools@[i]@;
    let all = ToolDef::views(tools@);
    let names = prompt::tool_names(all);
    assert(all[i] == def);
    assert(names[i] == def.function.name);
    assert(names.contains(def.function.name));
    assert(all.contains(def));
    agent::laws::law_denied_tools_are_hidden(all, s.permissions@, def);
    config::laws::law_models_are_named_behind_their_provider(provider, model);
}

} // verus!
