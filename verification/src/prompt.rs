//! The system prompt: its fixed layers and the reminder of each turn. Files are
//! read outside; what they hold comes in as plain values.

pub mod laws;

use crate::clock;
use crate::config::{AgentConfig, Config, PromptConfig};
use crate::history;
use crate::llm::{ToolDef, ToolDefView};
use crate::paths;
use crate::text;
use vstd::prelude::*;
use vstd::string::*;

verus! {

/// What came of one tool call of the last turn.
#[derive(Debug)]
pub struct ToolResultSummary {
    pub tool_name: String,
    pub success: bool,
    pub summary: String,
}

/// The model of [`ToolResultSummary`].
pub struct ToolResultSummaryView {
    pub tool_name: Seq<char>,
    pub success: bool,
    pub summary: Seq<char>,
}

impl View for ToolResultSummary {
    type V = ToolResultSummaryView;

    open spec fn view(&self) -> ToolResultSummaryView {
        ToolResultSummaryView {
            tool_name: self.tool_name@,
            success: self.success,
            summary: self.summary@,
        }
    }
}

impl Clone for ToolResultSummary {
    fn clone(&self) -> (r: ToolResultSummary)
        ensures
            r@ == self@,
    {
        ToolResultSummary {
            tool_name: self.tool_name.clone(),
            success: self.success,
            summary: self.summary.clone(),
        }
    }
}

impl ToolResultSummary {
    /// The models of a sequence of values.
    pub open spec fn views(v: Seq<ToolResultSummary>) -> Seq<ToolResultSummaryView> {
        v.map_values(|x: ToolResultSummary| x@)
    }

    /// A copy of a list.
    pub fn clone_all(v: &Vec<ToolResultSummary>) -> (r: Vec<ToolResultSummary>)
        ensures
            ToolResultSummary::views(r@) == ToolResultSummary::views(v@),
    {
        let mut r: Vec<ToolResultSummary> = Vec::new();
        let mut i: usize = 0;
        while i < v.len()
            invariant
                i <= v.len(),
                r.len() == i,
                forall|k: int| 0 <= k < i ==> (#[trigger] r@[k])@ == v@[k]@,
            decreases v.len() - i,
        {
            r.push(v[i].clone());
            i += 1;
        }
        assert(ToolResultSummary::views(r@) =~= ToolResultSummary::views(v@));
        r
    }
}

/// What the reminder of a turn is made of.
pub struct ReminderContext<'a> {
    pub step: usize,
    pub max_steps: usize,
    pub working_directory: String,
    pub tool_defs: &'a Vec<ToolDef>,
    pub last_turn_results: Vec<ToolResultSummary>,
    pub last_user_message: Option<String>,
}

/// The names of tools.
pub open spec fn tool_names(defs: Seq<ToolDefView>) -> Seq<Seq<char>> {
    defs.map_values(|d: ToolDefView| d.function.name)
}

/// The part of the reminder that names the tools.
pub open spec fn tools_section(names: Seq<Seq<char>>) -> Seq<char> {
    if names.len() == 0 {
        Seq::empty()
    } else {
        "Available tools: "@ + text::join(names, ", "@) + "\n\n"@
    }
}

/// The line of the reminder for one tool result.
pub open spec fn result_line(r: ToolResultSummaryView) -> Seq<char> {
    "  "@ + r.tool_name + "(\""@ + r.summary + "\") → "@ + (if r.success {
        "Success"@
    } else {
        "Failed"@
    }) + "\n"@
}

/// The lines of the reminder for some tool results.
pub open spec fn result_lines(results: Seq<ToolResultSummaryView>) -> Seq<char>
    decreases results.len(),
{
    if results.len() == 0 {
        Seq::empty()
    } else {
        result_lines(results.drop_last()) + result_line(results.last())
    }
}

/// The part of the reminder for the results of the last turn.
pub open spec fn results_section(results: Seq<ToolResultSummaryView>) -> Seq<char> {
    if results.len() == 0 {
        Seq::empty()
    } else {
        "<last_turn_results>\n"@ + result_lines(results) + "</last_turn_results>\n\n"@
    }
}

/// The part of the reminder that repeats what the user asked for.
pub open spec fn request_section(message: Option<Seq<char>>) -> Seq<char> {
    match message {
        Some(m) => "Most recent user request: \""@ + m + "\"\n\n"@,
        None => Seq::empty(),
    }
}

/// What the model is told to do in a turn.
pub open spec fn guidance(step: int) -> Seq<char> {
    if step == 1 {
        "You are at the start of a task. Use the tools above to accomplish the user's request."@
    } else {
        "Continue the task based on these results. Do not repeat tool calls that already succeeded."@
    }
}

/// The reminder of a turn that starts at the time `now`.
pub open spec fn reminder(
    now: Seq<char>,
    working_directory: Seq<char>,
    step: nat,
    max_steps: nat,
    names: Seq<Seq<char>>,
    results: Seq<ToolResultSummaryView>,
    request: Option<Seq<char>>,
) -> Seq<char> {
    "<system-reminder>\nCurrent time: "@ + now + "\nWorking directory: "@ + working_directory
        + "\nStep: Turn "@ + text::decimal(step) + " of "@ + text::decimal(max_steps) + "\n\n"@
        + tools_section(names) + results_section(results) + request_section(request)
        + "<reminder>"@ + guidance(step as int) + "</reminder>\n</system-reminder>"@
}

/// The reminder that a context stands for at the time `now`.
pub open spec fn context_reminder(ctx: ReminderContext, now: Seq<char>) -> Seq<char> {
    reminder(
        now,
        ctx.working_directory@,
        ctx.step as nat,
        ctx.max_steps as nat,
        tool_names(ToolDef::views(ctx.tool_defs@)),
        ToolResultSummary::views(ctx.last_turn_results@),
        text::opt_view(ctx.last_user_message),
    )
}

/// The names of tools.
pub fn tool_names_of(defs: &Vec<ToolDef>) -> (names: Vec<String>)
    ensures
        text::views(names@) == tool_names(ToolDef::views(defs@)),
{
    let mut names: Vec<String> = Vec::new();
    let mut i: usize = 0;
    while i < defs.len()
        invariant
            i <= defs.len(),
            names.len() == i,
            forall|k: int| 0 <= k < i ==> (#[trigger] names@[k])@ == defs@[k]@.function.name,
        decreases defs.len() - i,
    {
        names.push(defs[i].function.name.clone());
        i += 1;
    }
    assert(text::views(names@) =~= tool_names(ToolDef::views(defs@)));
    names
}

/// The reminder of a turn that starts at the time `now`.
pub fn system_reminder_at(ctx: &ReminderContext, now: &str) -> (s: String)
    ensures
        s@ == context_reminder(*ctx, now@),
{
    let names = tool_names_of(ctx.tool_defs);
    let mut tools = String::new();
    if names.len() > 0 {
        tools.append("Available tools: ");
        tools.append(text::join_strs(&names, ", ").as_str());
        tools.append("\n\n");
        assert(tools@ =~= tools_section(text::views(names@)));
    }
    assert(tools@ == tools_section(text::views(names@)));

    let ghost results = ToolResultSummary::views(ctx.last_turn_results@);
    let mut lines = String::new();
    if ctx.last_turn_results.len() > 0 {
        let mut body = String::new();
        let mut i: usize = 0;
        assert(results.take(0) =~= Seq::empty());
        while i < ctx.last_turn_results.len()
            invariant
                i <= ctx.last_turn_results.len(),
                results == ToolResultSummary::views(ctx.last_turn_results@),
                body@ == result_lines(results.take(i as int)),
            decreases ctx.last_turn_results.len() - i,
        {
            let r = &ctx.last_turn_results[i];
            let mut line = "  ".to_owned();
            line.append(r.tool_name.as_str());
            line.append("(\"");
            line.append(r.summary.as_str());
            line.append("\") → ");
            line.append(if r.success {
                "Success"
            } else {
                "Failed"
            });
            line.append("\n");
            assert(line@ == result_line(r@));
            body.append(line.as_str());
            assert(results.take(i + 1).drop_last() =~= results.take(i as int));
            assert(results.take(i + 1).last() == r@);
            i += 1;
        }
        assert(results.take(results.len() as int) =~= results);
        lines.append("<last_turn_results>\n");
        lines.append(body.as_str());
        lines.append("</last_turn_results>\n\n");
        assert(lines@ =~= results_section(results));
    }
    assert(lines@ == results_section(results));

    let request = match &ctx.last_user_message {
        Some(m) => text::cat3("Most recent user request: \"", m.as_str(), "\"\n\n"),
        None => String::new(),
    };

    let mut s = "<system-reminder>\nCurrent time: ".to_owned();
    s.append(now);
    s.append("\nWorking directory: ");
    s.append(ctx.working_directory.as_str());
    s.append("\nStep: Turn ");
    s.append(text::decimal_of(ctx.step as u64).as_str());
    s.append(" of ");
    s.append(text::decimal_of(ctx.max_steps as u64).as_str());
    s.append("\n\n");
    s.append(tools.as_str());
    s.append(lines.as_str());
    s.append(request.as_str());
    s.append("<reminder>");
    s.append(if ctx.step == 1 {
        "You are at the start of a task. Use the tools above to accomplish the user's request."
    } else {
        "Continue the task based on these results. Do not repeat tool calls that already succeeded."
    });
    s.append("</reminder>\n</system-reminder>");
    s
}

/// The reminder of a turn that starts now.
pub fn build_system_reminder(ctx: &ReminderContext) -> (s: String)
    ensures
        exists|now: Seq<char>| s@ == #[trigger] context_reminder(*ctx, now),
{
    let now = clock::local_time(clock::REMINDER_TIME);
    system_reminder_at(ctx, now.as_str())
}

// ---- the fixed layers ----

/// A skill as it is listed.
#[derive(Debug)]
pub struct SkillEntry {
    pub name: String,
    /// What it is for; it may be empty.
    pub description: String,
}

/// The model of [`SkillEntry`].
pub struct SkillEntryView {
    pub name: Seq<char>,
    pub description: Seq<char>,
}

impl View for SkillEntry {
    type V = SkillEntryView;

    open spec fn view(&self) -> SkillEntryView {
        SkillEntryView {
            name: self.name@,
            description: self.description@,
        }
    }
}

impl SkillEntry {
    /// The models of a sequence of values.
    pub open spec fn views(v: Seq<SkillEntry>) -> Seq<SkillEntryView> {
        v.map_values(|x: SkillEntry| x@)
    }
}

/// Where an agent works.
pub struct Environment {
    /// The directory of the process, where it is known.
    pub current_dir: Option<String>,
    /// Whether the workspace, or else the directory of the process, is a
    /// repository.
    pub is_git: bool,
    pub platform: String,
}

/// What the files hold that the system prompt is made of.
pub struct PromptSources {
    pub environment: Environment,
    /// The prompt for the model, if there is a file.
    pub model_prompt: Option<String>,
    /// The prompt for all models, if there is a file.
    pub default_prompt: Option<String>,
    /// The path of the user's own instructions and what they say, if there is
    /// a file.
    pub user_agents: Option<(String, String)>,
    pub skills: Vec<SkillEntry>,
}

/// What the frontmatter of a skill says.
pub struct SkillMeta {
    pub name: Option<String>,
    pub description: String,
}

/// Puts the system prompt together.
#[derive(Debug)]
pub struct PromptAssembler {
    pub prompts: PromptConfig,
    pub agent_instructions: Option<String>,
    pub workspace_root: Option<String>,
    pub repo_agents_md: Option<String>,
}

/// The directory that the model is told of.
pub open spec fn working_directory(
    workspace: Option<Seq<char>>,
    current_dir: Option<Seq<char>>,
) -> Seq<char> {
    match workspace {
        Some(w) => w,
        None => match current_dir {
            Some(d) => d,
            None => "unknown"@,
        },
    }
}

/// The layer on the environment.
pub open spec fn env_block(
    model_id: Seq<char>,
    cwd: Seq<char>,
    is_git: bool,
    platform: Seq<char>,
    date: Seq<char>,
) -> Seq<char> {
    "You are a CLI AI assistant powered by the model named "@ + model_id
        + ".\nHere is some useful information about the environment you are running in:\n<env>\n  Working directory: "@
        + cwd + "\n  Is directory a git repo: "@ + (if is_git {
        "yes"@
    } else {
        "no"@
    }) + "\n  Platform: "@ + platform + "\n  Today's date: "@ + date + "\n</env>"@
}

/// What a file holds without the whitespace around it; without a file, the
/// default.
pub open spec fn file_or_default(content: Option<Seq<char>>, default: Seq<char>) -> Seq<char> {
    match content {
        Some(c) => text::trimmed(c),
        None => default,
    }
}

/// A layer, where there is anything in it.
pub open spec fn optional_layer(layer: Seq<char>) -> Seq<Seq<char>> {
    if layer.len() == 0 {
        Seq::empty()
    } else {
        seq![layer]
    }
}

/// The layer with the prompt for the model, or else that for all models.
pub open spec fn model_layer(
    model_prompt: Option<Seq<char>>,
    default_prompt: Option<Seq<char>>,
) -> Seq<Seq<char>> {
    let own = file_or_default(model_prompt, Seq::empty());
    if own.len() > 0 {
        seq![own]
    } else {
        optional_layer(file_or_default(default_prompt, Seq::empty()))
    }
}

/// A layer with instructions, which names where they come from.
pub open spec fn instructions_layer(source: Seq<char>, content: Option<Seq<char>>) -> Seq<
    Seq<char>,
> {
    match content {
        Some(c) => if text::trimmed(c).len() == 0 {
            Seq::empty()
        } else {
            seq!["Instructions from: "@ + source + "\n"@ + text::trimmed(c)]
        },
        None => Seq::empty(),
    }
}

/// Where the instructions of the workspace come from.
pub open spec fn workspace_source(workspace: Option<Seq<char>>) -> Seq<char> {
    match workspace {
        Some(w) => paths::joined(w, "AGENTS.md"@),
        None => "<workspace>/AGENTS.md"@,
    }
}

/// The line of the skills index for one skill.
pub open spec fn skill_line(skill: SkillEntryView) -> Seq<char> {
    if skill.description.len() == 0 {
        "  "@ + skill.name + "\n"@
    } else {
        "  "@ + skill.name + " — "@ + skill.description + "\n"@
    }
}

/// The lines of the skills index.
pub open spec fn skill_lines(skills: Seq<SkillEntryView>) -> Seq<char>
    decreases skills.len(),
{
    if skills.len() == 0 {
        Seq::empty()
    } else {
        skill_lines(skills.drop_last()) + skill_line(skills.last())
    }
}

/// The first line of the skills index.
pub const SKILLS_TITLE: &'static str = "Skills available:";

/// How the skills index is to be read.
pub const SKILLS_ADVICE: &'static str =
    "Review the skills below. If a skill's description matches the current task, call use_skill(\"<name>\") to load its full guidance, then apply it.";

/// What stands above the skills.
pub open spec fn skills_heading() -> Seq<char> {
    SKILLS_TITLE@ + "\n"@ + SKILLS_ADVICE@ + "\n"@
}

/// The layer with the skills index.
pub open spec fn skills_layer(skills: Seq<SkillEntryView>) -> Seq<Seq<char>> {
    if skills.len() == 0 {
        Seq::empty()
    } else {
        seq![skills_heading() + skill_lines(skills)]
    }
}

/// The skill that a directory of this name holds; one without a frontmatter
/// goes by the name of its directory.
pub open spec fn skill_of(folder: Seq<char>, meta: Option<SkillMeta>) -> SkillEntryView {
    match meta {
        Some(m) => SkillEntryView {
            name: match m.name {
                Some(n) => n@,
                None => folder,
            },
            description: m.description@,
        },
        None => SkillEntryView { name: folder, description: Seq::empty() },
    }
}

/// The frontmatter of a skill.
pub fn skill_frontmatter(content: &str) -> (r: Option<String>)
    ensures
        match history::after_opening(content@) {
            Some(rest) => match history::frontmatter(rest) {
                Some((yaml, _)) => r matches Some(y) && y@ == yaml,
                None => r is None,
            },
            None => r is None,
        },
{
    match history::strip_frontmatter_prefix(content) {
        Some(rest) => match history::split_frontmatter(rest.as_str()) {
            Some((yaml, _)) => Some(yaml),
            None => None,
        },
        None => None,
    }
}

/// The skill that a directory of this name holds.
pub fn skill_entry(folder: &str, meta: Option<SkillMeta>) -> (e: SkillEntry)
    ensures
        e@ == skill_of(folder@, meta),
{
    match meta {
        Some(m) => SkillEntry {
            name: match m.name {
                Some(n) => n,
                None => folder.to_owned(),
            },
            description: m.description,
        },
        None => SkillEntry { name: folder.to_owned(), description: String::new() },
    }
}

/// What a file holds without the whitespace around it; without a file, the
/// default.
pub fn load_file_or_default(content: &Option<String>, default: &str) -> (s: String)
    ensures
        s@ == file_or_default(text::opt_view(*content), default@),
{
    match content {
        Some(c) => text::trim_str(c.as_str()),
        None => default.to_owned(),
    }
}

fn push_layer(layers: &mut Vec<String>, layer: String)
    ensures
        text::views(final(layers)@) == text::views(old(layers)@) + seq![layer@],
{
    layers.push(layer);
    assert(text::views(layers@) =~= text::views(old(layers)@) + seq![layer@]);
}

fn push_instructions(layers: &mut Vec<String>, source: &str, content: &str)
    ensures
        text::views(final(layers)@) == text::views(old(layers)@) + instructions_layer(
            source@,
            Some(content@),
        ),
{
    let trimmed = text::trim_str(content);
    if !trimmed.as_str().is_empty() {
        let mut layer = text::cat3("Instructions from: ", source, "\n");
        layer.append(trimmed.as_str());
        push_layer(layers, layer);
    } else {
        assert(text::views(layers@) + Seq::empty() =~= text::views(layers@));
    }
}

fn push_skills(layers: &mut Vec<String>, skills: &Vec<SkillEntry>)
    ensures
        text::views(final(layers)@) == text::views(old(layers)@) + skills_layer(
            SkillEntry::views(skills@),
        ),
{
    let ghost all = SkillEntry::views(skills@);
    if skills.len() == 0 {
        assert(text::views(layers@) + Seq::empty() =~= text::views(layers@));
        return;
    }
    let mut lines = String::new();
    let mut i: usize = 0;
    assert(all.take(0) =~= Seq::empty());
    while i < skills.len()
        invariant
            i <= skills.len(),
            all == SkillEntry::views(skills@),
            lines@ == skill_lines(all.take(i as int)),
        decreases skills.len() - i,
    {
        assert(all.take(i + 1).drop_last() =~= all.take(i as int));
        assert(all.take(i + 1).last() == skills@[i as int]@);
        let skill = &skills[i];
        let mut line = text::cat2("  ", skill.name.as_str());
        if !skill.description.as_str().is_empty() {
            line.append(" — ");
            line.append(skill.description.as_str());
        }
        line.append("\n");
        assert(line@ == skill_line(skill@));
        lines.append(line.as_str());
        i += 1;
    }
    assert(all.take(all.len() as int) =~= all);
    let mut index = text::cat3(SKILLS_TITLE, "\n", SKILLS_ADVICE);
    index.append("\n");
    index.append(lines.as_str());
    push_layer(layers, index);
}

impl PromptAssembler {
    /// The layers of the system prompt, in order: the environment, the prompt
    /// for the model, the user's instructions, those of the workspace, those of
    /// the agent, and the skills.
    pub open spec fn layers(
        &self,
        model_id: Seq<char>,
        sources: PromptSources,
        date: Seq<char>,
    ) -> Seq<Seq<char>> {
        let workspace = text::opt_view(self.workspace_root);
        seq![
            env_block(
                model_id,
                working_directory(workspace, text::opt_view(sources.environment.current_dir)),
                sources.environment.is_git,
                sources.environment.platform@,
                date,
            ),
        ] + model_layer(
            text::opt_view(sources.model_prompt),
            text::opt_view(sources.default_prompt),
        ) + (match sources.user_agents {
            Some(a) => instructions_layer(a.0@, Some(a.1@)),
            None => Seq::empty(),
        }) + instructions_layer(workspace_source(workspace), text::opt_view(self.repo_agents_md))
            + (match self.agent_instructions {
            Some(i) => optional_layer(text::trimmed(i@)),
            None => Seq::empty(),
        }) + skills_layer(SkillEntry::views(sources.skills@))
    }

    /// For an agent without settings of its own.
    pub fn new(config: Config) -> (a: PromptAssembler)
        ensures
            a.prompts == config.prompts,
            a.agent_instructions is None,
            a.workspace_root is None,
            a.repo_agents_md is None,
    {
        PromptAssembler {
            prompts: config.prompts,
            agent_instructions: None,
            workspace_root: None,
            repo_agents_md: None,
        }
    }

    /// For an agent: its files and instructions go before those of the
    /// configuration.
    pub fn for_agent(config: &Config, agent: Option<&AgentConfig>) -> (a: PromptAssembler)
        ensures
            text::opt_view(a.prompts.model_specific) == (match agent {
                Some(g) => match g.model_specific {
                    Some(m) => Some(m@),
                    None => text::opt_view(config.prompts.model_specific),
                },
                None => text::opt_view(config.prompts.model_specific),
            }),
            a.prompts.default@ == (match agent {
                Some(g) => match g.default {
                    Some(d) => d@,
                    None => config.prompts.default@,
                },
                None => config.prompts.default@,
            }),
            text::views(a.prompts.instructions@) == text::views(config.prompts.instructions@),
            text::opt_view(a.agent_instructions) == (match agent {
                Some(g) => text::opt_view(g.instructions),
                None => None,
            }),
            a.workspace_root is None,
            a.repo_agents_md is None,
    {
        let mut model_specific = text::clone_opt(&config.prompts.model_specific);
        let mut default = config.prompts.default.clone();
        let mut agent_instructions: Option<String> = None;
        match agent {
            Some(g) => {
                match &g.model_specific {
                    Some(m) => {
                        model_specific = Some(m.clone());
                    },
                    None => {},
                }
                match &g.default {
                    Some(d) => {
                        default = d.clone();
                    },
                    None => {},
                }
                agent_instructions = text::clone_opt(&g.instructions);
            },
            None => {},
        }
        PromptAssembler {
            prompts: PromptConfig {
                default,
                model_specific,
                instructions: text::clone_strs(&config.prompts.instructions),
            },
            agent_instructions,
            workspace_root: None,
            repo_agents_md: None,
        }
    }

    /// For a workspace, with the instructions that it holds.
    pub fn with_workspace_context(
        self,
        workspace_root: Option<String>,
        repo_agents_md: Option<String>,
    ) -> (a: PromptAssembler)
        ensures
            a == (PromptAssembler { workspace_root, repo_agents_md, ..self }),
    {
        let mut a = self;
        a.workspace_root = workspace_root;
        a.repo_agents_md = repo_agents_md;
        a
    }

    /// The file with the prompt for the model: the one that is configured, or
    /// else one that is named after the provider.
    pub fn model_prompt_path(&self, model_provider: &str) -> (s: String)
        ensures
            s@ == match self.prompts.model_specific {
                Some(p) => p@,
                None => paths::joined("prompts"@, model_provider@ + ".txt"@),
            },
    {
        match &self.prompts.model_specific {
            Some(p) => p.clone(),
            None => paths::join_path("prompts", text::cat2(model_provider, ".txt").as_str()),
        }
    }

    /// The layer on the environment, on this day.
    pub fn env_block_at(&self, model_id: &str, environment: &Environment, date: &str) -> (s: String)
        ensures
            s@ == env_block(
                model_id@,
                working_directory(
                    text::opt_view(self.workspace_root),
                    text::opt_view(environment.current_dir),
                ),
                environment.is_git,
                environment.platform@,
                date@,
            ),
    {
        let cwd = match &self.workspace_root {
            Some(w) => w.clone(),
            None => match &environment.current_dir {
                Some(d) => d.clone(),
                None => "unknown".to_owned(),
            },
        };
        let mut s = text::cat3(
            "You are a CLI AI assistant powered by the model named ",
            model_id,
            ".\nHere is some useful information about the environment you are running in:\n<env>\n  Working directory: ",
        );
        s.append(cwd.as_str());
        s.append("\n  Is directory a git repo: ");
        s.append(
            if environment.is_git {
                "yes"
            } else {
                "no"
            },
        );
        s.append("\n  Platform: ");
        s.append(environment.platform.as_str());
        s.append("\n  Today's date: ");
        s.append(date);
        s.append("\n</env>");
        s
    }

    /// The layer on the environment, today.
    pub fn build_env_block(&self, model_id: &str, environment: &Environment) -> (s: String)
        ensures
            exists|date: Seq<char>|
                s@ == #[trigger] env_block(
                    model_id@,
                    working_directory(
                        text::opt_view(self.workspace_root),
                        text::opt_view(environment.current_dir),
                    ),
                    environment.is_git,
                    environment.platform@,
                    date,
                ),
    {
        let date = clock::local_time(clock::TODAY);
        self.env_block_at(model_id, environment, date.as_str())
    }

    /// The layers of the system prompt, on this day.
    pub fn assemble_at(&self, model_id: &str, sources: &PromptSources, date: &str) -> (layers: Vec<
        String,
    >)
        ensures
            text::views(layers@) == self.layers(model_id@, *sources, date@),
    {
        let mut layers: Vec<String> = Vec::new();
        let env = self.env_block_at(model_id, &sources.environment, date);
        layers.push(env);
        assert(text::views(layers@) =~= seq![env@]);

        let ghost so_far = text::views(layers@);
        assert(so_far + Seq::empty() =~= so_far);
        let own = load_file_or_default(&sources.model_prompt, "");
        proof {
            reveal_strlit("");
            assert(""@ =~= Seq::empty());
        }
        if !own.as_str().is_empty() {
            push_layer(&mut layers, own);
        } else {
            let default = load_file_or_default(&sources.default_prompt, "");
            if !default.as_str().is_empty() {
                push_layer(&mut layers, default);
            }
        }

        let ghost so_far = text::views(layers@);
        assert(so_far + Seq::empty() =~= so_far);
        match &sources.user_agents {
            Some(a) => push_instructions(&mut layers, a.0.as_str(), a.1.as_str()),
            None => {},
        }

        let ghost so_far = text::views(layers@);
        assert(so_far + Seq::empty() =~= so_far);
        match &self.repo_agents_md {
            Some(content) => {
                let source = match &self.workspace_root {
                    Some(w) => paths::join_path(w.as_str(), "AGENTS.md"),
                    None => "<workspace>/AGENTS.md".to_owned(),
                };
                push_instructions(&mut layers, source.as_str(), content.as_str());
            },
            None => {},
        }

        let ghost so_far = text::views(layers@);
        assert(so_far + Seq::empty() =~= so_far);
        match &self.agent_instructions {
            Some(i) => {
                let trimmed = text::trim_str(i.as_str());
                if !trimmed.as_str().is_empty() {
                    push_layer(&mut layers, trimmed);
                }
            },
            None => {},
        }

        push_skills(&mut layers, &sources.skills);
        layers
    }

    /// The layers of the system prompt, today.
    pub fn assemble(&self, model_id: &str, sources: &PromptSources) -> (layers: Vec<String>)
        ensures
            exists|date: Seq<char>|
                text::views(layers@) == #[trigger] self.layers(model_id@, *sources, date),
    {
        let date = clock::local_time(clock::TODAY);
        self.assemble_at(model_id, sources, date.as_str())
    }
}

} // verus!
