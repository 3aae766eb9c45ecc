//! What holds of the system prompt and of those who read it.

use super::{
    Environment, PromptAssembler, PromptSources, ReminderContext, SkillEntry, SkillEntryView,
    SkillMeta, ToolResultSummary, ToolResultSummaryView, SKILLS_ADVICE, SKILLS_TITLE,
};
use crate::agent;
use crate::config::{AgentConfig, Config};
use crate::llm::stream;
use crate::llm::ToolDef;
use crate::paths;
use crate::prompt;
use crate::text;
use vstd::prelude::*;
use vstd::string::*;

verus! {

/// Whether the index can list a skill: its name and its description are on one
/// line and not blank at their ends, and the name does not hold what separates
/// the two.
pub open spec fn can_be_listed(s: SkillEntryView) -> bool {
    &&& s.name.len() > 0 && text::trimmed(s.name) == s.name && !s.name.contains('\n')
    &&& text::find(s.name + " — "@, " — "@) == Some(s.name.len())
    &&& text::find(s.name, " — "@) is None
    &&& text::trimmed(s.description) == s.description && !s.description.contains('\n')
}

/// The names of the skills that have a description.
pub open spec fn described(skills: Seq<SkillEntryView>) -> Seq<Seq<char>>
    decreases skills.len(),
{
    if skills.len() == 0 {
        Seq::empty()
    } else {
        let before = described(skills.drop_last());
        if skills.last().description.len() > 0 {
            before.push(skills.last().name)
        } else {
            before
        }
    }
}

/// The line of the index for a skill, without its end.
spec fn bare_line(s: SkillEntryView) -> Seq<char> {
    if s.description.len() == 0 {
        "  "@ + s.name
    } else {
        "  "@ + s.name + " — "@ + s.description
    }
}

spec fn bare_lines(skills: Seq<SkillEntryView>) -> Seq<Seq<char>> {
    skills.map_values(|s: SkillEntryView| bare_line(s))
}

proof fn lemma_contains(a: Seq<char>, b: Seq<char>, c: char)
    ensures
        (a + b).contains(c) == (a.contains(c) || b.contains(c)),
{
    if (a + b).contains(c) {
        let i = choose|i: int| 0 <= i < (a + b).len() && (a + b)[i] == c;
        if i < a.len() {
            assert(a[i] == c);
        } else {
            assert(b[i - a.len()] == c);
        }
    }
    if a.contains(c) {
        let i = choose|i: int| 0 <= i < a.len() && a[i] == c;
        assert((a + b)[i] == c);
    }
    if b.contains(c) {
        let i = choose|i: int| 0 <= i < b.len() && b[i] == c;
        assert((a + b)[a.len() + i] == c);
    }
}

proof fn lemma_bare_line(s: SkillEntryView)
    requires
        can_be_listed(s),
    ensures
        !bare_line(s).contains('\n'),
        bare_line(s).last() != '\r',
        prompt::skill_line(s) == bare_line(s) + "\n"@,
        agent::line_skill(bare_line(s)) == if s.description.len() > 0 {
            Some(s.name)
        } else {
            None::<Seq<char>>
        },
{
    reveal_strlit("  ");
    reveal_strlit(" — ");
    assert("  "@ =~= seq![' ', ' ']);
    assert(" — "@ =~= seq![' ', '—', ' ']);
    let line = bare_line(s);
    text::lemma_trimmed_ends(s.name);
    lemma_contains("  "@, s.name, '\n');
    assert(!"  "@.contains('\n'));
    assert(!" — "@.contains('\n'));
    if s.description.len() == 0 {
        assert(line.last() == s.name.last());
        let core = s.name;
        assert(line.skip(1).skip(1) =~= core);
        assert(line[0] == ' ' && line.skip(1)[0] == ' ');
        assert(core[0] == s.name[0]);
        reveal_with_fuel(text::trim_start, 3);
        assert(text::trim_start(line) == core);
        assert(text::trimmed(line) == core);
    } else {
        text::lemma_trimmed_ends(s.description);
        lemma_contains("  "@ + s.name, " — "@, '\n');
        lemma_contains("  "@ + s.name + " — "@, s.description, '\n');
        let core = s.name + " — "@ + s.description;
        assert(line.last() == s.description.last());
        assert(line.skip(1).skip(1) =~= core);
        assert(line[0] == ' ' && line.skip(1)[0] == ' ');
        assert(core[0] == s.name[0]);
        reveal_with_fuel(text::trim_start, 3);
        assert(text::trim_start(line) == core);
        assert(core.last() == s.description.last());
        assert(text::trimmed(line) == core);
        stream::lemma_find_in_longer(s.name + " — "@, s.description, " — "@);
        assert(core.take(s.name.len() as int) =~= s.name);
    }
}

/// The lines of the index, in front of others.
proof fn lemma_index_lines(skills: Seq<SkillEntryView>, rest: Seq<char>)
    requires
        forall|i: int| 0 <= i < skills.len() ==> can_be_listed(#[trigger] skills[i]),
    ensures
        text::lines(prompt::skill_lines(skills) + rest) == bare_lines(skills) + text::lines(rest),
    decreases skills.len(),
{
    if skills.len() == 0 {
        assert(prompt::skill_lines(skills) + rest =~= rest);
        assert(bare_lines(skills) + text::lines(rest) =~= text::lines(rest));
    } else {
        let s = skills.last();
        let before = skills.drop_last();
        let line = bare_line(s);
        lemma_bare_line(s);
        lemma_index_lines(before, prompt::skill_line(s) + rest);
        assert(prompt::skill_lines(skills) + rest =~= prompt::skill_lines(before) + (
        prompt::skill_line(s) + rest));
        assert(prompt::skill_line(s) + rest =~= line + "\n"@ + rest);
        text::lemma_first_line(line, rest);
        assert(bare_lines(skills) =~= bare_lines(before).push(line));
        assert(bare_lines(before) + (seq![line] + text::lines(rest)) =~= bare_lines(skills)
            + text::lines(rest));
    }
}

proof fn lemma_line_names(skills: Seq<SkillEntryView>)
    requires
        forall|i: int| 0 <= i < skills.len() ==> can_be_listed(#[trigger] skills[i]),
    ensures
        agent::line_skills(bare_lines(skills)) == described(skills),
    decreases skills.len(),
{
    if skills.len() > 0 {
        let before = skills.drop_last();
        lemma_line_names(before);
        lemma_bare_line(skills.last());
        assert(bare_lines(skills).drop_last() =~= bare_lines(before));
        assert(bare_lines(skills).last() == bare_line(skills.last()));
    }
}

proof fn lemma_not_found(s: Seq<char>, p: Seq<char>, j: int)
    requires
        0 <= j < p.len(),
        !s.contains(p[j]),
    ensures
        text::find(s, p) is None,
    decreases s.len(),
{
    if text::starts_with(s, p) {
        assert(s.take(p.len() as int)[j] == s[j]);
    } else if s.len() > 0 {
        if s.skip(1).contains(p[j]) {
            let i = choose|i: int| 0 <= i < s.skip(1).len() && s.skip(1)[i] == p[j];
            assert(s[i + 1] == p[j]);
        }
        lemma_not_found(s.skip(1), p, j);
    }
}

proof fn lemma_after_no_name(line: Seq<char>, more: Seq<Seq<char>>)
    requires
        agent::line_skill(line) is None,
    ensures
        agent::line_skills(seq![line] + more) == agent::line_skills(more),
    decreases more.len(),
{
    let all = seq![line] + more;
    if more.len() == 0 {
        assert(all.drop_last() =~= Seq::empty());
        assert(all.last() == line);
        assert(agent::line_skills(all.drop_last()) =~= Seq::empty());
    } else {
        assert(all.drop_last() =~= seq![line] + more.drop_last());
        assert(all.last() == more.last());
        lemma_after_no_name(line, more.drop_last());
    }
}

proof fn lemma_heading_lines()
    ensures
        !SKILLS_TITLE@.contains('\n'),
        SKILLS_TITLE@.len() > 0 && SKILLS_TITLE@.last() != '\r',
        !SKILLS_ADVICE@.contains('\n'),
        SKILLS_ADVICE@.len() > 0 && SKILLS_ADVICE@.last() != '\r',
        agent::line_skill(SKILLS_ADVICE@) is None,
{
    reveal_strlit("Skills available:");
    reveal_strlit("Review the skills below. If a skill's description matches the current task, call use_skill(\"<name>\") to load its full guidance, then apply it.");
    reveal_strlit(" — ");
    assert(!SKILLS_ADVICE@.contains('—'));
    assert(" — "@[1] == '—');
    text::lemma_trimmed_ends(SKILLS_ADVICE@);
    lemma_not_found(SKILLS_ADVICE@, " — "@, 1);
}

/// The skills that the agent loop finds in the index are those that were put
/// there with a description.
pub proof fn law_described_skills_are_loaded(skills: Seq<SkillEntryView>)
    requires
        forall|i: int| 0 <= i < skills.len() ==> can_be_listed(#[trigger] skills[i]),
    ensures
        agent::listed_skills(prompt::skills_layer(skills)) == described(skills),
{
    let layers = prompt::skills_layer(skills);
    if skills.len() > 0 {
        let layer = prompt::skills_heading() + prompt::skill_lines(skills);
        let below = SKILLS_ADVICE@ + "\n"@ + prompt::skill_lines(skills);
        let names = bare_lines(skills);
        lemma_heading_lines();
        assert(layer =~= SKILLS_TITLE@ + "\n"@ + below);
        text::lemma_first_line(SKILLS_TITLE@, below);
        text::lemma_first_line(SKILLS_ADVICE@, prompt::skill_lines(skills));
        lemma_index_lines(skills, Seq::empty());
        assert(prompt::skill_lines(skills) + Seq::<char>::empty() =~= prompt::skill_lines(skills));
        assert(text::lines(prompt::skill_lines(skills)) =~= names);
        assert(text::lines(layer) =~= seq![SKILLS_TITLE@, SKILLS_ADVICE@] + names);
        assert(text::lines(layer).skip(1) =~= seq![SKILLS_ADVICE@] + names);
        assert(layer.take(SKILLS_TITLE@.len() as int) =~= SKILLS_TITLE@);
        lemma_line_names(skills);
        lemma_after_no_name(SKILLS_ADVICE@, names);
        assert(layers.drop_last() =~= Seq::empty());
        assert(layers.last() == layer);
        assert(agent::listed_skills(layers.drop_last()) =~= Seq::empty());
        assert(agent::listed_skills(layers) =~= described(skills));
    }
}

/// One, where something holds.
pub open spec fn one_if(b: bool) -> int {
    if b {
        1
    } else {
        0
    }
}

/// Whether there is a text with anything but whitespace in it.
pub open spec fn says_something(s: Option<Seq<char>>) -> bool {
    s is Some && text::trimmed(s->0).len() > 0
}

/// The line of the skills index for each skill: its name and, behind a dash,
/// what it is for, where that is said.
pub open spec fn index_lines(skills: Seq<SkillEntryView>) -> Seq<Seq<char>> {
    Seq::new(
        skills.len(),
        |i: int|
            if skills[i].description.len() == 0 {
                "  "@ + skills[i].name + "\n"@
            } else {
                "  "@ + skills[i].name + " — "@ + skills[i].description + "\n"@
            },
    )
}

proof fn lemma_index_text(skills: Seq<SkillEntryView>)
    ensures
        prompt::skill_lines(skills) == stream::run_together(index_lines(skills)),
    decreases skills.len(),
{
    if skills.len() > 0 {
        lemma_index_text(skills.drop_last());
        assert(index_lines(skills).drop_last() =~= index_lines(skills.drop_last()));
    } else {
        assert(index_lines(skills) =~= Seq::empty());
    }
}

/// The system prompt consists of what there is of these layers, in this order:
/// the environment, the prompt for the model or else the one for all models, the
/// user's instructions, those of the workspace, those of the agent, and an index
/// of all skills. Instructions from files say where they come from.
pub proof fn law_the_prompt_has_its_layers_in_order(
    assembler: &PromptAssembler,
    model_id: &str,
    sources: &PromptSources,
    date: &str,
    layers: Vec<String>,
)
    requires
        call_ensures(PromptAssembler::assemble_at, (assembler, model_id, sources, date), layers),
    ensures
        ({
            let own = text::opt_view(sources.model_prompt);
            let shared = text::opt_view(sources.default_prompt);
            let user = match sources.user_agents {
                Some(file) => Some(file.1@),
                None => None,
            };
            let user_file = match sources.user_agents {
                Some(file) => file.0@,
                None => Seq::empty(),
            };
            let repo = text::opt_view(assembler.repo_agents_md);
            let agent = text::opt_view(assembler.agent_instructions);
            let skills = SkillEntry::views(sources.skills@);
            let m = one_if(says_something(own) || says_something(shared));
            let u = one_if(says_something(user));
            let w = one_if(says_something(repo));
            let a = one_if(says_something(agent));
            let k = one_if(skills.len() > 0);
            &&& layers@.len() == 1 + m + u + w + a + k
            &&& says_something(own) ==> layers@[1]@ == text::trimmed(own->0)
            &&& !says_something(own) && says_something(shared) ==> layers@[1]@ == text::trimmed(
                shared->0,
            )
            &&& u == 1 ==> layers@[1 + m]@ == "Instructions from: "@ + user_file + "\n"@ + text::trimmed(user->0)
            &&& w == 1 && assembler.workspace_root is Some ==> layers@[1 + m + u]@
                == "Instructions from: "@ + paths::joined(
                assembler.workspace_root->0@,
                "AGENTS.md"@,
            ) + "\n"@ + text::trimmed(repo->0)
            &&& a == 1 ==> layers@[1 + m + u + w]@ == text::trimmed(agent->0)
            &&& k == 1 ==> layers@[1 + m + u + w + a]@ == SKILLS_TITLE@ + "\n"@ + SKILLS_ADVICE@
                + "\n"@ + stream::run_together(index_lines(skills))
        }),
{
    lemma_index_text(SkillEntry::views(sources.skills@));
    let own = text::opt_view(sources.model_prompt);
    let shared = text::opt_view(sources.default_prompt);
    let all = text::views(layers@);
    assert(all.len() == layers@.len());
    assert forall|i: int| 0 <= i < all.len() implies #[trigger] all[i] == layers@[i]@ by {}
    let env = seq![
        prompt::env_block(
            model_id@,
            prompt::working_directory(
                text::opt_view(assembler.workspace_root),
                text::opt_view(sources.environment.current_dir),
            ),
            sources.environment.is_git,
            sources.environment.platform@,
            date@,
        ),
    ];
    let model = prompt::model_layer(own, shared);
    let user = match sources.user_agents {
        Some(a) => prompt::instructions_layer(a.0@, Some(a.1@)),
        None => Seq::empty(),
    };
    let repo = prompt::instructions_layer(
        prompt::workspace_source(text::opt_view(assembler.workspace_root)),
        text::opt_view(assembler.repo_agents_md),
    );
    let agent = match assembler.agent_instructions {
        Some(i) => prompt::optional_layer(text::trimmed(i@)),
        None => Seq::empty(),
    };
    let index = prompt::skills_layer(SkillEntry::views(sources.skills@));
    assert(all == env + model + user + repo + agent + index);
    let n = env.len() + model.len() + user.len() + repo.len();
    if model.len() > 0 {
        assert(all[1] == model[0]);
    }
    if user.len() > 0 {
        assert(all[(1 + model.len()) as int] == user[0]);
    }
    if repo.len() > 0 {
        assert(all[(1 + model.len() + user.len()) as int] == repo[0]);
    }
    if agent.len() > 0 {
        assert(all[n as int] == agent[0]);
    }
    if index.len() > 0 {
        assert(all[(n + agent.len()) as int] == index[0]);
    }
}

/// The layer on the environment names the model, the directory, the platform
/// and the day: the workspace where there is one, else the directory of the
/// process.
pub proof fn law_the_environment_is_told(
    assembler: &PromptAssembler,
    model_id: &str,
    environment: &Environment,
    date: &str,
    s: String,
)
    requires
        call_ensures(PromptAssembler::env_block_at, (assembler, model_id, environment, date), s),
    ensures
        ({
            let dir = if assembler.workspace_root is Some {
                assembler.workspace_root->0@
            } else if environment.current_dir is Some {
                environment.current_dir->0@
            } else {
                "unknown"@
            };
            s@ == "You are a CLI AI assistant powered by the model named "@ + model_id@
                + ".\nHere is some useful information about the environment you are running in:\n<env>\n  Working directory: "@
                + dir + "\n  Is directory a git repo: "@ + (if environment.is_git {
                "yes"@
            } else {
                "no"@
            }) + "\n  Platform: "@ + environment.platform@ + "\n  Today's date: "@ + date@
                + "\n</env>"@
        }),
{
}

/// An agent's own files and instructions go before those of the configuration.
pub proof fn law_agents_have_their_own_prompt(
    config: &Config,
    agent: Option<&AgentConfig>,
    a: PromptAssembler,
)
    requires
        call_ensures(PromptAssembler::for_agent, (config, agent), a),
    ensures
        agent is Some && agent->0.model_specific is Some ==> text::opt_view(
            a.prompts.model_specific,
        ) == text::opt_view(agent->0.model_specific),
        agent is None || agent->0.model_specific is None ==> text::opt_view(
            a.prompts.model_specific,
        ) == text::opt_view(config.prompts.model_specific),
        agent is Some && agent->0.default is Some ==> a.prompts.default@ == agent->0.default->0@,
        agent is None || agent->0.default is None ==> a.prompts.default@
            == config.prompts.default@,
        agent is Some ==> text::opt_view(a.agent_instructions) == text::opt_view(
            agent->0.instructions,
        ),
        agent is None ==> a.agent_instructions is None,
{
}

/// What is said of each tool result: the tool, what came of it, and whether it
/// succeeded.
pub open spec fn told_results(results: Seq<ToolResultSummaryView>) -> Seq<Seq<char>> {
    Seq::new(
        results.len(),
        |i: int|
            "  "@ + results[i].tool_name + "(\""@ + results[i].summary + "\") → "@ + (
            if results[i].success {
                "Success"@
            } else {
                "Failed"@
            }) + "\n"@,
    )
}

proof fn lemma_told_results(results: Seq<ToolResultSummaryView>)
    ensures
        prompt::result_lines(results) == stream::run_together(told_results(results)),
    decreases results.len(),
{
    if results.len() > 0 {
        lemma_told_results(results.drop_last());
        assert(told_results(results).drop_last() =~= told_results(results.drop_last()));
    } else {
        assert(told_results(results) =~= Seq::empty());
    }
}

/// The reminder of a turn tells the model the time, where it works, which turn
/// it is and how many there are, which tools it has, what came of each tool of
/// the last turn in order, and what the user asked for.
pub proof fn law_the_reminder_tells_how_things_stand(ctx: &ReminderContext, now: &str, s: String)
    requires
        call_ensures(prompt::system_reminder_at, (ctx, now), s),
    ensures
        ({
            let names = prompt::tool_names(ToolDef::views(ctx.tool_defs@));
            let results = ToolResultSummary::views(ctx.last_turn_results@);
            let tools = if names.len() == 0 {
                Seq::empty()
            } else {
                "Available tools: "@ + text::join(names, ", "@) + "\n\n"@
            };
            let came = if results.len() == 0 {
                Seq::empty()
            } else {
                "<last_turn_results>\n"@ + stream::run_together(told_results(results))
                    + "</last_turn_results>\n\n"@
            };
            let asked = if ctx.last_user_message is None {
                Seq::empty()
            } else {
                "Most recent user request: \""@ + ctx.last_user_message->0@ + "\"\n\n"@
            };
            text::starts_with(
                s@,
                "<system-reminder>\nCurrent time: "@ + now@ + "\nWorking directory: "@
                    + ctx.working_directory@ + "\nStep: Turn "@ + text::decimal(ctx.step as nat)
                    + " of "@ + text::decimal(ctx.max_steps as nat) + "\n\n"@ + tools + came
                    + asked,
            )
        }),
{
    let names = prompt::tool_names(ToolDef::views(ctx.tool_defs@));
    let results = ToolResultSummary::views(ctx.last_turn_results@);
    lemma_told_results(results);
    let end = "<reminder>"@ + prompt::guidance(ctx.step as int)
        + "</reminder>\n</system-reminder>"@;
    let start = "<system-reminder>\nCurrent time: "@ + now@ + "\nWorking directory: "@
        + ctx.working_directory@ + "\nStep: Turn "@ + text::decimal(ctx.step as nat) + " of "@
        + text::decimal(ctx.max_steps as nat) + "\n\n"@ + prompt::tools_section(names)
        + prompt::results_section(results) + prompt::request_section(
        text::opt_view(ctx.last_user_message),
    );
    assert(s@ =~= start + end);
    assert(s@.take(start.len() as int) =~= start);
}

/// A skill goes by the name in its frontmatter, else by that of its directory,
/// with the description that the frontmatter gives.
pub proof fn law_skills_go_by_their_names(folder: &str, meta: Option<SkillMeta>, e: SkillEntry)
    requires
        call_ensures(prompt::skill_entry, (folder, meta), e),
    ensures
        meta is Some && meta->0.name is Some ==> e.name@ == meta->0.name->0@,
        meta is None || meta->0.name is None ==> e.name@ == folder@,
        meta is Some ==> e.description@ == meta->0.description@,
        meta is None ==> e.description@.len() == 0,
{
}

} // verus!
