//! What holds of the configuration.

use super::{
    allow_remembered, build_permission_map, config_location, expanded, provider_and_model, reference_at,
    reference_start, starts_name, continues_name, name_len, AgentConfig, Config, Permission,
};
use crate::auth::Auth;
use crate::paths;
use crate::strmap::StrMap;
use crate::text;
use vstd::prelude::*;
use vstd::string::*;

verus! {

/// What an agent may do with a tool is what it is configured to do itself, else
/// what all agents are, else the default.
pub proof fn law_the_nearest_permission_counts(
    config: &Config,
    agent: Option<&AgentConfig>,
    names: &Vec<String>,
    perms: StrMap<Permission>,
    tool: Seq<char>,
)
    requires
        call_ensures(build_permission_map, (config, agent, names), perms),
        tool != "use_skill"@,
        tool != "finish_task"@,
    ensures
        perms@.contains_key(tool) <==> text::views(names@).contains(tool) || tool == "subagent"@,
        perms@.contains_key(tool) ==> ({
            let own = agent is Some && agent->0.permissions@.contains_key(tool);
            let shared = config.permissions.tools@.contains_key(tool);
            &&& own ==> perms@[tool] == agent->0.permissions@[tool]
            &&& !own && shared ==> perms@[tool] == config.permissions.tools@[tool]
            &&& !own && !shared ==> perms@[tool] == config.permissions.default
        }),
{
}

/// The same holds where a single permission is asked for.
pub proof fn law_the_nearest_permission_is_found(
    config: &Config,
    agent_name: &str,
    tool_name: &str,
    p: Permission,
)
    requires
        call_ensures(Config::resolve_permission, (config, agent_name, tool_name), p),
    ensures
        ({
            let own = config.agents@.contains_key(agent_name@)
                && config.agents@[agent_name@].permissions@.contains_key(tool_name@);
            let shared = config.permissions.tools@.contains_key(tool_name@);
            &&& own ==> p == config.agents@[agent_name@].permissions@[tool_name@]
            &&& !own && shared ==> p == config.permissions.tools@[tool_name@]
            &&& !own && !shared ==> p == config.permissions.default
        }),
{
}

/// What the user allowed for good no longer needs consent; all else stays as it
/// is.
pub proof fn law_remembered_consent_counts(
    perms: StrMap<Permission>,
    remembered: &Vec<String>,
    r: StrMap<Permission>,
    tool: Seq<char>,
)
    requires
        call_ensures(allow_remembered, (perms, remembered), r),
    ensures
        r@.contains_key(tool) <==> perms@.contains_key(tool),
        perms@.contains_key(tool) ==> r@[tool] == if perms@[tool] == Permission::Ask
            && text::views(remembered@).contains(tool) {
            Permission::Allow
        } else {
            perms@[tool]
        },
{
}

proof fn lemma_parts_of_model(provider: Seq<char>, model: Seq<char>)
    requires
        !provider.contains('/'),
    ensures
        provider_and_model(provider + "/"@ + model) == Some((provider, model)),
{
    reveal_strlit("/");
    assert("/"@ =~= seq!['/']);
    let s = provider + "/"@ + model;
    let k = provider.len() as int;
    assert(s[k] == '/');
    assert forall|i: int| 0 <= i < k implies s[i] != '/' by {
        assert(provider.contains(provider[i]));
    }
    text::lemma_find_char(s, '/', k);
    assert(s.take(k) =~= provider);
    assert(s.skip(k + 1) =~= model);
}

proof fn lemma_no_parts(model: Seq<char>)
    requires
        !model.contains('/'),
    ensures
        provider_and_model(model) is None,
{
    reveal_strlit("/");
    assert("/"@ =~= seq!['/']);
    text::lemma_found_char(model, '/');
    if let Some(k) = text::find(model, seq!['/']) {
        assert(model.contains(model[k as int]));
    }
}

/// An agent that names a provider and a model, with a slash between them, uses
/// these two; one that names a model alone uses it with the configured
/// provider; one that names none uses the configured provider.
pub proof fn law_agents_name_their_model(
    config: &Config,
    own: Option<&str>,
    provider: Seq<char>,
    model: Seq<char>,
    used_provider: String,
    used_model: String,
)
    requires
        call_ensures(Config::effective_provider, (config, own), used_provider),
        call_ensures(Config::effective_model_id, (config, own), used_model),
    ensures
        own is Some && !provider.contains('/') && own->0@ == provider + "/"@ + model ==> used_provider@
            == provider && used_model@ == model,
        own is Some && !own->0@.contains('/') ==> used_provider@ == config.model.provider@
            && used_model@ == own->0@,
        own is None ==> used_provider@ == config.model.provider@,
{
    if let Some(m) = own {
        if !provider.contains('/') {
            lemma_parts_of_model(provider, model);
        }
        if !m@.contains('/') {
            lemma_no_parts(m@);
        }
    }
}

/// What names a provider and a model is taken apart at the first slash.
pub proof fn law_models_are_named_behind_their_provider(provider: Seq<char>, model: Seq<char>)
    requires
        !provider.contains('/'),
    ensures
        provider_and_model(provider + "/"@ + model) == Some((provider, model)),
        provider_and_model(provider) is None,
{
    lemma_parts_of_model(provider, model);
    lemma_no_parts(provider);
}

/// An agent's own limit goes before the provider's, and that before the
/// configured one; the same holds of the temperature, for which providers set
/// nothing.
pub proof fn law_the_nearest_limit_counts(
    config: &Config,
    own: Option<u32>,
    provider: &str,
    n: u32,
    temperature: Option<u32>,
    t: u32,
)
    requires
        call_ensures(Config::effective_max_tokens, (config, own, provider), n),
        call_ensures(Config::effective_temperature, (config, temperature), t),
    ensures
        own matches Some(limit) ==> n == limit,
        own is None && provider@ == "deepseek"@ && config.providers.deepseek is Some
            && config.providers.deepseek->0.default_max_tokens is Some ==> Some(n)
            == config.providers.deepseek->0.default_max_tokens,
        own is None && provider@ == "github"@ && config.providers.github is Some
            && config.providers.github->0.default_max_tokens is Some ==> Some(n)
            == config.providers.github->0.default_max_tokens,
        own is None && provider@ == "ollama"@ && config.providers.ollama is Some
            && config.providers.ollama->0.default_max_tokens is Some ==> Some(n)
            == config.providers.ollama->0.default_max_tokens,
        own is None && provider@ != "deepseek"@ && provider@ != "github"@ && provider@ != "ollama"@
            ==> n == config.model.max_tokens,
        temperature matches Some(own_temperature) ==> t == own_temperature,
        temperature is None ==> t == config.model.temperature,
{
    reveal_strlit("deepseek");
    reveal_strlit("github");
    reveal_strlit("ollama");
    assert("github"@[0] != "ollama"@[0]);
    assert("deepseek"@.len() != "ollama"@.len());
    assert("deepseek"@.len() != "github"@.len());
}

/// A key in the credentials goes before one in the configuration.
pub proof fn law_credentials_go_first(
    config: &Config,
    auth: &Auth,
    env: &StrMap<String>,
    r: Result<String, String>,
)
    requires
        call_ensures(Config::resolve_deepseek_api_key, (config, auth, env), r),
    ensures
        ({
            let saved = auth.providers@.contains_key("deepseek"@)
                && auth.providers@["deepseek"@].api_key is Some;
            let configured = config.providers.deepseek is Some
                && config.providers.deepseek->0.api_key is Some;
            &&& saved ==> r is Ok && r->Ok_0@ == expanded(
                auth.providers@["deepseek"@].api_key->0@,
                env@,
            )
            &&& !saved && configured ==> r is Ok && r->Ok_0@ == expanded(
                config.providers.deepseek->0.api_key->0@,
                env@,
            )
            &&& !saved && !configured ==> r is Err
        }),
{
}

proof fn lemma_trim_end_char(s: Seq<char>, c: char)
    ensures
        text::trim_end_char(s, c).len() <= s.len(),
        s.take(text::trim_end_char(s, c).len() as int) == text::trim_end_char(s, c),
        text::trim_end_char(s, c).len() > 0 ==> text::trim_end_char(s, c).last() != c,
        forall|i: int| text::trim_end_char(s, c).len() <= i < s.len() ==> s[i] == c,
    decreases s.len(),
{
    let t = text::trim_end_char(s, c);
    if s.len() > 0 && s.last() == c {
        lemma_trim_end_char(s.drop_last(), c);
        assert(s.take(t.len() as int) =~= s.drop_last().take(t.len() as int));
        assert forall|i: int| t.len() <= i < s.len() implies s[i] == c by {
            if i < s.len() - 1 {
                assert(s.drop_last()[i] == s[i]);
            }
        }
    } else {
        assert(s.take(s.len() as int) =~= s);
    }
}

/// Where a provider is is what the configuration says, without slashes at its
/// end: what follows can be appended with a slash.
pub proof fn law_addresses_end_without_a_slash(
    config: &Config,
    env: &StrMap<String>,
    deepseek: Result<String, String>,
    ollama: Result<String, String>,
)
    requires
        call_ensures(Config::deepseek_base_url, (config, env), deepseek),
        call_ensures(Config::ollama_base_url, (config, env), ollama),
    ensures
        deepseek is Ok <==> config.providers.deepseek is Some,
        deepseek matches Ok(url) ==> ({
            let given = expanded(config.providers.deepseek->0.base_url@, env@);
            &&& url@.len() <= given.len()
            &&& given.take(url@.len() as int) == url@
            &&& url@.len() > 0 ==> url@.last() != '/'
            &&& forall|i: int| url@.len() <= i < given.len() ==> given[i] == '/'
        }),
        ollama is Ok <==> config.providers.ollama is Some,
        ollama matches Ok(url) ==> ({
            let given = expanded(config.providers.ollama->0.base_url@, env@);
            &&& url@.len() <= given.len()
            &&& given.take(url@.len() as int) == url@
            &&& url@.len() > 0 ==> url@.last() != '/'
            &&& forall|i: int| url@.len() <= i < given.len() ==> given[i] == '/'
        }),
{
    if config.providers.deepseek is Some {
        lemma_trim_end_char(expanded(config.providers.deepseek->0.base_url@, env@), '/');
    }
    if config.providers.ollama is Some {
        lemma_trim_end_char(expanded(config.providers.ollama->0.base_url@, env@), '/');
    }
}

proof fn lemma_reference_behind(before: Seq<char>, rest: Seq<char>)
    requires
        !before.contains('$'),
        reference_at(rest) is Some,
        rest.len() > 0,
    ensures
        reference_start(before + rest) == Some(before.len()),
    decreases before.len(),
{
    let s = before + rest;
    if before.len() == 0 {
        assert(s =~= rest);
    } else {
        assert(before.contains(before[0]));
        assert(s[0] != '$');
        assert(reference_at(s) is None);
        assert(s.skip(1) =~= before.skip(1) + rest);
        assert(!before.skip(1).contains('$')) by {
            if before.skip(1).contains('$') {
                let i = choose|i: int| 0 <= i < before.skip(1).len() && before.skip(1)[i] == '$';
                assert(before[i + 1] == '$');
            }
        }
        lemma_reference_behind(before.skip(1), rest);
    }
}

/// A variable in braces is replaced by its value, where it is set; the text
/// around it stays, and what follows is looked through in the same way.
pub proof fn law_variables_in_braces_are_replaced(
    before: Seq<char>,
    name: Seq<char>,
    after: Seq<char>,
    env: Map<Seq<char>, String>,
)
    requires
        !before.contains('$'),
        name.len() > 0,
        !name.contains('}'),
        env.contains_key(name),
    ensures
        expanded(before + seq!['$', '{'] + name + seq!['}'] + after, env) == before + env[name]@
            + expanded(after, env),
{
    let rest = seq!['$', '{'] + name + seq!['}'] + after;
    let s = before + seq!['$', '{'] + name + seq!['}'] + after;
    assert(s =~= before + rest);
    let inner = rest.skip(2);
    let k = name.len() as int;
    assert(inner[k] == '}');
    assert forall|i: int| 0 <= i < k implies inner[i] != '}' by {
        assert(inner[i] == name[i]);
        assert(name.contains(name[i]));
    }
    text::lemma_find_char(inner, '}', k);
    assert(rest.subrange(2, k + 2) =~= name);
    assert(reference_at(rest) == Some(((k + 3) as nat, name)));
    lemma_reference_behind(before, rest);
    let n = before.len() as int;
    assert(s.skip(n) =~= rest);
    assert(s.take(n) =~= before);
    assert(s.skip(n + k + 3) =~= after);
}

proof fn lemma_name_len(name: Seq<char>, after: Seq<char>)
    requires
        forall|i: int| 0 <= i < name.len() ==> continues_name(#[trigger] name[i]),
        after.len() > 0 ==> !continues_name(after[0]),
    ensures
        name_len(name + after) == name.len(),
    decreases name.len(),
{
    let s = name + after;
    if name.len() > 0 {
        assert(continues_name(name[0]));
        assert(s.skip(1) =~= name.skip(1) + after);
        assert forall|i: int| 0 <= i < name.skip(1).len() implies continues_name(
            #[trigger] name.skip(1)[i],
        ) by {
            assert(name.skip(1)[i] == name[i + 1]);
        }
        lemma_name_len(name.skip(1), after);
    } else {
        assert(s =~= after);
    }
}

/// A variable behind a dollar sign is replaced by its value, where it is set;
/// its name goes on as long as letters, digits and underscores do.
pub proof fn law_plain_variables_are_replaced(
    before: Seq<char>,
    name: Seq<char>,
    after: Seq<char>,
    env: Map<Seq<char>, String>,
)
    requires
        !before.contains('$'),
        name.len() > 0,
        starts_name(name[0]),
        forall|i: int| 0 <= i < name.len() ==> continues_name(#[trigger] name[i]),
        after.len() > 0 ==> !continues_name(after[0]),
        env.contains_key(name),
    ensures
        expanded(before + seq!['$'] + name + after, env) == before + env[name]@ + expanded(
            after,
            env,
        ),
{
    let rest = seq!['$'] + name + after;
    let s = before + seq!['$'] + name + after;
    assert(s =~= before + rest);
    let k = name.len() as int;
    let more = name.skip(1);
    assert(rest[1] == name[0]);
    assert(rest.skip(2) =~= more + after);
    assert forall|i: int| 0 <= i < more.len() implies continues_name(#[trigger] more[i]) by {
        assert(more[i] == name[i + 1]);
    }
    lemma_name_len(more, after);
    assert(rest.subrange(1, k + 1) =~= name);
    assert(reference_at(rest) == Some(((k + 1) as nat, name)));
    lemma_reference_behind(before, rest);
    let n = before.len() as int;
    assert(s.skip(n) =~= rest);
    assert(s.take(n) =~= before);
    assert(s.skip(n + k + 1) =~= after);
}

/// Without a model of its own, an agent uses the one that the configured
/// provider sets, else the configured one.
pub proof fn law_the_default_model_is_the_provider_s(config: &Config, m: String)
    requires
        call_ensures(Config::effective_model_id, (config, None::<&str>), m),
    ensures
        ({
            let provider = config.model.provider@;
            let deepseek = config.providers.deepseek is Some
                && config.providers.deepseek->0.default_model is Some;
            let github = config.providers.github is Some
                && config.providers.github->0.default_model is Some;
            let ollama = config.providers.ollama is Some
                && config.providers.ollama->0.default_model is Some;
            &&& provider == "deepseek"@ && deepseek ==> m@
                == config.providers.deepseek->0.default_model->0@
            &&& provider == "github"@ && github ==> m@
                == config.providers.github->0.default_model->0@
            &&& provider == "ollama"@ && ollama ==> m@
                == config.providers.ollama->0.default_model->0@
            &&& !(provider == "deepseek"@ && deepseek) && !(provider == "github"@ && github) && !(
            provider == "ollama"@ && ollama) ==> m@ == config.model.model_id@
        }),
{
    reveal_strlit("deepseek");
    reveal_strlit("github");
    reveal_strlit("ollama");
    assert("github"@[0] != "ollama"@[0]);
    assert("deepseek"@.len() != "ollama"@.len());
    assert("deepseek"@.len() != "github"@.len());
}

/// An agent keeps a mode that there is; another one becomes an agent that users
/// can choose, and all else of it stays.
pub proof fn law_unknown_modes_become_primary(agent: AgentConfig, a: AgentConfig)
    requires
        call_ensures(AgentConfig::with_known_mode, (agent,), a),
    ensures
        agent.mode@ == "primary"@ || agent.mode@ == "subagent"@ || agent.mode@ == "all"@ ==> a
            == agent,
        !(agent.mode@ == "primary"@ || agent.mode@ == "subagent"@ || agent.mode@ == "all"@)
            ==> a.mode@ == "primary"@,
        a.model == agent.model,
        a.instructions == agent.instructions,
        a.permissions == agent.permissions,
        a.temperature == agent.temperature,
        a.max_tokens == agent.max_tokens,
{
}

/// What is configured is kept below the user's home directory, or where there is
/// none, where the server runs.
pub proof fn law_configuration_is_kept_at_home(home: Option<&str>, name: &str, s: String)
    requires
        call_ensures(config_location, (home, name), s),
    ensures
        home is None ==> s@ == name@,
        home is Some && home->0@.len() > 0 && home->0@.last() != '/' && name@.len() > 0 && name@[0]
            != '/' ==> s@ == home->0@ + "/.config/mote/"@ + name@,
{
    reveal_strlit("/");
    reveal_strlit(".config");
    reveal_strlit("mote");
    reveal_strlit("/.config/mote/");
    if let Some(h) = home {
        if h@.len() > 0 && h@.last() != '/' && name@.len() > 0 && name@[0] != '/' {
            let below = h@ + "/"@ + ".config"@;
            assert(paths::joined(h@, ".config"@) =~= below);
            assert(below.last() == 'g');
            let own = below + "/"@ + "mote"@;
            assert(paths::joined(below, "mote"@) =~= own);
            assert(own.last() == 'e');
            assert("/"@ + ".config"@ + "/"@ + "mote"@ + "/"@ =~= "/.config/mote/"@);
            assert(own + "/"@ + name@ =~= h@ + ("/"@ + ".config"@ + "/"@ + "mote"@ + "/"@)
                + name@);
        }
    }
}

} // verus!
