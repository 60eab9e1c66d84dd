//! The command dispatcher: a total mapping from a parsed command to the one
//! operation or workflow that runs it, against the resolved configuration.

#![verifier::loop_isolation(false)]

use vstd::prelude::*;
use crate::strutil::{spec_ascii_lower, spec_dec, ascii_lower, chars_of, str_eq, strings_view};
use crate::config::Config;
use crate::requests::{
    ApiRequest, Method, spec_plain_request, with_user, memory_status_request,
    memory_search_request, memory_list_request, memory_clear_request, skills_list_request,
    skill_log_request, context_debug_request, context_refresh_request, context_file_request,
    context_stats_request,
};
use crate::workflow::{ResolvedUser, ReflectScope, resolve_user, reflect_scope, chars_eq_str};

verus! {

/// A parsed memory subcommand.
pub enum MemoryAction {
    Status { deep: bool },
    Search { query: String, limit: usize, user: Option<String> },
    Index { content: Option<String>, file: Option<String>, tags: Vec<String> },
    List { limit: usize, user: Option<String> },
    Clear { user: String, force: bool },
}

/// A parsed skills subcommand.
pub enum SkillsAction {
    List { detailed: bool },
    Test { skill: String, params: Option<String> },
    Invoke { skill: String, params: String, user: Option<String> },
    Log { skill: Option<String>, limit: usize },
}

/// A parsed context subcommand.
pub enum ContextAction {
    Status { freshness: bool },
    Refresh { force: bool },
    Show { name: String, raw: bool },
    List,
    Stats,
}

/// A parsed configuration subcommand.
pub enum ConfigAction {
    Show,
    SetValue { key: String, value: String },
    Init { force: bool },
    Path,
}

/// A parsed command.
pub enum Command {
    Memory(MemoryAction),
    Skills(SkillsAction),
    Context(ContextAction),
    Reflect { session: Option<String>, export: bool, user: Option<String> },
    Chat { message: Option<String>, user: Option<String>, continue_session: bool },
    Health { deep: bool },
    Config(ConfigAction),
}

/// Where the content to index comes from.
pub enum IndexSource {
    /// Given inline on the command.
    Inline { content: String },
    /// To be read from this file.
    FromFile { path: String },
    /// To be read from standard input.
    FromStdin,
}

/// Chooses the indexing input: inline content wins, then a file, then
/// standard input.
pub fn index_source(content: Option<String>, file: Option<String>) -> (r: IndexSource)
    ensures
        content matches Some(c) ==> (r matches IndexSource::Inline { content: x } && x == c),
        content is None ==> match file {
            Some(f) => r matches IndexSource::FromFile { path: p } && p == f,
            None => r is FromStdin,
        },
{
    match content {
        Some(c) => IndexSource::Inline { content: c },
        None => match file {
            Some(f) => IndexSource::FromFile { path: f },
            None => IndexSource::FromStdin,
        },
    }
}

/// Which single-call operation a plan runs, with its rendering flags.
pub enum CallKind {
    MemoryStatus { deep: bool },
    MemorySearch,
    MemoryList,
    MemoryClear,
    SkillsList { detailed: bool },
    SkillLog,
    ContextStatus { freshness: bool },
    ContextRefresh,
    ContextShow { raw: bool },
    ContextList,
    ContextStats,
}

/// What one command runs.
pub enum Plan {
    /// One remote call, fully built, decides the command.
    Call { kind: CallKind, req: ApiRequest },
    /// Indexing first needs its content from this source; the call is built
    /// once the content is read.
    GatherIndexInput { source: IndexSource, tags: Vec<String> },
    /// Clearing without force first needs the operator's confirmation; the
    /// call is built once it is given.
    ConfirmClear { user: String },
    /// A skill invocation: its parameters still need validation, and its
    /// session identifier a timestamp.
    InvokeSkill { skill: String, params: String, user: String },
    /// A chat turn or an interactive chat session.
    ChatTurn { user: ResolvedUser, continue_session: bool, message: Option<String> },
    /// The reflection workflow.
    ReflectFlow { user: ResolvedUser, scope: ReflectScope, export: bool },
    /// The health report, optionally probing the service, the database and
    /// the context store.
    Probe { deep: bool },
    /// Print the resolved configuration.
    ShowConfig,
    /// Rewrite one field of the persisted configuration.
    SetConfig { key: String, value: String },
    /// Write a fresh configuration file.
    InitConfig { force: bool },
    /// Print the configuration file's location.
    ShowConfigPath,
}

/// The identity a skill test runs under.
pub open spec fn spec_test_user() -> Seq<char> {
    "test@mergeworld.com"@
}

/// Maps a parsed command to the one plan that runs it. Every variant has
/// exactly one plan; a command that calls the service carries the fully
/// built request.
pub fn dispatch(cmd: Command, cfg: &Config) -> (r: Plan)
    ensures
        match cmd {
            Command::Memory(m) => match m {
                MemoryAction::Status { deep } => r matches Plan::Call { kind, req } && (
                kind matches CallKind::MemoryStatus { deep: d } && d == deep) && req@
                    == spec_plain_request(
                    Method::Get,
                    cfg@.api_url,
                    "/api/chief-of-staff/memory/status"@,
                ),
                MemoryAction::Search { query, limit, user } => r matches Plan::Call {
                    kind,
                    req,
                } && kind is MemorySearch && (
                req@.method is Get && req@.url == cfg@.api_url
                    + "/api/chief-of-staff/memory/search"@ && req@.query == with_user(
                    seq![("query"@, query@), ("limit"@, spec_dec(limit as int))],
                    crate::config::opt_view(user),
                ) && req@.body is None),
                MemoryAction::Index { content, file, tags } => r matches Plan::GatherIndexInput {
                    source,
                    tags: t,
                } && t == tags && (match content {
                    Some(c) => source matches IndexSource::Inline { content: x } && x == c,
                    None => match file {
                        Some(f) => source matches IndexSource::FromFile { path: p } && p == f,
                        None => source is FromStdin,
                    },
                }),
                MemoryAction::List { limit, user } => r matches Plan::Call { kind, req }
                    && kind is MemoryList && (
                req@.method is Get && req@.url == cfg@.api_url
                    + "/api/chief-of-staff/memory/list"@ && req@.query == with_user(
                    seq![("limit"@, spec_dec(limit as int))],
                    crate::config::opt_view(user),
                ) && req@.body is None),
                MemoryAction::Clear { user, force } => if force {
                    r matches Plan::Call { kind, req } && kind is MemoryClear && (
                    req@.method is Post && req@.url == cfg@.api_url
                        + "/api/chief-of-staff/memory/clear"@ && req@.body == Some(
                        crate::requests::spec_clear_body(user@),
                    ))
                } else {
                    r matches Plan::ConfirmClear { user: u } && u == user
                },
            },
            Command::Skills(s) => match s {
                SkillsAction::List { detailed } => r matches Plan::Call { kind, req } && (
                kind matches CallKind::SkillsList { detailed: dd } && dd == detailed) && req@
                    == spec_plain_request(Method::Get, cfg@.api_url, "/api/chief-of-staff/skills"@),
                SkillsAction::Test { skill, params } => r matches Plan::InvokeSkill {
                    skill: sk,
                    params: p,
                    user: u,
                } && sk == skill && u@ == spec_test_user() && (match params {
                    Some(given) => p == given,
                    None => p@ == spec_default_test_params(skill@),
                }),
                SkillsAction::Invoke { skill, params, user } => r matches Plan::InvokeSkill {
                    skill: sk,
                    params: p,
                    user: u,
                } && sk == skill && p == params && (match user {
                    Some(e) => u == e,
                    None => match cfg.user_email {
                        Some(c) => u == c,
                        None => u@ == crate::workflow::spec_anonymous_user(),
                    },
                }),
                SkillsAction::Log { skill, limit } => r matches Plan::Call { kind, req }
                    && kind is SkillLog && (
                req@.method is Get && req@.url == cfg@.api_url + "/api/chief-of-staff/skill-log"@
                    && req@.query == ({
                    let base = seq![("limit"@, spec_dec(limit as int))];
                    match skill {
                        Some(sk) => base.push(("skill"@, sk@)),
                        None => base,
                    }
                })),
            },
            Command::Context(c) => match c {
                ContextAction::Status { freshness } => r matches Plan::Call { kind, req } && (
                kind matches CallKind::ContextStatus { freshness: ff } && ff == freshness) && req@
                    == spec_plain_request(
                    Method::Get,
                    cfg@.api_url,
                    "/api/chief-of-staff/context-debug"@,
                ),
                ContextAction::Refresh { force } => r matches Plan::Call { kind, req }
                    && kind is ContextRefresh && req@ == spec_plain_request(
                    Method::Post,
                    cfg@.api_url,
                    "/api/chief-of-staff/context-refresh"@,
                ),
                ContextAction::Show { name, raw } => r matches Plan::Call { kind, req } && (
                kind matches CallKind::ContextShow { raw: rr } && rr == raw) && (
                req@.method is Get && req@.url == cfg@.api_url + "/api/chief-of-staff/context/"@
                    + spec_context_file_name(name@)),
                ContextAction::List => r matches Plan::Call { kind, req }
                    && kind is ContextList && req@ == spec_plain_request(
                    Method::Get,
                    cfg@.api_url,
                    "/api/chief-of-staff/context-debug"@,
                ),
                ContextAction::Stats => r matches Plan::Call { kind, req }
                    && kind is ContextStats && req@ == spec_plain_request(
                    Method::Get,
                    cfg@.api_url,
                    "/api/chief-of-staff/context-stats"@,
                ),
            },
            Command::Reflect { session, export, user } => r matches Plan::ReflectFlow {
                user: u,
                scope,
                export: e,
            } && e == export && (match user {
                Some(x) => u.email == x && u.source is Explicit,
                None => match cfg.user_email {
                    Some(c) => u.email == c && u.source is Configured,
                    None => u.email@ == crate::workflow::spec_anonymous_user()
                        && u.source is Anonymous,
                },
            }) && (match session {
                Some(sid) => scope matches ReflectScope::Given { sessions } && strings_view(
                    sessions@,
                ) == seq![sid@],
                None => scope is FetchToday,
            }),
            Command::Chat { message, user, continue_session } => r matches Plan::ChatTurn {
                user: u,
                continue_session: cs,
                message: m,
            } && m == message && cs == continue_session && (match user {
                Some(x) => u.email == x && u.source is Explicit,
                None => match cfg.user_email {
                    Some(c) => u.email == c && u.source is Configured,
                    None => u.email@ == crate::workflow::spec_anonymous_user()
                        && u.source is Anonymous,
                },
            }),
            Command::Health { deep } => r matches Plan::Probe { deep: d } && d == deep,
            Command::Config(a) => match a {
                ConfigAction::Show => r is ShowConfig,
                ConfigAction::SetValue { key, value } => r matches Plan::SetConfig { key: k, value: v }
                    && k == key && v == value,
                ConfigAction::Init { force } => r matches Plan::InitConfig { force: f } && f
                    == force,
                ConfigAction::Path => r is ShowConfigPath,
            },
        },
{
    match cmd {
        Command::Memory(m) => match m {
            MemoryAction::Status { deep } => Plan::Call {
                kind: CallKind::MemoryStatus { deep },
                req: memory_status_request(cfg.api_url.as_str()),
            },
            MemoryAction::Search { query, limit, user } => Plan::Call {
                kind: CallKind::MemorySearch,
                req: memory_search_request(
                    cfg.api_url.as_str(),
                    query.as_str(),
                    limit,
                    match user {
                        Some(ref u) => Some(u.as_str()),
                        None => None,
                    },
                ),
            },
            MemoryAction::Index { content, file, tags } => Plan::GatherIndexInput {
                source: index_source(content, file),
                tags,
            },
            MemoryAction::List { limit, user } => Plan::Call {
                kind: CallKind::MemoryList,
                req: memory_list_request(
                    cfg.api_url.as_str(),
                    limit,
                    match user {
                        Some(ref u) => Some(u.as_str()),
                        None => None,
                    },
                ),
            },
            MemoryAction::Clear { user, force } => {
                if force {
                    Plan::Call {
                        kind: CallKind::MemoryClear,
                        req: memory_clear_request(cfg.api_url.as_str(), user.as_str()),
                    }
                } else {
                    Plan::ConfirmClear { user }
                }
            },
        },
        Command::Skills(s) => match s {
            SkillsAction::List { detailed } => Plan::Call {
                kind: CallKind::SkillsList { detailed },
                req: skills_list_request(cfg.api_url.as_str()),
            },
            SkillsAction::Test { skill, params } => {
                let p: String = match params {
                    Some(given) => given,
                    None => get_default_test_params(skill.as_str()),
                };
                Plan::InvokeSkill { skill, params: p, user: "test@mergeworld.com".to_owned() }
            },
            SkillsAction::Invoke { skill, params, user } => {
                let resolved = resolve_user(user, clone_opt(&cfg.user_email));
                Plan::InvokeSkill { skill, params, user: resolved.email }
            },
            SkillsAction::Log { skill, limit } => Plan::Call {
                kind: CallKind::SkillLog,
                req: skill_log_request(
                    cfg.api_url.as_str(),
                    match skill {
                        Some(ref sk) => Some(sk.as_str()),
                        None => None,
                    },
                    limit,
                ),
            },
        },
        Command::Context(c) => match c {
            ContextAction::Status { freshness } => Plan::Call {
                kind: CallKind::ContextStatus { freshness },
                req: context_debug_request(cfg.api_url.as_str()),
            },
            ContextAction::Refresh { force } => Plan::Call {
                kind: CallKind::ContextRefresh,
                req: context_refresh_request(cfg.api_url.as_str()),
            },
            ContextAction::Show { name, raw } => {
                let filename = context_file_name(name.as_str());
                Plan::Call {
                    kind: CallKind::ContextShow { raw },
                    req: context_file_request(cfg.api_url.as_str(), filename.as_str()),
                }
            },
            ContextAction::List => Plan::Call {
                kind: CallKind::ContextList,
                req: context_debug_request(cfg.api_url.as_str()),
            },
            ContextAction::Stats => Plan::Call {
                kind: CallKind::ContextStats,
                req: context_stats_request(cfg.api_url.as_str()),
            },
        },
        Command::Reflect { session, export, user } => Plan::ReflectFlow {
            user: resolve_user(user, clone_opt(&cfg.user_email)),
            scope: reflect_scope(session),
            export,
        },
        Command::Chat { message, user, continue_session } => Plan::ChatTurn {
            user: resolve_user(user, clone_opt(&cfg.user_email)),
            continue_session,
            message,
        },
        Command::Health { deep } => Plan::Probe { deep },
        Command::Config(a) => match a {
            ConfigAction::Show => Plan::ShowConfig,
            ConfigAction::SetValue { key, value } => Plan::SetConfig { key, value },
            ConfigAction::Init { force } => Plan::InitConfig { force },
            ConfigAction::Path => Plan::ShowConfigPath,
        },
    }
}

/// A copy of an optional string.
fn clone_opt(o: &Option<String>) -> (r: Option<String>)
    ensures
        r == *o,
{
    match o {
        Some(s) => Some(s.clone()),
        None => None,
    }
}

/// The file a friendly context name denotes: the known names, compared after
/// ASCII lower-casing, map to their files; anything else is taken as a file
/// name already.
pub open spec fn spec_context_file_name(name: Seq<char>) -> Seq<char> {
    let l = spec_ascii_lower(name);
    if l == "github"@ || l == "git"@ {
        "github_ai_garage.md"@
    } else if l == "jira"@ {
        "jira_summary.md"@
    } else if l == "daily"@ || l == "ambition"@ || l == "daily-ambition"@ {
        "daily_ambitions_summary.md"@
    } else if l == "strategic"@ {
        "strategic_context_30min.md"@
    } else if l == "tactical"@ {
        "tactical_context_10min.md"@
    } else if l == "operational"@ {
        "operational_context_5min.md"@
    } else if l == "database"@ || l == "db"@ {
        "database_summary.md"@
    } else {
        name
    }
}

/// Maps a friendly context name to its file.
pub fn context_file_name(name: &str) -> (r: String)
    ensures
        r@ == spec_context_file_name(name@),
{
    let cs = chars_of(name);
    let l = ascii_lower(&cs);
    if chars_eq_str(&l, "github") || chars_eq_str(&l, "git") {
        "github_ai_garage.md".to_owned()
    } else if chars_eq_str(&l, "jira") {
        "jira_summary.md".to_owned()
    } else if chars_eq_str(&l, "daily") || chars_eq_str(&l, "ambition") || chars_eq_str(
        &l,
        "daily-ambition",
    ) {
        "daily_ambitions_summary.md".to_owned()
    } else if chars_eq_str(&l, "strategic") {
        "strategic_context_30min.md".to_owned()
    } else if chars_eq_str(&l, "tactical") {
        "tactical_context_10min.md".to_owned()
    } else if chars_eq_str(&l, "operational") {
        "operational_context_5min.md".to_owned()
    } else if chars_eq_str(&l, "database") || chars_eq_str(&l, "db") {
        "database_summary.md".to_owned()
    } else {
        name.to_owned()
    }
}

/// The built-in trial parameters of each known skill; an unknown skill gets
/// an empty object.
pub open spec fn spec_default_test_params(skill: Seq<char>) -> Seq<char> {
    if skill == "jira-query"@ {
        "{\"query\": \"What Jira projects exist?\"}"@
    } else if skill == "github-commits"@ {
        "{\"query\": \"Show recent commits\"}"@
    } else if skill == "daily-ambition"@ {
        "{\"query\": \"What did the team accomplish?\"}"@
    } else if skill == "web-fetch"@ {
        "{\"url\": \"https://www.mergeworld.com/about\"}"@
    } else if skill == "pam-memory"@ {
        "{\"query_type\": \"team_member\", \"search_term\": \"Stephen\"}"@
    } else if skill == "freebusy"@ {
        "{\"emails\": [\"mwood@mergeworld.com\"], \"date\": \"2026-01-30\"}"@
    } else if skill == "jira-create"@ {
        "{\"project_key\": \"AIGAR\", \"summary\": \"Test\", \"description\": \"Test issue\"}"@
    } else {
        "{}"@
    }
}

/// The trial parameters a skill test uses when none are given.
pub fn get_default_test_params(skill: &str) -> (r: String)
    ensures
        r@ == spec_default_test_params(skill@),
{
    if str_eq(skill, "jira-query") {
        "{\"query\": \"What Jira projects exist?\"}".to_owned()
    } else if str_eq(skill, "github-commits") {
        "{\"query\": \"Show recent commits\"}".to_owned()
    } else if str_eq(skill, "daily-ambition") {
        "{\"query\": \"What did the team accomplish?\"}".to_owned()
    } else if str_eq(skill, "web-fetch") {
        "{\"url\": \"https://www.mergeworld.com/about\"}".to_owned()
    } else if str_eq(skill, "pam-memory") {
        "{\"query_type\": \"team_member\", \"search_term\": \"Stephen\"}".to_owned()
    } else if str_eq(skill, "freebusy") {
        "{\"emails\": [\"mwood@mergeworld.com\"], \"date\": \"2026-01-30\"}".to_owned()
    } else if str_eq(skill, "jira-create") {
        "{\"project_key\": \"AIGAR\", \"summary\": \"Test\", \"description\": \"Test issue\"}".to_owned()
    } else {
        "{}".to_owned()
    }
}

} // verus!
