//! One request builder per remote capability.
//!
//! A builder turns already-resolved configuration values and the operation's
//! arguments into the full request: method, URL, query pairs, headers and
//! JSON body. The transport that carries the request is outside the library.

#![verifier::loop_isolation(false)]

use vstd::prelude::*;
use vstd::string::StringExecFns;
use crate::json::{Json, JsonV, spec_encode, encode_json, json_str, json_str_array, str_items_jv,
    view_members, views_of, lemma_arr_view, lemma_obj_view};
use crate::strutil::{spec_dec, fmt_u64, string_from_chars, strings_view};
use crate::records::Reflection;

verus! {

broadcast use {vstd::std_specs::vec::group_vec_axioms, lemma_arr_view, lemma_obj_view};

/// An HTTP method used by the client.
pub enum Method {
    Get,
    Post,
}

/// A fully built request.
pub struct ApiRequest {
    pub method: Method,
    pub url: String,
    pub query: Vec<(String, String)>,
    pub headers: Vec<(String, String)>,
    pub body: Option<String>,
}

/// The views of a list of name–value pairs.
pub open spec fn pairs_view(v: Seq<(String, String)>) -> Seq<(Seq<char>, Seq<char>)> {
    Seq::new(v.len(), |i: int| (v[i].0@, v[i].1@))
}

/// The mathematical form of a request.
#[verifier::ext_equal]
pub struct ApiRequestV {
    pub method: Method,
    pub url: Seq<char>,
    pub query: Seq<(Seq<char>, Seq<char>)>,
    pub headers: Seq<(Seq<char>, Seq<char>)>,
    pub body: Option<Seq<char>>,
}

impl View for ApiRequest {
    type V = ApiRequestV;

    open spec fn view(&self) -> ApiRequestV {
        ApiRequestV {
            method: self.method,
            url: self.url@,
            query: pairs_view(self.query@),
            headers: pairs_view(self.headers@),
            body: match self.body {
                Some(ref b) => Some(b@),
                None => None,
            },
        }
    }
}

/// A plain request: the given method on base URL plus path, with nothing
/// else.
pub open spec fn spec_plain_request(method: Method, base: Seq<char>, path: Seq<char>)
    -> ApiRequestV {
    ApiRequestV {
        method,
        url: base + path,
        query: Seq::empty(),
        headers: Seq::empty(),
        body: None,
    }
}

/// Joins the base URL and a path.
fn join_url(base: &str, path: &str) -> (r: String)
    ensures
        r@ == base@ + path@,
{
    let mut u = String::new();
    u.append(base);
    u.append(path);
    proof {
        assert(u@ =~= base@ + path@);
    }
    u
}

/// Builds a request with nothing but a method and a URL.
fn plain_request(method: Method, base: &str, path: &str) -> (r: ApiRequest)
    ensures
        r@ == spec_plain_request(method, base@, path@),
{
    let r = ApiRequest {
        method,
        url: join_url(base, path),
        query: Vec::new(),
        headers: Vec::new(),
        body: None,
    };
    proof {
        assert(pairs_view(Seq::<(String, String)>::empty()) =~= Seq::<(
            Seq<char>,
            Seq<char>,
        )>::empty());
        assert(r@ =~= spec_plain_request(method, base@, path@));
    }
    r
}

/// The health probe.
pub fn health_request(api_url: &str) -> (r: ApiRequest)
    ensures
        r@ == spec_plain_request(Method::Get, api_url@, "/api/health"@),
{
    plain_request(Method::Get, api_url, "/api/health")
}

/// The detailed health probe, which exercises the database.
pub fn health_detailed_request(api_url: &str) -> (r: ApiRequest)
    ensures
        r@ == spec_plain_request(Method::Get, api_url@, "/api/health/detailed"@),
{
    plain_request(Method::Get, api_url, "/api/health/detailed")
}

/// The context-bundle inspection, also used as the storage probe.
pub fn context_debug_request(api_url: &str) -> (r: ApiRequest)
    ensures
        r@ == spec_plain_request(Method::Get, api_url@, "/api/chief-of-staff/context-debug"@),
{
    plain_request(Method::Get, api_url, "/api/chief-of-staff/context-debug")
}

/// The memory status summary.
pub fn memory_status_request(api_url: &str) -> (r: ApiRequest)
    ensures
        r@ == spec_plain_request(Method::Get, api_url@, "/api/chief-of-staff/memory/status"@),
{
    plain_request(Method::Get, api_url, "/api/chief-of-staff/memory/status")
}

/// The query pairs of a search or listing: the operation's own pairs, then
/// `user` when a user filter is given.
pub open spec fn with_user(
    pairs: Seq<(Seq<char>, Seq<char>)>,
    user: Option<Seq<char>>,
) -> Seq<(Seq<char>, Seq<char>)> {
    match user {
        Some(u) => pairs.push(("user"@, u)),
        None => pairs,
    }
}

/// The memory search: `query` and `limit`, and `user` when given.
pub fn memory_search_request(api_url: &str, query: &str, limit: usize, user: Option<&str>) -> (r:
    ApiRequest)
    ensures
        r@.method is Get,
        r@.url == api_url@ + "/api/chief-of-staff/memory/search"@,
        r@.query == with_user(
            seq![("query"@, query@), ("limit"@, spec_dec(limit as int))],
            match user {
                Some(u) => Some(u@),
                None => None,
            },
        ),
        r@.headers == Seq::<(Seq<char>, Seq<char>)>::empty(),
        r@.body is None,
{
    let mut q: Vec<(String, String)> = Vec::new();
    q.push(("query".to_owned(), query.to_owned()));
    let digits = fmt_u64(limit as u64);
    q.push(("limit".to_owned(), string_from_chars(&digits)));
    match user {
        Some(u) => {
            q.push(("user".to_owned(), u.to_owned()));
        },
        None => {},
    }
    let r = ApiRequest {
        method: Method::Get,
        url: join_url(api_url, "/api/chief-of-staff/memory/search"),
        query: q,
        headers: Vec::new(),
        body: None,
    };
    proof {
        assert(r@.query =~= with_user(
            seq![("query"@, query@), ("limit"@, spec_dec(limit as int))],
            match user {
                Some(u) => Some(u@),
                None => None,
            },
        ));
        assert(r@.headers =~= Seq::<(Seq<char>, Seq<char>)>::empty());
    }
    r
}

/// The memory listing: `limit`, and `user` when given.
pub fn memory_list_request(api_url: &str, limit: usize, user: Option<&str>) -> (r: ApiRequest)
    ensures
        r@.method is Get,
        r@.url == api_url@ + "/api/chief-of-staff/memory/list"@,
        r@.query == with_user(
            seq![("limit"@, spec_dec(limit as int))],
            match user {
                Some(u) => Some(u@),
                None => None,
            },
        ),
        r@.headers == Seq::<(Seq<char>, Seq<char>)>::empty(),
        r@.body is None,
{
    let mut q: Vec<(String, String)> = Vec::new();
    let digits = fmt_u64(limit as u64);
    q.push(("limit".to_owned(), string_from_chars(&digits)));
    match user {
        Some(u) => {
            q.push(("user".to_owned(), u.to_owned()));
        },
        None => {},
    }
    let r = ApiRequest {
        method: Method::Get,
        url: join_url(api_url, "/api/chief-of-staff/memory/list"),
        query: q,
        headers: Vec::new(),
        body: None,
    };
    proof {
        assert(r@.query =~= with_user(
            seq![("limit"@, spec_dec(limit as int))],
            match user {
                Some(u) => Some(u@),
                None => None,
            },
        ));
        assert(r@.headers =~= Seq::<(Seq<char>, Seq<char>)>::empty());
    }
    r
}

/// The body of the memory indexing call.
pub open spec fn spec_index_body(content: Seq<char>, tags: Seq<Seq<char>>) -> Seq<char> {
    spec_encode(
        JsonV::Obj(
            seq![
                ("content"@, JsonV::Str(content)),
                ("tags"@, JsonV::Arr(str_items_jv(tags))),
            ],
        ),
    )
}

/// The memory indexing call: content and its tags.
pub fn memory_index_request(api_url: &str, content: &str, tags: &Vec<String>) -> (r: ApiRequest)
    ensures
        r@.method is Post,
        r@.url == api_url@ + "/api/chief-of-staff/memory/index"@,
        r@.query == Seq::<(Seq<char>, Seq<char>)>::empty(),
        r@.headers == Seq::<(Seq<char>, Seq<char>)>::empty(),
        r@.body == Some(spec_index_body(content@, strings_view(tags@))),
{
    let mut fields: Vec<(String, Json)> = Vec::new();
    fields.push(("content".to_owned(), json_str(content)));
    fields.push(("tags".to_owned(), json_str_array(tags)));
    let jbody = Json::Obj(fields);
    let body = encode_json(&jbody);
    proof {
        assert(jbody@ matches JsonV::Obj(ms) && ms =~= seq![
            ("content"@, JsonV::Str(content@)),
            ("tags"@, JsonV::Arr(str_items_jv(strings_view(tags@)))),
        ]);
    }
    let r = ApiRequest {
        method: Method::Post,
        url: join_url(api_url, "/api/chief-of-staff/memory/index"),
        query: Vec::new(),
        headers: Vec::new(),
        body: Some(body),
    };
    proof {
        assert(r@.query =~= Seq::<(Seq<char>, Seq<char>)>::empty());
        assert(r@.headers =~= Seq::<(Seq<char>, Seq<char>)>::empty());
    }
    r
}

/// The body of the memory clearing call.
pub open spec fn spec_clear_body(user: Seq<char>) -> Seq<char> {
    spec_encode(JsonV::Obj(seq![("user"@, JsonV::Str(user))]))
}

/// The memory clearing call for one user.
pub fn memory_clear_request(api_url: &str, user: &str) -> (r: ApiRequest)
    ensures
        r@.method is Post,
        r@.url == api_url@ + "/api/chief-of-staff/memory/clear"@,
        r@.query == Seq::<(Seq<char>, Seq<char>)>::empty(),
        r@.headers == Seq::<(Seq<char>, Seq<char>)>::empty(),
        r@.body == Some(spec_clear_body(user@)),
{
    let mut fields: Vec<(String, Json)> = Vec::new();
    fields.push(("user".to_owned(), json_str(user)));
    let jbody = Json::Obj(fields);
    let body = encode_json(&jbody);
    proof {
        assert(jbody@ matches JsonV::Obj(ms) && ms =~~= (seq![("user"@, JsonV::Str(user@))]));
    }
    let r = ApiRequest {
        method: Method::Post,
        url: join_url(api_url, "/api/chief-of-staff/memory/clear"),
        query: Vec::new(),
        headers: Vec::new(),
        body: Some(body),
    };
    proof {
        assert(r@.query =~= Seq::<(Seq<char>, Seq<char>)>::empty());
        assert(r@.headers =~= Seq::<(Seq<char>, Seq<char>)>::empty());
    }
    r
}

/// The skills listing.
pub fn skills_list_request(api_url: &str) -> (r: ApiRequest)
    ensures
        r@ == spec_plain_request(Method::Get, api_url@, "/api/chief-of-staff/skills"@),
{
    plain_request(Method::Get, api_url, "/api/chief-of-staff/skills")
}

/// The body of a skill invocation.
pub open spec fn spec_skill_body(
    skill: Seq<char>,
    params: JsonV,
    user_email: Seq<char>,
    session_id: Seq<char>,
) -> Seq<char> {
    spec_encode(
        JsonV::Obj(
            seq![
                ("skill_key"@, JsonV::Str(skill)),
                ("params"@, params),
                ("user_email"@, JsonV::Str(user_email)),
                ("session_id"@, JsonV::Str(session_id)),
            ],
        ),
    )
}

/// The skill invocation: the skill's key, its already-validated parameters,
/// the calling user and the session correlating the call.
pub fn skill_invoke_request(
    api_url: &str,
    skill: &str,
    params: Json,
    user_email: &str,
    session_id: &str,
) -> (r: ApiRequest)
    ensures
        r@.method is Post,
        r@.url == api_url@ + "/api/chief-of-staff/skill"@,
        r@.query == Seq::<(Seq<char>, Seq<char>)>::empty(),
        r@.headers == Seq::<(Seq<char>, Seq<char>)>::empty(),
        r@.body == Some(spec_skill_body(skill@, params@, user_email@, session_id@)),
{
    let ghost params_view = params@;
    let mut fields: Vec<(String, Json)> = Vec::new();
    fields.push(("skill_key".to_owned(), json_str(skill)));
    fields.push(("params".to_owned(), params));
    fields.push(("user_email".to_owned(), json_str(user_email)));
    fields.push(("session_id".to_owned(), json_str(session_id)));
    let jbody = Json::Obj(fields);
    let body = encode_json(&jbody);
    proof {
        assert(jbody@ matches JsonV::Obj(ms) && ms =~~= (
            seq![
                ("skill_key"@, JsonV::Str(skill@)),
                ("params"@, params_view),
                ("user_email"@, JsonV::Str(user_email@)),
                ("session_id"@, JsonV::Str(session_id@)),
            ]
        ));
    }
    let r = ApiRequest {
        method: Method::Post,
        url: join_url(api_url, "/api/chief-of-staff/skill"),
        query: Vec::new(),
        headers: Vec::new(),
        body: Some(body),
    };
    proof {
        assert(r@.query =~= Seq::<(Seq<char>, Seq<char>)>::empty());
        assert(r@.headers =~= Seq::<(Seq<char>, Seq<char>)>::empty());
    }
    r
}

/// The skill audit log: `limit`, and `skill` when a filter is given.
pub fn skill_log_request(api_url: &str, skill: Option<&str>, limit: usize) -> (r: ApiRequest)
    ensures
        r@.method is Get,
        r@.url == api_url@ + "/api/chief-of-staff/skill-log"@,
        r@.query == ({
            let base = seq![("limit"@, spec_dec(limit as int))];
            match skill {
                Some(sk) => base.push(("skill"@, sk@)),
                None => base,
            }
        }),
        r@.headers == Seq::<(Seq<char>, Seq<char>)>::empty(),
        r@.body is None,
{
    let mut q: Vec<(String, String)> = Vec::new();
    let digits = fmt_u64(limit as u64);
    q.push(("limit".to_owned(), string_from_chars(&digits)));
    match skill {
        Some(sk) => {
            q.push(("skill".to_owned(), sk.to_owned()));
        },
        None => {},
    }
    let r = ApiRequest {
        method: Method::Get,
        url: join_url(api_url, "/api/chief-of-staff/skill-log"),
        query: q,
        headers: Vec::new(),
        body: None,
    };
    proof {
        assert(r@.query =~= ({
            let base = seq![("limit"@, spec_dec(limit as int))];
            match skill {
                Some(sk) => base.push(("skill"@, sk@)),
                None => base,
            }
        }));
        assert(r@.headers =~= Seq::<(Seq<char>, Seq<char>)>::empty());
    }
    r
}

/// The context refresh.
pub fn context_refresh_request(api_url: &str) -> (r: ApiRequest)
    ensures
        r@ == spec_plain_request(Method::Post, api_url@, "/api/chief-of-staff/context-refresh"@),
{
    plain_request(Method::Post, api_url, "/api/chief-of-staff/context-refresh")
}

/// One context file, by name.
pub fn context_file_request(api_url: &str, filename: &str) -> (r: ApiRequest)
    ensures
        r@.method is Get,
        r@.url == api_url@ + "/api/chief-of-staff/context/"@ + filename@,
        r@.query == Seq::<(Seq<char>, Seq<char>)>::empty(),
        r@.headers == Seq::<(Seq<char>, Seq<char>)>::empty(),
        r@.body is None,
{
    let mut u = String::new();
    u.append(api_url);
    u.append("/api/chief-of-staff/context/");
    u.append(filename);
    proof {
        assert(u@ =~= api_url@ + "/api/chief-of-staff/context/"@ + filename@);
    }
    let r = ApiRequest {
        method: Method::Get,
        url: u,
        query: Vec::new(),
        headers: Vec::new(),
        body: None,
    };
    proof {
        assert(r@.query =~= Seq::<(Seq<char>, Seq<char>)>::empty());
        assert(r@.headers =~= Seq::<(Seq<char>, Seq<char>)>::empty());
    }
    r
}

/// The context size statistics.
pub fn context_stats_request(api_url: &str) -> (r: ApiRequest)
    ensures
        r@ == spec_plain_request(Method::Get, api_url@, "/api/chief-of-staff/context-stats"@),
{
    plain_request(Method::Get, api_url, "/api/chief-of-staff/context-stats")
}

/// The body of a chat turn.
pub open spec fn spec_chat_body(
    message: Seq<char>,
    user: Seq<char>,
    session_id: Seq<char>,
) -> Seq<char> {
    spec_encode(
        JsonV::Obj(
            seq![
                ("message"@, JsonV::Str(message)),
                ("user"@, JsonV::Str(user)),
                ("session_id"@, JsonV::Str(session_id)),
            ],
        ),
    )
}

/// The chat call. It is the one authenticated operation: the principal
/// header carries the user, and the key header carries the client key — or
/// stays empty, never absent, when no key is configured; authorization is
/// then the service's decision.
pub fn chat_request(
    api_url: &str,
    user_email: &str,
    session_id: &str,
    message: &str,
    api_key: Option<&str>,
) -> (r: ApiRequest)
    ensures
        r@.method is Post,
        r@.url == api_url@ + "/api/chief-of-staff/chat"@,
        r@.query == Seq::<(Seq<char>, Seq<char>)>::empty(),
        r@.headers == seq![
            ("X-User-Email"@, user_email@),
            (
                "X-PAM-CLI-Key"@,
                match api_key {
                    Some(k) => k@,
                    None => Seq::<char>::empty(),
                },
            ),
        ],
        r@.body == Some(spec_chat_body(message@, user_email@, session_id@)),
{
    let mut fields: Vec<(String, Json)> = Vec::new();
    fields.push(("message".to_owned(), json_str(message)));
    fields.push(("user".to_owned(), json_str(user_email)));
    fields.push(("session_id".to_owned(), json_str(session_id)));
    let jbody = Json::Obj(fields);
    let body = encode_json(&jbody);
    proof {
        assert(jbody@ matches JsonV::Obj(ms) && ms =~~= (
            seq![
                ("message"@, JsonV::Str(message@)),
                ("user"@, JsonV::Str(user_email@)),
                ("session_id"@, JsonV::Str(session_id@)),
            ]
        ));
    }
    let key: String = match api_key {
        Some(k) => k.to_owned(),
        None => String::new(),
    };
    let mut headers: Vec<(String, String)> = Vec::new();
    headers.push(("X-User-Email".to_owned(), user_email.to_owned()));
    headers.push(("X-PAM-CLI-Key".to_owned(), key));
    let r = ApiRequest {
        method: Method::Post,
        url: join_url(api_url, "/api/chief-of-staff/chat"),
        query: Vec::new(),
        headers,
        body: Some(body),
    };
    proof {
        assert(r@.query =~= Seq::<(Seq<char>, Seq<char>)>::empty());
        assert(r@.headers =~= seq![
            ("X-User-Email"@, user_email@),
            (
                "X-PAM-CLI-Key"@,
                match api_key {
                    Some(k) => k@,
                    None => Seq::<char>::empty(),
                },
            ),
        ]);
    }
    r
}

/// The most-recent-session lookup for a user.
pub fn latest_session_request(api_url: &str, user_email: &str) -> (r: ApiRequest)
    ensures
        r@.method is Get,
        r@.url == api_url@ + "/api/chief-of-staff/sessions/latest"@,
        r@.query == seq![("user"@, user_email@)],
        r@.headers == Seq::<(Seq<char>, Seq<char>)>::empty(),
        r@.body is None,
{
    let mut q: Vec<(String, String)> = Vec::new();
    q.push(("user".to_owned(), user_email.to_owned()));
    let r = ApiRequest {
        method: Method::Get,
        url: join_url(api_url, "/api/chief-of-staff/sessions/latest"),
        query: q,
        headers: Vec::new(),
        body: None,
    };
    proof {
        assert(r@.query =~= seq![("user"@, user_email@)]);
        assert(r@.headers =~= Seq::<(Seq<char>, Seq<char>)>::empty());
    }
    r
}

/// The today's-sessions lookup for a user.
pub fn today_sessions_request(api_url: &str, user_email: &str) -> (r: ApiRequest)
    ensures
        r@.method is Get,
        r@.url == api_url@ + "/api/chief-of-staff/sessions/today"@,
        r@.query == seq![("user"@, user_email@)],
        r@.headers == Seq::<(Seq<char>, Seq<char>)>::empty(),
        r@.body is None,
{
    let mut q: Vec<(String, String)> = Vec::new();
    q.push(("user".to_owned(), user_email.to_owned()));
    let r = ApiRequest {
        method: Method::Get,
        url: join_url(api_url, "/api/chief-of-staff/sessions/today"),
        query: q,
        headers: Vec::new(),
        body: None,
    };
    proof {
        assert(r@.query =~= seq![("user"@, user_email@)]);
        assert(r@.headers =~= Seq::<(Seq<char>, Seq<char>)>::empty());
    }
    r
}

/// The body of a reflection generation: the user, and the sessions to
/// reflect over, in the order given.
pub open spec fn spec_reflect_body(user_email: Seq<char>, sessions: Seq<Seq<char>>) -> Seq<char> {
    spec_encode(
        JsonV::Obj(
            seq![
                ("user_email"@, JsonV::Str(user_email)),
                ("sessions"@, JsonV::Arr(str_items_jv(sessions))),
            ],
        ),
    )
}

/// The reflection generation over the given sessions, in the order given.
pub fn reflect_request(api_url: &str, user_email: &str, sessions: &Vec<String>) -> (r: ApiRequest)
    ensures
        r@.method is Post,
        r@.url == api_url@ + "/api/chief-of-staff/reflect"@,
        r@.query == Seq::<(Seq<char>, Seq<char>)>::empty(),
        r@.headers == Seq::<(Seq<char>, Seq<char>)>::empty(),
        r@.body == Some(spec_reflect_body(user_email@, strings_view(sessions@))),
{
    let mut fields: Vec<(String, Json)> = Vec::new();
    fields.push(("user_email".to_owned(), json_str(user_email)));
    fields.push(("sessions".to_owned(), json_str_array(sessions)));
    let jbody = Json::Obj(fields);
    let body = encode_json(&jbody);
    proof {
        assert(jbody@ matches JsonV::Obj(ms) && ms =~= seq![
            ("user_email"@, JsonV::Str(user_email@)),
            ("sessions"@, JsonV::Arr(str_items_jv(strings_view(sessions@)))),
        ]);
    }
    let r = ApiRequest {
        method: Method::Post,
        url: join_url(api_url, "/api/chief-of-staff/reflect"),
        query: Vec::new(),
        headers: Vec::new(),
        body: Some(body),
    };
    proof {
        assert(r@.query =~= Seq::<(Seq<char>, Seq<char>)>::empty());
        assert(r@.headers =~= Seq::<(Seq<char>, Seq<char>)>::empty());
    }
    r
}

/// The body of a reflection save: the user, and the reflection's four lists.
pub open spec fn spec_save_reflection_body(
    user_email: Seq<char>,
    reflection: crate::records::ReflectionV,
) -> Seq<char> {
    spec_encode(
        JsonV::Obj(
            seq![
                ("user_email"@, JsonV::Str(user_email)),
                (
                    "reflection"@,
                    JsonV::Obj(
                        seq![
                            ("what_worked"@, JsonV::Arr(str_items_jv(reflection.what_worked))),
                            ("what_failed"@, JsonV::Arr(str_items_jv(reflection.what_failed))),
                            ("learnings"@, JsonV::Arr(str_items_jv(reflection.learnings))),
                            ("action_items"@, JsonV::Arr(str_items_jv(reflection.action_items))),
                        ],
                    ),
                ),
            ],
        ),
    )
}

/// The reflection save.
pub fn reflection_save_request(api_url: &str, user_email: &str, reflection: &Reflection) -> (r:
    ApiRequest)
    ensures
        r@.method is Post,
        r@.url == api_url@ + "/api/chief-of-staff/reflection/save"@,
        r@.query == Seq::<(Seq<char>, Seq<char>)>::empty(),
        r@.headers == Seq::<(Seq<char>, Seq<char>)>::empty(),
        r@.body == Some(spec_save_reflection_body(user_email@, reflection@)),
{
    let mut inner: Vec<(String, Json)> = Vec::new();
    inner.push(("what_worked".to_owned(), json_str_array(&reflection.what_worked)));
    inner.push(("what_failed".to_owned(), json_str_array(&reflection.what_failed)));
    inner.push(("learnings".to_owned(), json_str_array(&reflection.learnings)));
    inner.push(("action_items".to_owned(), json_str_array(&reflection.action_items)));
    let mut fields: Vec<(String, Json)> = Vec::new();
    fields.push(("user_email".to_owned(), json_str(user_email)));
    fields.push(("reflection".to_owned(), Json::Obj(inner)));
    let jbody = Json::Obj(fields);
    let body = encode_json(&jbody);
    proof {
        let ghost rv = reflection@;
        let ghost inner_ms = seq![
            ("what_worked"@, JsonV::Arr(str_items_jv(rv.what_worked))),
            ("what_failed"@, JsonV::Arr(str_items_jv(rv.what_failed))),
            ("learnings"@, JsonV::Arr(str_items_jv(rv.learnings))),
            ("action_items"@, JsonV::Arr(str_items_jv(rv.action_items))),
        ];
        assert(jbody@ is Obj);
        let ghost ms = jbody@->Obj_0;
        assert(ms.len() == 2);
        assert(ms[0] == ("user_email"@, JsonV::Str(user_email@)));
        assert(ms[1].0 == "reflection"@);
        assert(ms[1].1 is Obj);
        let ghost im = ms[1].1->Obj_0;
        assert(im.len() == 4);
        assert(im[0] == ("what_worked"@, JsonV::Arr(str_items_jv(rv.what_worked))));
        assert(im[1] == ("what_failed"@, JsonV::Arr(str_items_jv(rv.what_failed))));
        assert(im[2] == ("learnings"@, JsonV::Arr(str_items_jv(rv.learnings))));
        assert(im[3] == ("action_items"@, JsonV::Arr(str_items_jv(rv.action_items))));
        assert(im =~= inner_ms);
        assert(ms =~= seq![
            ("user_email"@, JsonV::Str(user_email@)),
            ("reflection"@, JsonV::Obj(inner_ms)),
        ]);
    }
    let r = ApiRequest {
        method: Method::Post,
        url: join_url(api_url, "/api/chief-of-staff/reflection/save"),
        query: Vec::new(),
        headers: Vec::new(),
        body: Some(body),
    };
    proof {
        assert(r@.query =~= Seq::<(Seq<char>, Seq<char>)>::empty());
        assert(r@.headers =~= Seq::<(Seq<char>, Seq<char>)>::empty());
    }
    r
}

} // verus!
