//! One response interpreter per remote capability.
//!
//! An interpreter takes the status code and body text that the transport
//! received and produces the operation's typed result. A status outside the
//! 2xx range is a remote error carrying that status and the body verbatim —
//! except where an operation's documented policy says otherwise (the session
//! lookup treats it as "no result"). A 2xx body that does not parse or does
//! not match the operation's schema is a decode error, distinct from a
//! remote error and never a silently-empty result.

#![verifier::loop_isolation(false)]

use vstd::prelude::*;
use vstd::string::StringExecFns;
use crate::spec_is_success;
use crate::json::{Json, JsonV, views_of, lemma_arr_view, lemma_obj_view};
use crate::jsonparse::{spec_parse_json, parse_json};
use crate::records::{
    MemoryStatus, memory_status_of, decode_memory_status, MemorySearchResult, search_response_of,
    decode_search_results, MemoryEntry, list_response_of, decode_memory_entries, Skill,
    skills_response_of, decode_skills, SkillLogEntry, skill_log_response_of, decode_skill_log,
    ContextStatus, context_status_of, decode_context_status, RefreshResult, refresh_result_of,
    decode_refresh_result, ContextStats, context_stats_of, decode_context_stats, Reflection,
    reflection_of, decode_reflection, chat_reply_of, decode_chat_reply, jv_field, jv_field_str,
    jv_field_i64, field_str, field_i64, get_field,
};
use crate::strutil::{spec_dec, fmt_u64, string_from_chars, strings_view};

verus! {

broadcast use {vstd::std_specs::vec::group_vec_axioms, lemma_arr_view, lemma_obj_view};

/// Why an operation failed.
#[derive(Debug)]
pub enum ApiError {
    /// The service answered with a status outside the 2xx range; the body is
    /// carried verbatim.
    Remote { status: u16, body: String },
    /// The service answered 2xx, but the body does not match the operation's
    /// schema.
    Decode,
    /// The request never completed: a connection or timeout failure, as the
    /// transport reported it.
    Transport { detail: String },
    /// The caller's parameters were rejected before any call was made.
    Validation { detail: String },
}

/// Checks the status code: anything outside the 2xx range is a remote error
/// carrying the status and the body verbatim.
pub fn require_success(status: u16, body: &str) -> (r: Result<(), ApiError>)
    ensures
        spec_is_success(status) <==> r is Ok,
        !spec_is_success(status) ==> (r matches Err(ApiError::Remote { status: st, body: b })
            && st == status && b@ == body@),
{
    if crate::is_success(status) {
        Ok(())
    } else {
        Err(ApiError::Remote { status, body: body.to_owned() })
    }
}

/// Parses a response body as JSON; a body that is not JSON is a decode
/// error.
pub fn parse_body(body: &str) -> (r: Result<Json, ApiError>)
    ensures
        match r {
            Ok(j) => spec_parse_json(body@) == Some(j@),
            Err(e) => spec_parse_json(body@) is None && e is Decode,
        },
{
    match parse_json(body) {
        Some(j) => Ok(j),
        None => Err(ApiError::Decode),
    }
}

/// Validates free-form skill parameters before any call: they must be
/// well-formed JSON.
pub fn validate_skill_params(params: &str) -> (r: Result<Json, ApiError>)
    ensures
        match r {
            Ok(j) => spec_parse_json(params@) == Some(j@),
            Err(e) => spec_parse_json(params@) is None && (e matches ApiError::Validation {
                detail,
            } && detail@ == params@),
        },
{
    match parse_json(params) {
        Some(j) => Ok(j),
        None => Err(ApiError::Validation { detail: params.to_owned() }),
    }
}

/// The health summary: the word for a success, or the status code in
/// parentheses.
pub open spec fn spec_health_summary(status: u16) -> Seq<char> {
    if spec_is_success(status) {
        "Healthy"@
    } else {
        "Unhealthy ("@ + spec_dec(status as int) + ")"@
    }
}

/// Interprets the health probe: it reports rather than fails, whatever the
/// status.
pub fn interpret_health(status: u16) -> (r: String)
    ensures
        r@ == spec_health_summary(status),
{
    if crate::is_success(status) {
        "Healthy".to_owned()
    } else {
        let mut s = String::new();
        s.append("Unhealthy (");
        let digits = fmt_u64(status as u64);
        let ds = string_from_chars(&digits);
        s.append(ds.as_str());
        s.append(")");
        proof {
            assert(s@ =~= spec_health_summary(status));
        }
        s
    }
}

/// Interprets the detailed health probe: only the status matters.
pub fn interpret_check_database(status: u16, body: &str) -> (r: Result<(), ApiError>)
    ensures
        spec_is_success(status) <==> r is Ok,
        !spec_is_success(status) ==> (r matches Err(ApiError::Remote { status: st, body: b })
            && st == status && b@ == body@),
{
    require_success(status, body)
}

/// The file count that a storage probe body reports: the `file_count` field,
/// or zero when it is absent or not an integer.
pub open spec fn spec_gcs_count(jv: JsonV) -> i32 {
    (match jv_field_i64(jv, "file_count"@) {
        Some(v) => v,
        None => 0,
    }) as i32
}

/// Interprets the storage probe: the body's reported file count.
pub fn interpret_check_gcs(status: u16, body: &str) -> (r: Result<i32, ApiError>)
    ensures
        !spec_is_success(status) ==> (r matches Err(ApiError::Remote { status: st, body: b })
            && st == status && b@ == body@),
        spec_is_success(status) ==> match spec_parse_json(body@) {
            None => r matches Err(e) && e is Decode,
            Some(jv) => r matches Ok(n) && n == spec_gcs_count(jv),
        },
{
    let checked = require_success(status, body);
    match checked {
        Err(e) => Err(e),
        Ok(_) => {
            let j = match parse_body(body) {
                Ok(j) => j,
                Err(e) => {
                    return Err(e);
                },
            };
            let v: i64 = match field_i64(&j, "file_count") {
                Some(v) => v,
                None => 0,
            };
            Ok(v as i32)
        },
    }
}

/// Interprets the memory status call.
pub fn interpret_memory_status(status: u16, body: &str) -> (r: Result<MemoryStatus, ApiError>)
    ensures
        !spec_is_success(status) ==> (r matches Err(ApiError::Remote { status: st, body: b })
            && st == status && b@ == body@),
        spec_is_success(status) ==> match spec_parse_json(body@) {
            None => r matches Err(e) && e is Decode,
            Some(jv) => match memory_status_of(jv) {
                None => r matches Err(e) && e is Decode,
                Some(v) => r matches Ok(x) && x@ == v,
            },
        },
{
    match require_success(status, body) {
        Err(e) => Err(e),
        Ok(_) => {
            let j = match parse_body(body) {
                Ok(j) => j,
                Err(e) => {
                    return Err(e);
                },
            };
            match decode_memory_status(&j) {
                Some(x) => Ok(x),
                None => Err(ApiError::Decode),
            }
        },
    }
}

/// Interprets the memory search: given a success and a well-formed body, the
/// hits in the order sent — an empty array is an empty result, not an error.
pub fn interpret_search_memories(status: u16, body: &str) -> (r: Result<
    Vec<MemorySearchResult>,
    ApiError,
>)
    ensures
        !spec_is_success(status) ==> (r matches Err(ApiError::Remote { status: st, body: b })
            && st == status && b@ == body@),
        spec_is_success(status) ==> match spec_parse_json(body@) {
            None => r matches Err(e) && e is Decode,
            Some(jv) => match search_response_of(jv) {
                None => r matches Err(e) && e is Decode,
                Some(v) => r matches Ok(x) && crate::records::search_results_view(x@) == v,
            },
        },
{
    match require_success(status, body) {
        Err(e) => Err(e),
        Ok(_) => {
            let j = match parse_body(body) {
                Ok(j) => j,
                Err(e) => {
                    return Err(e);
                },
            };
            match decode_search_results(&j) {
                Some(x) => Ok(x),
                None => Err(ApiError::Decode),
            }
        },
    }
}

/// The documented placeholder for an identifier the service did not report.
pub open spec fn spec_unknown_id() -> Seq<char> {
    "unknown"@
}

/// The identifier a write acknowledges: the `id` field, or the documented
/// placeholder when it is absent or not a string.
pub open spec fn spec_ack_id(jv: JsonV) -> Seq<char> {
    match jv_field_str(jv, "id"@) {
        Some(s) => s,
        None => spec_unknown_id(),
    }
}

/// Reads the acknowledged identifier out of a parsed body.
fn ack_id(j: &Json) -> (r: String)
    ensures
        r@ == spec_ack_id(j@),
{
    match field_str(j, "id") {
        Some(s) => s,
        None => "unknown".to_owned(),
    }
}

/// Interprets the memory indexing call: the identifier of the new memory.
pub fn interpret_index_memory(status: u16, body: &str) -> (r: Result<String, ApiError>)
    ensures
        !spec_is_success(status) ==> (r matches Err(ApiError::Remote { status: st, body: b })
            && st == status && b@ == body@),
        spec_is_success(status) ==> match spec_parse_json(body@) {
            None => r matches Err(e) && e is Decode,
            Some(jv) => r matches Ok(s) && s@ == spec_ack_id(jv),
        },
{
    match require_success(status, body) {
        Err(e) => Err(e),
        Ok(_) => {
            let j = match parse_body(body) {
                Ok(j) => j,
                Err(e) => {
                    return Err(e);
                },
            };
            Ok(ack_id(&j))
        },
    }
}

/// Interprets the memory listing.
pub fn interpret_list_memories(status: u16, body: &str) -> (r: Result<Vec<MemoryEntry>, ApiError>)
    ensures
        !spec_is_success(status) ==> (r matches Err(ApiError::Remote { status: st, body: b })
            && st == status && b@ == body@),
        spec_is_success(status) ==> match spec_parse_json(body@) {
            None => r matches Err(e) && e is Decode,
            Some(jv) => match list_response_of(jv) {
                None => r matches Err(e) && e is Decode,
                Some(v) => r matches Ok(x) && crate::records::memory_entries_view(x@) == v,
            },
        },
{
    match require_success(status, body) {
        Err(e) => Err(e),
        Ok(_) => {
            let j = match parse_body(body) {
                Ok(j) => j,
                Err(e) => {
                    return Err(e);
                },
            };
            match decode_memory_entries(&j) {
                Some(x) => Ok(x),
                None => Err(ApiError::Decode),
            }
        },
    }
}

/// The count a clearing call reports: the `deleted_count` field, or zero
/// when it is absent or not an integer.
pub open spec fn spec_deleted_count(jv: JsonV) -> i64 {
    match jv_field_i64(jv, "deleted_count"@) {
        Some(v) => v,
        None => 0,
    }
}

/// Interprets the memory clearing call: how many memories were deleted.
pub fn interpret_clear_memories(status: u16, body: &str) -> (r: Result<i64, ApiError>)
    ensures
        !spec_is_success(status) ==> (r matches Err(ApiError::Remote { status: st, body: b })
            && st == status && b@ == body@),
        spec_is_success(status) ==> match spec_parse_json(body@) {
            None => r matches Err(e) && e is Decode,
            Some(jv) => r matches Ok(n) && n == spec_deleted_count(jv),
        },
{
    match require_success(status, body) {
        Err(e) => Err(e),
        Ok(_) => {
            let j = match parse_body(body) {
                Ok(j) => j,
                Err(e) => {
                    return Err(e);
                },
            };
            match field_i64(&j, "deleted_count") {
                Some(v) => Ok(v),
                None => Ok(0),
            }
        },
    }
}

/// Interprets the skills listing.
pub fn interpret_list_skills(status: u16, body: &str) -> (r: Result<Vec<Skill>, ApiError>)
    ensures
        !spec_is_success(status) ==> (r matches Err(ApiError::Remote { status: st, body: b })
            && st == status && b@ == body@),
        spec_is_success(status) ==> match spec_parse_json(body@) {
            None => r matches Err(e) && e is Decode,
            Some(jv) => match skills_response_of(jv) {
                None => r matches Err(e) && e is Decode,
                Some(v) => r matches Ok(x) && crate::records::skills_view(x@) == v,
            },
        },
{
    match require_success(status, body) {
        Err(e) => Err(e),
        Ok(_) => {
            let j = match parse_body(body) {
                Ok(j) => j,
                Err(e) => {
                    return Err(e);
                },
            };
            match decode_skills(&j) {
                Some(x) => Ok(x),
                None => Err(ApiError::Decode),
            }
        },
    }
}

/// Interprets a skill invocation: the whole response value, whose shape is
/// the skill's own.
pub fn interpret_invoke_skill(status: u16, body: &str) -> (r: Result<Json, ApiError>)
    ensures
        !spec_is_success(status) ==> (r matches Err(ApiError::Remote { status: st, body: b })
            && st == status && b@ == body@),
        spec_is_success(status) ==> match spec_parse_json(body@) {
            None => r matches Err(e) && e is Decode,
            Some(jv) => r matches Ok(x) && x@ == jv,
        },
{
    match require_success(status, body) {
        Err(e) => Err(e),
        Ok(_) => {
            match parse_body(body) {
                Ok(j) => Ok(j),
                Err(e) => Err(e),
            }
        },
    }
}

/// Interprets the skill audit log.
pub fn interpret_skill_log(status: u16, body: &str) -> (r: Result<Vec<SkillLogEntry>, ApiError>)
    ensures
        !spec_is_success(status) ==> (r matches Err(ApiError::Remote { status: st, body: b })
            && st == status && b@ == body@),
        spec_is_success(status) ==> match spec_parse_json(body@) {
            None => r matches Err(e) && e is Decode,
            Some(jv) => match skill_log_response_of(jv) {
                None => r matches Err(e) && e is Decode,
                Some(v) => r matches Ok(x) && crate::records::skill_log_view(x@) == v,
            },
        },
{
    match require_success(status, body) {
        Err(e) => Err(e),
        Ok(_) => {
            let j = match parse_body(body) {
                Ok(j) => j,
                Err(e) => {
                    return Err(e);
                },
            };
            match decode_skill_log(&j) {
                Some(x) => Ok(x),
                None => Err(ApiError::Decode),
            }
        },
    }
}

/// Interprets the context status call.
pub fn interpret_context_status(status: u16, body: &str) -> (r: Result<ContextStatus, ApiError>)
    ensures
        !spec_is_success(status) ==> (r matches Err(ApiError::Remote { status: st, body: b })
            && st == status && b@ == body@),
        spec_is_success(status) ==> match spec_parse_json(body@) {
            None => r matches Err(e) && e is Decode,
            Some(jv) => match context_status_of(jv) {
                None => r matches Err(e) && e is Decode,
                Some(v) => r matches Ok(x) && x@ == v,
            },
        },
{
    match require_success(status, body) {
        Err(e) => Err(e),
        Ok(_) => {
            let j = match parse_body(body) {
                Ok(j) => j,
                Err(e) => {
                    return Err(e);
                },
            };
            match decode_context_status(&j) {
                Some(x) => Ok(x),
                None => Err(ApiError::Decode),
            }
        },
    }
}

/// Interprets the context refresh call.
pub fn interpret_refresh_context(status: u16, body: &str) -> (r: Result<RefreshResult, ApiError>)
    ensures
        !spec_is_success(status) ==> (r matches Err(ApiError::Remote { status: st, body: b })
            && st == status && b@ == body@),
        spec_is_success(status) ==> match spec_parse_json(body@) {
            None => r matches Err(e) && e is Decode,
            Some(jv) => match refresh_result_of(jv) {
                None => r matches Err(e) && e is Decode,
                Some(v) => r matches Ok(x) && x@ == v,
            },
        },
{
    match require_success(status, body) {
        Err(e) => Err(e),
        Ok(_) => {
            let j = match parse_body(body) {
                Ok(j) => j,
                Err(e) => {
                    return Err(e);
                },
            };
            match decode_refresh_result(&j) {
                Some(x) => Ok(x),
                None => Err(ApiError::Decode),
            }
        },
    }
}

/// Interprets a context file fetch: the body text verbatim.
pub fn interpret_context_file(status: u16, body: &str) -> (r: Result<String, ApiError>)
    ensures
        !spec_is_success(status) ==> (r matches Err(ApiError::Remote { status: st, body: b })
            && st == status && b@ == body@),
        spec_is_success(status) ==> (r matches Ok(s) && s@ == body@),
{
    match require_success(status, body) {
        Err(e) => Err(e),
        Ok(_) => Ok(body.to_owned()),
    }
}

/// Interprets the context statistics call.
pub fn interpret_context_stats(status: u16, body: &str) -> (r: Result<ContextStats, ApiError>)
    ensures
        !spec_is_success(status) ==> (r matches Err(ApiError::Remote { status: st, body: b })
            && st == status && b@ == body@),
        spec_is_success(status) ==> match spec_parse_json(body@) {
            None => r matches Err(e) && e is Decode,
            Some(jv) => match context_stats_of(jv) {
                None => r matches Err(e) && e is Decode,
                Some(v) => r matches Ok(x) && x@ == v,
            },
        },
{
    match require_success(status, body) {
        Err(e) => Err(e),
        Ok(_) => {
            let j = match parse_body(body) {
                Ok(j) => j,
                Err(e) => {
                    return Err(e);
                },
            };
            match decode_context_stats(&j) {
                Some(x) => Ok(x),
                None => Err(ApiError::Decode),
            }
        },
    }
}

/// Interprets a chat turn: the assistant's reply.
pub fn interpret_chat(status: u16, body: &str) -> (r: Result<String, ApiError>)
    ensures
        !spec_is_success(status) ==> (r matches Err(ApiError::Remote { status: st, body: b })
            && st == status && b@ == body@),
        spec_is_success(status) ==> match spec_parse_json(body@) {
            None => r matches Err(e) && e is Decode,
            Some(jv) => match chat_reply_of(jv) {
                None => r matches Err(e) && e is Decode,
                Some(v) => r matches Ok(x) && x@ == v,
            },
        },
{
    match require_success(status, body) {
        Err(e) => Err(e),
        Ok(_) => {
            let j = match parse_body(body) {
                Ok(j) => j,
                Err(e) => {
                    return Err(e);
                },
            };
            match decode_chat_reply(&j) {
                Some(x) => Ok(x),
                None => Err(ApiError::Decode),
            }
        },
    }
}

/// The session identifier a lookup body reports, if any.
pub open spec fn spec_latest_session(jv: JsonV) -> Option<Seq<char>> {
    jv_field_str(jv, "session_id"@)
}

/// Interprets the most-recent-session lookup. By this operation's documented
/// policy a status outside the 2xx range means "no result", not an error; a
/// 2xx body must still parse.
pub fn interpret_latest_session(status: u16, body: &str) -> (r: Result<Option<String>, ApiError>)
    ensures
        !spec_is_success(status) ==> (r matches Ok(o) && o is None),
        spec_is_success(status) ==> match spec_parse_json(body@) {
            None => r matches Err(e) && e is Decode,
            Some(jv) => match spec_latest_session(jv) {
                None => r matches Ok(o) && o is None,
                Some(sid) => r matches Ok(o) && (o matches Some(s) && s@ == sid),
            },
        },
{
    if !crate::is_success(status) {
        return Ok(None);
    }
    let j = match parse_body(body) {
        Ok(j) => j,
        Err(e) => {
            return Err(e);
        },
    };
    Ok(field_str(&j, "session_id"))
}

/// The string items among an array's items, in order; anything that is not a
/// string is passed over.
pub open spec fn strs_filtered(items: Seq<JsonV>) -> Seq<Seq<char>>
    decreases items.len(),
{
    if items.len() == 0 {
        Seq::empty()
    } else {
        let pre = strs_filtered(items.drop_last());
        if items.last() is Str {
            pre.push(items.last()->Str_0)
        } else {
            pre
        }
    }
}

/// The sessions a today's-sessions body reports: the string items of its
/// `sessions` array, or nothing when the field is absent or not an array.
pub open spec fn spec_today_sessions(jv: JsonV) -> Seq<Seq<char>> {
    match jv_field(jv, "sessions"@) {
        Some(JsonV::Arr(items)) => strs_filtered(items),
        _ => Seq::empty(),
    }
}

/// Interprets the today's-sessions lookup.
pub fn interpret_today_sessions(status: u16, body: &str) -> (r: Result<Vec<String>, ApiError>)
    ensures
        !spec_is_success(status) ==> (r matches Err(ApiError::Remote { status: st, body: b })
            && st == status && b@ == body@),
        spec_is_success(status) ==> match spec_parse_json(body@) {
            None => r matches Err(e) && e is Decode,
            Some(jv) => r matches Ok(v) && strings_view(v@) == spec_today_sessions(jv),
        },
{
    match require_success(status, body) {
        Err(e) => Err(e),
        Ok(_) => {
            let j = match parse_body(body) {
                Ok(j) => j,
                Err(e) => {
                    return Err(e);
                },
            };
            let items: &Vec<Json> = match get_field(&j, "sessions") {
                Some(Json::Arr(items)) => items,
                _ => {
                    let empty: Vec<String> = Vec::new();
                    proof {
                        assert(strings_view(empty@) =~= Seq::<Seq<char>>::empty());
                    }
                    return Ok(empty);
                },
            };
            let ghost ivs = views_of(items@);
            let mut out: Vec<String> = Vec::new();
            let mut i: usize = 0;
            while i < items.len()
                invariant
                    i <= items@.len(),
                    strings_view(out@) == strs_filtered(ivs.subrange(0, i as int)),
                decreases items@.len() - i,
            {
                match &items[i] {
                    Json::Str(s) => {
                        out.push(s.clone());
                    },
                    _ => {},
                }
                i = i + 1;
                proof {
                    let pre = ivs.subrange(0, i - 1);
                    let ext = ivs.subrange(0, i as int);
                    assert(ext.drop_last() =~= pre);
                    assert(strings_view(out@) =~= strs_filtered(ext));
                }
            }
            proof {
                assert(ivs.subrange(0, ivs.len() as int) =~= ivs);
            }
            Ok(out)
        },
    }
}

/// Interprets the reflection generation.
pub fn interpret_generate_reflection(status: u16, body: &str) -> (r: Result<Reflection, ApiError>)
    ensures
        !spec_is_success(status) ==> (r matches Err(ApiError::Remote { status: st, body: b })
            && st == status && b@ == body@),
        spec_is_success(status) ==> match spec_parse_json(body@) {
            None => r matches Err(e) && e is Decode,
            Some(jv) => match reflection_of(jv) {
                None => r matches Err(e) && e is Decode,
                Some(v) => r matches Ok(x) && x@ == v,
            },
        },
{
    match require_success(status, body) {
        Err(e) => Err(e),
        Ok(_) => {
            let j = match parse_body(body) {
                Ok(j) => j,
                Err(e) => {
                    return Err(e);
                },
            };
            match decode_reflection(&j) {
                Some(x) => Ok(x),
                None => Err(ApiError::Decode),
            }
        },
    }
}

/// Interprets the reflection save: the identifier it was stored under.
pub fn interpret_save_reflection(status: u16, body: &str) -> (r: Result<String, ApiError>)
    ensures
        !spec_is_success(status) ==> (r matches Err(ApiError::Remote { status: st, body: b })
            && st == status && b@ == body@),
        spec_is_success(status) ==> match spec_parse_json(body@) {
            None => r matches Err(e) && e is Decode,
            Some(jv) => r matches Ok(s) && s@ == spec_ack_id(jv),
        },
{
    match require_success(status, body) {
        Err(e) => Err(e),
        Ok(_) => {
            let j = match parse_body(body) {
                Ok(j) => j,
                Err(e) => {
                    return Err(e);
                },
            };
            Ok(ack_id(&j))
        },
    }
}

} // verus!
