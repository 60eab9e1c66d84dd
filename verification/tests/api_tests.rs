use pam_cli::requests::{
    ApiRequest, Method, chat_request, context_file_request, health_request, latest_session_request,
    memory_clear_request, memory_index_request, memory_list_request, memory_search_request,
    reflect_request, reflection_save_request, skill_invoke_request, skill_log_request,
};
use pam_cli::responses::{
    ApiError, interpret_chat, interpret_check_database, interpret_check_gcs,
    interpret_clear_memories, interpret_context_file, interpret_context_stats,
    interpret_context_status, interpret_generate_reflection, interpret_health,
    interpret_index_memory, interpret_invoke_skill, interpret_latest_session,
    interpret_list_memories, interpret_list_skills, interpret_memory_status,
    interpret_refresh_context, interpret_save_reflection, interpret_search_memories,
    interpret_skill_log, validate_skill_params,
};
use pam_cli::records::Reflection;
use pam_cli::json::json_int;

fn pairs(req: &ApiRequest) -> Vec<(String, String)> {
    req.query.clone()
}

#[test]
fn search_request_has_exact_url_and_query() {
    let req = memory_search_request("https://x.test", "roadmap", 10, None);
    assert!(matches!(req.method, Method::Get));
    assert_eq!(req.url, "https://x.test/api/chief-of-staff/memory/search");
    assert_eq!(
        pairs(&req),
        vec![
            ("query".to_owned(), "roadmap".to_owned()),
            ("limit".to_owned(), "10".to_owned()),
        ]
    );
    assert!(req.body.is_none());
    let req2 = memory_search_request("https://x.test", "roadmap", 10, Some("u@x"));
    assert_eq!(pairs(&req2).last().unwrap(), &("user".to_owned(), "u@x".to_owned()));
}

#[test]
fn search_of_empty_list_body_is_an_empty_result() {
    let r = interpret_search_memories(200, "[]").unwrap();
    assert!(r.is_empty());
}

#[test]
fn search_decodes_full_records() {
    let body = "[{\"title\":\"t\",\"session_id\":\"s\",\"content\":\"c\",\"created_at\":\"2024-01-01\",\"relevance_score\":0.87}]";
    let r = interpret_search_memories(200, body).unwrap();
    assert_eq!(r.len(), 1);
    assert_eq!(r[0].title, "t");
    assert_eq!(r[0].relevance_score, "0.87");
}

#[test]
fn non_success_status_is_a_remote_error_with_the_status() {
    match interpret_search_memories(500, "boom") {
        Err(ApiError::Remote { status, body }) => {
            assert_eq!(status, 500);
            assert_eq!(body, "boom");
        },
        _ => panic!("expected a remote error"),
    }
    match interpret_memory_status(404, "missing") {
        Err(ApiError::Remote { status, .. }) => assert_eq!(status, 404),
        _ => panic!("expected a remote error"),
    }
    match interpret_generate_reflection(503, "") {
        Err(ApiError::Remote { status, .. }) => assert_eq!(status, 503),
        _ => panic!("expected a remote error"),
    }
}

#[test]
fn unparseable_success_body_is_a_decode_error() {
    assert!(matches!(interpret_search_memories(200, "{oops"), Err(ApiError::Decode)));
    assert!(matches!(interpret_memory_status(200, "[]"), Err(ApiError::Decode)));
    assert!(matches!(interpret_chat(200, "{\"response\":5}"), Err(ApiError::Decode)));
}

#[test]
fn memory_status_decodes_counts_and_tables() {
    let body = "{\"total_memories\":3,\"total_sessions\":2,\"total_reflections\":1,\"tables\":[{\"name\":\"m\",\"row_count\":7}]}";
    let ms = interpret_memory_status(200, body).unwrap();
    assert_eq!(ms.total_memories, 3);
    assert_eq!(ms.tables.len(), 1);
    assert_eq!(ms.tables[0].name, "m");
    assert_eq!(ms.tables[0].row_count, 7);
    // a missing required field fails the whole decode
    let partial = "{\"total_memories\":3,\"total_sessions\":2,\"tables\":[]}";
    assert!(matches!(interpret_memory_status(200, partial), Err(ApiError::Decode)));
}

#[test]
fn index_request_body_is_exact_json() {
    let req = memory_index_request(
        "https://x.test",
        "hello",
        &vec!["a".to_owned(), "b".to_owned()],
    );
    assert!(matches!(req.method, Method::Post));
    assert_eq!(req.url, "https://x.test/api/chief-of-staff/memory/index");
    assert_eq!(req.body.as_deref(), Some("{\"content\":\"hello\",\"tags\":[\"a\",\"b\"]}"));
}

#[test]
fn index_ack_uses_the_unknown_placeholder_once() {
    assert_eq!(interpret_index_memory(200, "{\"id\":\"m1\"}").unwrap(), "m1");
    assert_eq!(interpret_index_memory(200, "{}").unwrap(), "unknown");
    assert_eq!(interpret_save_reflection(200, "{}").unwrap(), "unknown");
}

#[test]
fn clear_request_and_count() {
    let req = memory_clear_request("https://x.test", "u@x");
    assert_eq!(req.body.as_deref(), Some("{\"user\":\"u@x\"}"));
    assert_eq!(interpret_clear_memories(200, "{\"deleted_count\":4}").unwrap(), 4);
    assert_eq!(interpret_clear_memories(200, "{}").unwrap(), 0);
}

#[test]
fn list_memories_decodes_entries() {
    let req = memory_list_request("https://x.test", 20, Some("u@x"));
    assert_eq!(req.url, "https://x.test/api/chief-of-staff/memory/list");
    assert_eq!(
        pairs(&req),
        vec![
            ("limit".to_owned(), "20".to_owned()),
            ("user".to_owned(), "u@x".to_owned()),
        ]
    );
    let body = "[{\"session_id\":\"s\",\"preview\":\"p\",\"created_at\":\"2024-05-06T07:08:09Z\"}]";
    let entries = interpret_list_memories(200, body).unwrap();
    assert_eq!(entries.len(), 1);
    assert_eq!(entries[0].created_at, "2024-05-06T07:08:09Z");
}

#[test]
fn skills_decode_from_their_wrapper_field() {
    let body = "{\"skills\":[{\"skill_key\":\"k\",\"description\":\"d\",\"risk_level\":\"safe\",\"enabled\":true,\"usage_count\":9}]}";
    let skills = interpret_list_skills(200, body).unwrap();
    assert_eq!(skills.len(), 1);
    assert_eq!(skills[0].skill_key, "k");
    assert!(skills[0].enabled);
    // without the wrapper field the decode fails
    assert!(matches!(interpret_list_skills(200, "[]"), Err(ApiError::Decode)));
}

#[test]
fn skill_params_validate_before_any_call() {
    assert!(matches!(
        validate_skill_params("{\"query\": \"x\"}"),
        Ok(_)
    ));
    match validate_skill_params("not json") {
        Err(ApiError::Validation { detail }) => assert_eq!(detail, "not json"),
        _ => panic!("expected a validation error"),
    }
}

#[test]
fn skill_invoke_request_body_is_exact() {
    let req = skill_invoke_request(
        "https://x.test",
        "jira-query",
        json_int(1),
        "u@x",
        "cli_170",
    );
    assert_eq!(req.url, "https://x.test/api/chief-of-staff/skill");
    assert_eq!(
        req.body.as_deref(),
        Some("{\"skill_key\":\"jira-query\",\"params\":1,\"user_email\":\"u@x\",\"session_id\":\"cli_170\"}")
    );
    let out = interpret_invoke_skill(200, "{\"content\":\"done\"}").unwrap();
    assert_eq!(pam_cli::records::field_str(&out, "content").as_deref(), Some("done"));
}

#[test]
fn skill_log_request_and_decode() {
    let req = skill_log_request("https://x.test", Some("k"), 5);
    assert_eq!(
        pairs(&req),
        vec![
            ("limit".to_owned(), "5".to_owned()),
            ("skill".to_owned(), "k".to_owned()),
        ]
    );
    let body = "[{\"skill_key\":\"k\",\"user_email\":\"u\",\"success\":false,\"duration_ms\":12,\"created_at\":\"t\"}]";
    let log = interpret_skill_log(200, body).unwrap();
    assert_eq!(log.len(), 1);
    assert!(!log[0].success);
}

#[test]
fn context_calls_decode_raw_sizes() {
    let body = "{\"file_count\":2,\"total_size_kb\":10.5,\"estimated_tokens\":100,\"files\":[{\"name\":\"a.md\",\"size_kb\":1.25,\"age_minutes\":3}]}";
    let st = interpret_context_status(200, body).unwrap();
    assert_eq!(st.file_count, 2);
    assert_eq!(st.total_size_kb, "10.5");
    assert_eq!(st.files[0].size_kb, "1.25");
    assert_eq!(st.files[0].age_minutes, "3");
    let stats_body = "{\"total_size_kb\":1,\"estimated_tokens\":2,\"realtime_kb\":3,\"realtime_pct\":4,\"projects_kb\":5,\"projects_pct\":6,\"team_kb\":7,\"team_pct\":8,\"activity_kb\":9,\"activity_pct\":10,\"team_members\":[\"a\"]}";
    let stats = interpret_context_stats(200, stats_body).unwrap();
    assert_eq!(stats.team_members, vec!["a".to_owned()]);
    let refresh = interpret_refresh_context(200, "{\"files_loaded\":3,\"total_size_kb\":9.75}")
        .unwrap();
    assert_eq!(refresh.files_loaded, 3);
    assert_eq!(refresh.total_size_kb, "9.75");
}

#[test]
fn context_file_fetch_returns_the_body_verbatim() {
    let req = context_file_request("https://x.test", "jira_summary.md");
    assert_eq!(req.url, "https://x.test/api/chief-of-staff/context/jira_summary.md");
    assert_eq!(interpret_context_file(200, "# hi").unwrap(), "# hi");
    assert!(matches!(interpret_context_file(404, ""), Err(ApiError::Remote { status: 404, .. })));
}

#[test]
fn health_summary_reports_rather_than_fails() {
    let req = health_request("https://x.test");
    assert_eq!(req.url, "https://x.test/api/health");
    assert_eq!(interpret_health(204), "Healthy");
    assert_eq!(interpret_health(503), "Unhealthy (503)");
    assert!(interpret_check_database(200, "").is_ok());
    assert!(matches!(
        interpret_check_database(500, "down"),
        Err(ApiError::Remote { status: 500, .. })
    ));
    assert_eq!(interpret_check_gcs(200, "{\"file_count\": 7}").unwrap(), 7);
    assert_eq!(interpret_check_gcs(200, "{}").unwrap(), 0);
}

#[test]
fn chat_request_carries_principal_and_key_headers() {
    let req = chat_request("https://x.test", "u@x", "cli_1", "hello", Some("key-0123"));
    assert_eq!(req.url, "https://x.test/api/chief-of-staff/chat");
    assert_eq!(
        req.headers,
        vec![
            ("X-User-Email".to_owned(), "u@x".to_owned()),
            ("X-PAM-CLI-Key".to_owned(), "key-0123".to_owned()),
        ]
    );
    assert_eq!(
        req.body.as_deref(),
        Some("{\"message\":\"hello\",\"user\":\"u@x\",\"session_id\":\"cli_1\"}")
    );
    // an absent key is sent as an empty header value, never omitted
    let req2 = chat_request("https://x.test", "u@x", "cli_1", "hello", None);
    assert_eq!(req2.headers[1], ("X-PAM-CLI-Key".to_owned(), "".to_owned()));
}

#[test]
fn chat_reply_needs_both_fields() {
    let ok = interpret_chat(200, "{\"response\":\"hi\",\"session_id\":\"s\"}").unwrap();
    assert_eq!(ok, "hi");
    assert!(matches!(
        interpret_chat(200, "{\"response\":\"hi\"}"),
        Err(ApiError::Decode)
    ));
}

#[test]
fn latest_session_treats_non_success_as_no_result() {
    let req = latest_session_request("https://x.test", "u@x");
    assert_eq!(req.url, "https://x.test/api/chief-of-staff/sessions/latest");
    assert_eq!(pairs(&req), vec![("user".to_owned(), "u@x".to_owned())]);
    assert_eq!(interpret_latest_session(404, "gone").unwrap(), None);
    assert_eq!(
        interpret_latest_session(200, "{\"session_id\":\"s9\"}").unwrap(),
        Some("s9".to_owned())
    );
    assert_eq!(interpret_latest_session(200, "{}").unwrap(), None);
    assert!(matches!(interpret_latest_session(200, "{bad"), Err(ApiError::Decode)));
}

#[test]
fn today_sessions_keep_only_strings() {
    let r = pam_cli::responses::interpret_today_sessions(
        200,
        "{\"sessions\":[\"s1\",5,\"s2\",null]}",
    )
    .unwrap();
    assert_eq!(r, vec!["s1".to_owned(), "s2".to_owned()]);
    let empty = pam_cli::responses::interpret_today_sessions(200, "{}").unwrap();
    assert!(empty.is_empty());
}

#[test]
fn reflect_request_sends_the_sessions_in_order() {
    let req = reflect_request(
        "https://x.test",
        "u@x",
        &vec!["s1".to_owned(), "s2".to_owned()],
    );
    assert_eq!(req.url, "https://x.test/api/chief-of-staff/reflect");
    assert_eq!(
        req.body.as_deref(),
        Some("{\"user_email\":\"u@x\",\"sessions\":[\"s1\",\"s2\"]}")
    );
}

#[test]
fn reflection_decodes_and_saves() {
    let body = "{\"what_worked\":[\"w\"],\"what_failed\":[],\"learnings\":[\"l1\",\"l2\"],\"action_items\":[\"a\"]}";
    let refl = interpret_generate_reflection(200, body).unwrap();
    assert_eq!(refl.what_worked, vec!["w".to_owned()]);
    assert!(refl.what_failed.is_empty());
    assert_eq!(refl.learnings.len(), 2);
    let save_req = reflection_save_request("https://x.test", "u@x", &refl);
    assert_eq!(
        save_req.body.as_deref(),
        Some("{\"user_email\":\"u@x\",\"reflection\":{\"what_worked\":[\"w\"],\"what_failed\":[],\"learnings\":[\"l1\",\"l2\"],\"action_items\":[\"a\"]}}")
    );
    assert_eq!(interpret_save_reflection(200, "{\"id\":\"r1\"}").unwrap(), "r1");
    // a reflection with a non-string item fails the decode
    let bad = "{\"what_worked\":[1],\"what_failed\":[],\"learnings\":[],\"action_items\":[]}";
    assert!(matches!(interpret_generate_reflection(200, bad), Err(ApiError::Decode)));
}

#[test]
fn skill_invoke_failure_carries_the_body_text() {
    let refl = Reflection {
        what_worked: vec![],
        what_failed: vec![],
        learnings: vec![],
        action_items: vec![],
    };
    let _ = refl;
    match interpret_invoke_skill(422, "skill disabled") {
        Err(ApiError::Remote { status, body }) => {
            assert_eq!(status, 422);
            assert_eq!(body, "skill disabled");
        },
        _ => panic!("expected a remote error"),
    }
}
