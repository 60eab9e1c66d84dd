//! Typed records decoded from response bodies, with their decoders.
//!
//! Every record is flat and fully populated: a decoder returns the record
//! only when every required field is present with the right type, and
//! nothing otherwise — a missing or ill-typed field never defaults silently.
//! Sizes and scores that the service reports as fractional numbers are kept
//! as the raw number tokens they were sent as.

#![verifier::loop_isolation(false)]

use vstd::prelude::*;
use crate::json::{Json, JsonV, json_view, obj_get, get_member, view_members, views_of,
    lemma_arr_view, lemma_obj_view};
use crate::strutil::strings_view;

verus! {

broadcast use {vstd::std_specs::vec::group_vec_axioms, lemma_arr_view, lemma_obj_view};

/// The value bound to `key` when the value is an object.
pub open spec fn jv_field(j: JsonV, key: Seq<char>) -> Option<JsonV> {
    match j {
        JsonV::Obj(fields) => obj_get(fields, key),
        _ => None,
    }
}

/// The string bound to `key`.
pub open spec fn jv_field_str(j: JsonV, key: Seq<char>) -> Option<Seq<char>> {
    match jv_field(j, key) {
        Some(JsonV::Str(s)) => Some(s),
        _ => None,
    }
}

/// The integer bound to `key`: a number written as a plain integer that fits
/// a 64-bit signed integer.
pub open spec fn jv_field_i64(j: JsonV, key: Seq<char>) -> Option<i64> {
    match jv_field(j, key) {
        Some(JsonV::Num { raw, int_val }) => int_val,
        _ => None,
    }
}

/// The integer bound to `key`, when it also fits 32 bits.
pub open spec fn jv_field_i32(j: JsonV, key: Seq<char>) -> Option<i32> {
    match jv_field_i64(j, key) {
        Some(v) => if -0x80000000 <= v <= 0x7fffffff {
            Some(v as i32)
        } else {
            None
        },
        None => None,
    }
}

/// The raw token of the number bound to `key`.
pub open spec fn jv_field_num_raw(j: JsonV, key: Seq<char>) -> Option<Seq<char>> {
    match jv_field(j, key) {
        Some(JsonV::Num { raw, int_val }) => Some(raw),
        _ => None,
    }
}

/// The boolean bound to `key`.
pub open spec fn jv_field_bool(j: JsonV, key: Seq<char>) -> Option<bool> {
    match jv_field(j, key) {
        Some(JsonV::Bool(b)) => Some(b),
        _ => None,
    }
}

/// The array items bound to `key`.
pub open spec fn jv_field_arr(j: JsonV, key: Seq<char>) -> Option<Seq<JsonV>> {
    match jv_field(j, key) {
        Some(JsonV::Arr(items)) => Some(items),
        _ => None,
    }
}

/// Whether every item is a string.
pub open spec fn all_strs(items: Seq<JsonV>) -> bool {
    forall|i: int| 0 <= i < items.len() ==> items[i] is Str
}

/// The characters of each item of a string array.
pub open spec fn str_items(items: Seq<JsonV>) -> Seq<Seq<char>> {
    Seq::new(items.len(), |i: int| items[i]->Str_0)
}

/// The string array bound to `key`.
pub open spec fn jv_field_strs(j: JsonV, key: Seq<char>) -> Option<Seq<Seq<char>>> {
    match jv_field_arr(j, key) {
        Some(items) => if all_strs(items) {
            Some(str_items(items))
        } else {
            None
        },
        None => None,
    }
}

/// Looks up a field of an object value.
pub fn get_field<'a>(j: &'a Json, key: &str) -> (r: Option<&'a Json>)
    ensures
        match r {
            Some(v) => jv_field(j@, key@) == Some(v@),
            None => jv_field(j@, key@) is None,
        },
{
    match j {
        Json::Obj(fields) => get_member(fields, key),
        _ => None,
    }
}

/// Looks up a string field.
pub fn field_str(j: &Json, key: &str) -> (r: Option<String>)
    ensures
        match r {
            Some(s) => jv_field_str(j@, key@) == Some(s@),
            None => jv_field_str(j@, key@) is None,
        },
{
    match get_field(j, key) {
        Some(Json::Str(s)) => Some(s.clone()),
        _ => None,
    }
}

/// Looks up an integer field.
pub fn field_i64(j: &Json, key: &str) -> (r: Option<i64>)
    ensures
        r == jv_field_i64(j@, key@),
{
    match get_field(j, key) {
        Some(Json::Num { raw, int_val }) => *int_val,
        _ => None,
    }
}

/// Looks up an integer field that must fit 32 bits.
pub fn field_i32(j: &Json, key: &str) -> (r: Option<i32>)
    ensures
        r == jv_field_i32(j@, key@),
{
    match field_i64(j, key) {
        Some(v) => {
            if -0x80000000 <= v && v <= 0x7fffffff {
                Some(v as i32)
            } else {
                None
            }
        },
        None => None,
    }
}

/// Looks up a number field's raw token.
pub fn field_num_raw(j: &Json, key: &str) -> (r: Option<String>)
    ensures
        match r {
            Some(s) => jv_field_num_raw(j@, key@) == Some(s@),
            None => jv_field_num_raw(j@, key@) is None,
        },
{
    match get_field(j, key) {
        Some(Json::Num { raw, int_val }) => Some(raw.clone()),
        _ => None,
    }
}

/// Looks up a boolean field.
pub fn field_bool(j: &Json, key: &str) -> (r: Option<bool>)
    ensures
        r == jv_field_bool(j@, key@),
{
    match get_field(j, key) {
        Some(Json::Bool(b)) => Some(*b),
        _ => None,
    }
}

/// Looks up a string-array field and copies its strings.
pub fn field_strs(j: &Json, key: &str) -> (r: Option<Vec<String>>)
    ensures
        match r {
            Some(v) => jv_field_strs(j@, key@) == Some(strings_view(v@)),
            None => jv_field_strs(j@, key@) is None,
        },
{
    let items: &Vec<Json> = match get_field(j, key) {
        Some(Json::Arr(items)) => items,
        _ => {
            return None;
        },
    };
    let ghost ivs = views_of(items@);
    let mut out: Vec<String> = Vec::new();
    let mut i: usize = 0;
    while i < items.len()
        invariant
            i <= items@.len(),
            out@.len() == i,
            forall|k: int| 0 <= k < i ==> ivs[k] is Str && out@[k]@ == ivs[k]->Str_0,
        decreases items@.len() - i,
    {
        match &items[i] {
            Json::Str(s) => {
                out.push(s.clone());
            },
            _ => {
                proof {
                    assert(!(ivs[i as int] is Str));
                }
                return None;
            },
        }
        i = i + 1;
    }
    proof {
        assert(all_strs(ivs));
        assert(str_items(ivs) =~= strings_view(out@));
    }
    Some(out)
}

/// One table of the memory store.
pub struct TableInfo {
    pub name: String,
    pub row_count: i64,
}

/// The mathematical form of a table record.
pub struct TableInfoV {
    pub name: Seq<char>,
    pub row_count: i64,
}

impl View for TableInfo {
    type V = TableInfoV;

    open spec fn view(&self) -> TableInfoV {
        TableInfoV { name: self.name@, row_count: self.row_count }
    }
}

/// The memory store's status summary.
pub struct MemoryStatus {
    pub total_memories: i64,
    pub total_sessions: i64,
    pub total_reflections: i64,
    pub tables: Vec<TableInfo>,
}

/// The mathematical form of the status summary.
pub struct MemoryStatusV {
    pub total_memories: i64,
    pub total_sessions: i64,
    pub total_reflections: i64,
    pub tables: Seq<TableInfoV>,
}

impl View for MemoryStatus {
    type V = MemoryStatusV;

    open spec fn view(&self) -> MemoryStatusV {
        MemoryStatusV {
            total_memories: self.total_memories,
            total_sessions: self.total_sessions,
            total_reflections: self.total_reflections,
            tables: Seq::new(self.tables@.len(), |i: int| self.tables@[i]@),
        }
    }
}

/// What one element of the `tables` array means, when it is well-formed.
pub open spec fn table_of(j: JsonV) -> Option<TableInfoV> {
    match (jv_field_str(j, "name"@), jv_field_i64(j, "row_count"@)) {
        (Some(name), Some(row_count)) => Some(TableInfoV { name, row_count }),
        _ => None,
    }
}

/// Decodes one table record.
fn decode_table(j: &Json) -> (r: Option<TableInfo>)
    ensures
        match r {
            Some(t) => table_of(j@) == Some(t@),
            None => table_of(j@) is None,
        },
{
    let name = match field_str(j, "name") {
        Some(s) => s,
        None => {
            return None;
        },
    };
    let row_count = match field_i64(j, "row_count") {
        Some(v) => v,
        None => {
            return None;
        },
    };
    Some(TableInfo { name, row_count })
}

/// Whether every item decodes as a table record.
pub open spec fn all_tables(items: Seq<JsonV>) -> bool {
    forall|i: int| 0 <= i < items.len() ==> table_of(items[i]) is Some
}

/// The table records of an array of well-formed items.
pub open spec fn tables_of(items: Seq<JsonV>) -> Seq<TableInfoV> {
    Seq::new(items.len(), |i: int| table_of(items[i])->0)
}

/// What a memory-status body means, when it is well-formed.
pub open spec fn memory_status_of(j: JsonV) -> Option<MemoryStatusV> {
    match (
        jv_field_i64(j, "total_memories"@),
        jv_field_i64(j, "total_sessions"@),
        jv_field_i64(j, "total_reflections"@),
        jv_field_arr(j, "tables"@),
    ) {
        (Some(tm), Some(ts), Some(tr), Some(items)) => if all_tables(items) {
            Some(
                MemoryStatusV {
                    total_memories: tm,
                    total_sessions: ts,
                    total_reflections: tr,
                    tables: tables_of(items),
                },
            )
        } else {
            None
        },
        _ => None,
    }
}

/// Decodes a memory-status body.
pub fn decode_memory_status(j: &Json) -> (r: Option<MemoryStatus>)
    ensures
        match r {
            Some(ms) => memory_status_of(j@) == Some(ms@),
            None => memory_status_of(j@) is None,
        },
{
    let total_memories = match field_i64(j, "total_memories") {
        Some(v) => v,
        None => {
            return None;
        },
    };
    let total_sessions = match field_i64(j, "total_sessions") {
        Some(v) => v,
        None => {
            return None;
        },
    };
    let total_reflections = match field_i64(j, "total_reflections") {
        Some(v) => v,
        None => {
            return None;
        },
    };
    let items: &Vec<Json> = match get_field(j, "tables") {
        Some(Json::Arr(items)) => items,
        _ => {
            return None;
        },
    };
    let ghost ivs = views_of(items@);
    let mut tables: Vec<TableInfo> = Vec::new();
    let mut i: usize = 0;
    while i < items.len()
        invariant
            i <= items@.len(),
            tables@.len() == i,
            forall|k: int| 0 <= k < i ==> table_of(ivs[k]) == Some(tables@[k]@),
        decreases items@.len() - i,
    {
        match decode_table(&items[i]) {
            Some(t) => {
                tables.push(t);
            },
            None => {
                proof {
                    assert(table_of(ivs[i as int]) is None);
                }
                return None;
            },
        }
        i = i + 1;
    }
    let r = MemoryStatus { total_memories, total_sessions, total_reflections, tables };
    proof {
        assert(all_tables(ivs));
        assert(tables_of(ivs) =~= r@.tables);
    }
    Some(r)
}

/// One hit of a memory search. The relevance score is kept as the raw number
/// token the service sent.
pub struct MemorySearchResult {
    pub title: String,
    pub session_id: String,
    pub content: String,
    pub created_at: String,
    pub relevance_score: String,
}

/// The mathematical form of one search hit.
pub struct MemorySearchResultV {
    pub title: Seq<char>,
    pub session_id: Seq<char>,
    pub content: Seq<char>,
    pub created_at: Seq<char>,
    pub relevance_score: Seq<char>,
}

impl View for MemorySearchResult {
    type V = MemorySearchResultV;

    open spec fn view(&self) -> MemorySearchResultV {
        MemorySearchResultV {
            title: self.title@,
            session_id: self.session_id@,
            content: self.content@,
            created_at: self.created_at@,
            relevance_score: self.relevance_score@,
        }
    }
}

/// What one search hit means, when it is well-formed.
pub open spec fn search_result_of(j: JsonV) -> Option<MemorySearchResultV> {
    match (
        jv_field_str(j, "title"@),
        jv_field_str(j, "session_id"@),
        jv_field_str(j, "content"@),
        jv_field_str(j, "created_at"@),
        jv_field_num_raw(j, "relevance_score"@),
    ) {
        (Some(title), Some(session_id), Some(content), Some(created_at), Some(score)) => Some(
            MemorySearchResultV {
                title,
                session_id,
                content,
                created_at,
                relevance_score: score,
            },
        ),
        _ => None,
    }
}

/// Decodes one search hit.
fn decode_search_result(j: &Json) -> (r: Option<MemorySearchResult>)
    ensures
        match r {
            Some(x) => search_result_of(j@) == Some(x@),
            None => search_result_of(j@) is None,
        },
{
    let title = match field_str(j, "title") {
        Some(s) => s,
        None => {
            return None;
        },
    };
    let session_id = match field_str(j, "session_id") {
        Some(s) => s,
        None => {
            return None;
        },
    };
    let content = match field_str(j, "content") {
        Some(s) => s,
        None => {
            return None;
        },
    };
    let created_at = match field_str(j, "created_at") {
        Some(s) => s,
        None => {
            return None;
        },
    };
    let relevance_score = match field_num_raw(j, "relevance_score") {
        Some(s) => s,
        None => {
            return None;
        },
    };
    Some(MemorySearchResult { title, session_id, content, created_at, relevance_score })
}

/// Whether every item decodes as a search hit.
pub open spec fn all_search_results(items: Seq<JsonV>) -> bool {
    forall|i: int| 0 <= i < items.len() ==> search_result_of(items[i]) is Some
}

/// The search hits of an array of well-formed items.
pub open spec fn search_results_of(items: Seq<JsonV>) -> Seq<MemorySearchResultV> {
    Seq::new(items.len(), |i: int| search_result_of(items[i])->0)
}

/// The views of a vector of search hits.
pub open spec fn search_results_view(v: Seq<MemorySearchResult>) -> Seq<MemorySearchResultV> {
    Seq::new(v.len(), |i: int| v[i]@)
}

/// What a search-response body means: an array of well-formed hits.
pub open spec fn search_response_of(j: JsonV) -> Option<Seq<MemorySearchResultV>> {
    match j {
        JsonV::Arr(items) => if all_search_results(items) {
            Some(search_results_of(items))
        } else {
            None
        },
        _ => None,
    }
}

/// Decodes a search-response body.
pub fn decode_search_results(j: &Json) -> (r: Option<Vec<MemorySearchResult>>)
    ensures
        match r {
            Some(v) => search_response_of(j@) == Some(search_results_view(v@)),
            None => search_response_of(j@) is None,
        },
{
    let items: &Vec<Json> = match j {
        Json::Arr(items) => items,
        _ => {
            return None;
        },
    };
    let ghost ivs = views_of(items@);
    let mut out: Vec<MemorySearchResult> = Vec::new();
    let mut i: usize = 0;
    while i < items.len()
        invariant
            i <= items@.len(),
            out@.len() == i,
            forall|k: int| 0 <= k < i ==> search_result_of(ivs[k]) == Some(out@[k]@),
        decreases items@.len() - i,
    {
        match decode_search_result(&items[i]) {
            Some(x) => {
                out.push(x);
            },
            None => {
                proof {
                    assert(search_result_of(ivs[i as int]) is None);
                }
                return None;
            },
        }
        i = i + 1;
    }
    proof {
        assert(all_search_results(ivs));
        assert(search_results_of(ivs) =~= search_results_view(out@));
    }
    Some(out)
}

/// One stored memory, as listed. The timestamp is kept as the text the
/// service sent.
pub struct MemoryEntry {
    pub session_id: String,
    pub preview: String,
    pub created_at: String,
}

/// The mathematical form of one listed memory.
pub struct MemoryEntryV {
    pub session_id: Seq<char>,
    pub preview: Seq<char>,
    pub created_at: Seq<char>,
}

impl View for MemoryEntry {
    type V = MemoryEntryV;

    open spec fn view(&self) -> MemoryEntryV {
        MemoryEntryV {
            session_id: self.session_id@,
            preview: self.preview@,
            created_at: self.created_at@,
        }
    }
}

/// What one listed memory means, when it is well-formed.
pub open spec fn memory_entry_of(j: JsonV) -> Option<MemoryEntryV> {
    match (
        jv_field_str(j, "session_id"@),
        jv_field_str(j, "preview"@),
        jv_field_str(j, "created_at"@),
    ) {
        (Some(session_id), Some(preview), Some(created_at)) => Some(
            MemoryEntryV { session_id, preview, created_at },
        ),
        _ => None,
    }
}

/// Decodes one listed memory.
fn decode_memory_entry(j: &Json) -> (r: Option<MemoryEntry>)
    ensures
        match r {
            Some(x) => memory_entry_of(j@) == Some(x@),
            None => memory_entry_of(j@) is None,
        },
{
    let session_id = match field_str(j, "session_id") {
        Some(s) => s,
        None => {
            return None;
        },
    };
    let preview = match field_str(j, "preview") {
        Some(s) => s,
        None => {
            return None;
        },
    };
    let created_at = match field_str(j, "created_at") {
        Some(s) => s,
        None => {
            return None;
        },
    };
    Some(MemoryEntry { session_id, preview, created_at })
}

/// Whether every item decodes as a listed memory.
pub open spec fn all_memory_entries(items: Seq<JsonV>) -> bool {
    forall|i: int| 0 <= i < items.len() ==> memory_entry_of(items[i]) is Some
}

/// The listed memories of an array of well-formed items.
pub open spec fn memory_entries_of(items: Seq<JsonV>) -> Seq<MemoryEntryV> {
    Seq::new(items.len(), |i: int| memory_entry_of(items[i])->0)
}

/// The views of a vector of listed memories.
pub open spec fn memory_entries_view(v: Seq<MemoryEntry>) -> Seq<MemoryEntryV> {
    Seq::new(v.len(), |i: int| v[i]@)
}

/// What a list-response body means: an array of well-formed entries.
pub open spec fn list_response_of(j: JsonV) -> Option<Seq<MemoryEntryV>> {
    match j {
        JsonV::Arr(items) => if all_memory_entries(items) {
            Some(memory_entries_of(items))
        } else {
            None
        },
        _ => None,
    }
}

/// Decodes a list-response body.
pub fn decode_memory_entries(j: &Json) -> (r: Option<Vec<MemoryEntry>>)
    ensures
        match r {
            Some(v) => list_response_of(j@) == Some(memory_entries_view(v@)),
            None => list_response_of(j@) is None,
        },
{
    let items: &Vec<Json> = match j {
        Json::Arr(items) => items,
        _ => {
            return None;
        },
    };
    let ghost ivs = views_of(items@);
    let mut out: Vec<MemoryEntry> = Vec::new();
    let mut i: usize = 0;
    while i < items.len()
        invariant
            i <= items@.len(),
            out@.len() == i,
            forall|k: int| 0 <= k < i ==> memory_entry_of(ivs[k]) == Some(out@[k]@),
        decreases items@.len() - i,
    {
        match decode_memory_entry(&items[i]) {
            Some(x) => {
                out.push(x);
            },
            None => {
                proof {
                    assert(memory_entry_of(ivs[i as int]) is None);
                }
                return None;
            },
        }
        i = i + 1;
    }
    proof {
        assert(all_memory_entries(ivs));
        assert(memory_entries_of(ivs) =~= memory_entries_view(out@));
    }
    Some(out)
}

/// One remotely invocable skill.
pub struct Skill {
    pub skill_key: String,
    pub description: String,
    pub risk_level: String,
    pub enabled: bool,
    pub usage_count: i64,
}

/// The mathematical form of one skill.
pub struct SkillV {
    pub skill_key: Seq<char>,
    pub description: Seq<char>,
    pub risk_level: Seq<char>,
    pub enabled: bool,
    pub usage_count: i64,
}

impl View for Skill {
    type V = SkillV;

    open spec fn view(&self) -> SkillV {
        SkillV {
            skill_key: self.skill_key@,
            description: self.description@,
            risk_level: self.risk_level@,
            enabled: self.enabled,
            usage_count: self.usage_count,
        }
    }
}

/// What one skill record means, when it is well-formed.
pub open spec fn skill_of(j: JsonV) -> Option<SkillV> {
    match (
        jv_field_str(j, "skill_key"@),
        jv_field_str(j, "description"@),
        jv_field_str(j, "risk_level"@),
        jv_field_bool(j, "enabled"@),
        jv_field_i64(j, "usage_count"@),
    ) {
        (Some(skill_key), Some(description), Some(risk_level), Some(enabled), Some(usage_count))
            => Some(SkillV { skill_key, description, risk_level, enabled, usage_count }),
        _ => None,
    }
}

/// Decodes one skill record.
fn decode_skill(j: &Json) -> (r: Option<Skill>)
    ensures
        match r {
            Some(x) => skill_of(j@) == Some(x@),
            None => skill_of(j@) is None,
        },
{
    let skill_key = match field_str(j, "skill_key") {
        Some(s) => s,
        None => {
            return None;
        },
    };
    let description = match field_str(j, "description") {
        Some(s) => s,
        None => {
            return None;
        },
    };
    let risk_level = match field_str(j, "risk_level") {
        Some(s) => s,
        None => {
            return None;
        },
    };
    let enabled = match field_bool(j, "enabled") {
        Some(b) => b,
        None => {
            return None;
        },
    };
    let usage_count = match field_i64(j, "usage_count") {
        Some(v) => v,
        None => {
            return None;
        },
    };
    Some(Skill { skill_key, description, risk_level, enabled, usage_count })
}

/// Whether every item decodes as a skill.
pub open spec fn all_skills(items: Seq<JsonV>) -> bool {
    forall|i: int| 0 <= i < items.len() ==> skill_of(items[i]) is Some
}

/// The skills of an array of well-formed items.
pub open spec fn skills_of(items: Seq<JsonV>) -> Seq<SkillV> {
    Seq::new(items.len(), |i: int| skill_of(items[i])->0)
}

/// The views of a vector of skills.
pub open spec fn skills_view(v: Seq<Skill>) -> Seq<SkillV> {
    Seq::new(v.len(), |i: int| v[i]@)
}

/// What a skills-response body means: an object whose `skills` field is an
/// array of well-formed skill records.
pub open spec fn skills_response_of(j: JsonV) -> Option<Seq<SkillV>> {
    match jv_field_arr(j, "skills"@) {
        Some(items) => if all_skills(items) {
            Some(skills_of(items))
        } else {
            None
        },
        None => None,
    }
}

/// Decodes a skills-response body.
pub fn decode_skills(j: &Json) -> (r: Option<Vec<Skill>>)
    ensures
        match r {
            Some(v) => skills_response_of(j@) == Some(skills_view(v@)),
            None => skills_response_of(j@) is None,
        },
{
    let items: &Vec<Json> = match get_field(j, "skills") {
        Some(Json::Arr(items)) => items,
        _ => {
            return None;
        },
    };
    let ghost ivs = views_of(items@);
    let mut out: Vec<Skill> = Vec::new();
    let mut i: usize = 0;
    while i < items.len()
        invariant
            i <= items@.len(),
            out@.len() == i,
            forall|k: int| 0 <= k < i ==> skill_of(ivs[k]) == Some(out@[k]@),
        decreases items@.len() - i,
    {
        match decode_skill(&items[i]) {
            Some(x) => {
                out.push(x);
            },
            None => {
                proof {
                    assert(skill_of(ivs[i as int]) is None);
                }
                return None;
            },
        }
        i = i + 1;
    }
    proof {
        assert(all_skills(ivs));
        assert(skills_of(ivs) =~= skills_view(out@));
    }
    Some(out)
}

/// One line of the skill audit log.
pub struct SkillLogEntry {
    pub skill_key: String,
    pub user_email: String,
    pub success: bool,
    pub duration_ms: i64,
    pub created_at: String,
}

/// The mathematical form of one audit line.
pub struct SkillLogEntryV {
    pub skill_key: Seq<char>,
    pub user_email: Seq<char>,
    pub success: bool,
    pub duration_ms: i64,
    pub created_at: Seq<char>,
}

impl View for SkillLogEntry {
    type V = SkillLogEntryV;

    open spec fn view(&self) -> SkillLogEntryV {
        SkillLogEntryV {
            skill_key: self.skill_key@,
            user_email: self.user_email@,
            success: self.success,
            duration_ms: self.duration_ms,
            created_at: self.created_at@,
        }
    }
}

/// What one audit line means, when it is well-formed.
pub open spec fn skill_log_entry_of(j: JsonV) -> Option<SkillLogEntryV> {
    match (
        jv_field_str(j, "skill_key"@),
        jv_field_str(j, "user_email"@),
        jv_field_bool(j, "success"@),
        jv_field_i64(j, "duration_ms"@),
        jv_field_str(j, "created_at"@),
    ) {
        (Some(skill_key), Some(user_email), Some(success), Some(duration_ms), Some(created_at))
            => Some(SkillLogEntryV { skill_key, user_email, success, duration_ms, created_at }),
        _ => None,
    }
}

/// Decodes one audit line.
fn decode_skill_log_entry(j: &Json) -> (r: Option<SkillLogEntry>)
    ensures
        match r {
            Some(x) => skill_log_entry_of(j@) == Some(x@),
            None => skill_log_entry_of(j@) is None,
        },
{
    let skill_key = match field_str(j, "skill_key") {
        Some(s) => s,
        None => {
            return None;
        },
    };
    let user_email = match field_str(j, "user_email") {
        Some(s) => s,
        None => {
            return None;
        },
    };
    let success = match field_bool(j, "success") {
        Some(b) => b,
        None => {
            return None;
        },
    };
    let duration_ms = match field_i64(j, "duration_ms") {
        Some(v) => v,
        None => {
            return None;
        },
    };
    let created_at = match field_str(j, "created_at") {
        Some(s) => s,
        None => {
            return None;
        },
    };
    Some(SkillLogEntry { skill_key, user_email, success, duration_ms, created_at })
}

/// Whether every item decodes as an audit line.
pub open spec fn all_skill_log_entries(items: Seq<JsonV>) -> bool {
    forall|i: int| 0 <= i < items.len() ==> skill_log_entry_of(items[i]) is Some
}

/// The audit lines of an array of well-formed items.
pub open spec fn skill_log_entries_of(items: Seq<JsonV>) -> Seq<SkillLogEntryV> {
    Seq::new(items.len(), |i: int| skill_log_entry_of(items[i])->0)
}

/// The views of a vector of audit lines.
pub open spec fn skill_log_view(v: Seq<SkillLogEntry>) -> Seq<SkillLogEntryV> {
    Seq::new(v.len(), |i: int| v[i]@)
}

/// What a skill-log body means: an array of well-formed audit lines.
pub open spec fn skill_log_response_of(j: JsonV) -> Option<Seq<SkillLogEntryV>> {
    match j {
        JsonV::Arr(items) => if all_skill_log_entries(items) {
            Some(skill_log_entries_of(items))
        } else {
            None
        },
        _ => None,
    }
}

/// Decodes a skill-log body.
pub fn decode_skill_log(j: &Json) -> (r: Option<Vec<SkillLogEntry>>)
    ensures
        match r {
            Some(v) => skill_log_response_of(j@) == Some(skill_log_view(v@)),
            None => skill_log_response_of(j@) is None,
        },
{
    let items: &Vec<Json> = match j {
        Json::Arr(items) => items,
        _ => {
            return None;
        },
    };
    let ghost ivs = views_of(items@);
    let mut out: Vec<SkillLogEntry> = Vec::new();
    let mut i: usize = 0;
    while i < items.len()
        invariant
            i <= items@.len(),
            out@.len() == i,
            forall|k: int| 0 <= k < i ==> skill_log_entry_of(ivs[k]) == Some(out@[k]@),
        decreases items@.len() - i,
    {
        match decode_skill_log_entry(&items[i]) {
            Some(x) => {
                out.push(x);
            },
            None => {
                proof {
                    assert(skill_log_entry_of(ivs[i as int]) is None);
                }
                return None;
            },
        }
        i = i + 1;
    }
    proof {
        assert(all_skill_log_entries(ivs));
        assert(skill_log_entries_of(ivs) =~= skill_log_view(out@));
    }
    Some(out)
}

/// One file of the context bundle. Sizes and ages are kept as the raw number
/// tokens they were sent as.
pub struct ContextFile {
    pub name: String,
    pub size_kb: String,
    pub age_minutes: String,
}

/// The mathematical form of one context file.
pub struct ContextFileV {
    pub name: Seq<char>,
    pub size_kb: Seq<char>,
    pub age_minutes: Seq<char>,
}

impl View for ContextFile {
    type V = ContextFileV;

    open spec fn view(&self) -> ContextFileV {
        ContextFileV {
            name: self.name@,
            size_kb: self.size_kb@,
            age_minutes: self.age_minutes@,
        }
    }
}

/// What one context-file record means, when it is well-formed.
pub open spec fn context_file_of(j: JsonV) -> Option<ContextFileV> {
    match (
        jv_field_str(j, "name"@),
        jv_field_num_raw(j, "size_kb"@),
        jv_field_num_raw(j, "age_minutes"@),
    ) {
        (Some(name), Some(size_kb), Some(age_minutes)) => Some(
            ContextFileV { name, size_kb, age_minutes },
        ),
        _ => None,
    }
}

/// Decodes one context-file record.
fn decode_context_file(j: &Json) -> (r: Option<ContextFile>)
    ensures
        match r {
            Some(x) => context_file_of(j@) == Some(x@),
            None => context_file_of(j@) is None,
        },
{
    let name = match field_str(j, "name") {
        Some(s) => s,
        None => {
            return None;
        },
    };
    let size_kb = match field_num_raw(j, "size_kb") {
        Some(s) => s,
        None => {
            return None;
        },
    };
    let age_minutes = match field_num_raw(j, "age_minutes") {
        Some(s) => s,
        None => {
            return None;
        },
    };
    Some(ContextFile { name, size_kb, age_minutes })
}

/// Whether every item decodes as a context file.
pub open spec fn all_context_files(items: Seq<JsonV>) -> bool {
    forall|i: int| 0 <= i < items.len() ==> context_file_of(items[i]) is Some
}

/// The context files of an array of well-formed items.
pub open spec fn context_files_of(items: Seq<JsonV>) -> Seq<ContextFileV> {
    Seq::new(items.len(), |i: int| context_file_of(items[i])->0)
}

/// The views of a vector of context files.
pub open spec fn context_files_view(v: Seq<ContextFile>) -> Seq<ContextFileV> {
    Seq::new(v.len(), |i: int| v[i]@)
}

/// The context bundle's status summary.
pub struct ContextStatus {
    pub file_count: i32,
    pub total_size_kb: String,
    pub estimated_tokens: i64,
    pub files: Vec<ContextFile>,
}

/// The mathematical form of the bundle status.
pub struct ContextStatusV {
    pub file_count: i32,
    pub total_size_kb: Seq<char>,
    pub estimated_tokens: i64,
    pub files: Seq<ContextFileV>,
}

impl View for ContextStatus {
    type V = ContextStatusV;

    open spec fn view(&self) -> ContextStatusV {
        ContextStatusV {
            file_count: self.file_count,
            total_size_kb: self.total_size_kb@,
            estimated_tokens: self.estimated_tokens,
            files: Seq::new(self.files@.len(), |i: int| self.files@[i]@),
        }
    }
}

/// What a context-status body means, when it is well-formed.
pub open spec fn context_status_of(j: JsonV) -> Option<ContextStatusV> {
    match (
        jv_field_i32(j, "file_count"@),
        jv_field_num_raw(j, "total_size_kb"@),
        jv_field_i64(j, "estimated_tokens"@),
        jv_field_arr(j, "files"@),
    ) {
        (Some(file_count), Some(total_size_kb), Some(estimated_tokens), Some(items)) => if
            all_context_files(items) {
            Some(
                ContextStatusV {
                    file_count,
                    total_size_kb,
                    estimated_tokens,
                    files: context_files_of(items),
                },
            )
        } else {
            None
        },
        _ => None,
    }
}

/// Decodes a context-status body.
pub fn decode_context_status(j: &Json) -> (r: Option<ContextStatus>)
    ensures
        match r {
            Some(x) => context_status_of(j@) == Some(x@),
            None => context_status_of(j@) is None,
        },
{
    let file_count = match field_i32(j, "file_count") {
        Some(v) => v,
        None => {
            return None;
        },
    };
    let total_size_kb = match field_num_raw(j, "total_size_kb") {
        Some(s) => s,
        None => {
            return None;
        },
    };
    let estimated_tokens = match field_i64(j, "estimated_tokens") {
        Some(v) => v,
        None => {
            return None;
        },
    };
    let items: &Vec<Json> = match get_field(j, "files") {
        Some(Json::Arr(items)) => items,
        _ => {
            return None;
        },
    };
    let ghost ivs = views_of(items@);
    let mut files: Vec<ContextFile> = Vec::new();
    let mut i: usize = 0;
    while i < items.len()
        invariant
            i <= items@.len(),
            files@.len() == i,
            forall|k: int| 0 <= k < i ==> context_file_of(ivs[k]) == Some(files@[k]@),
        decreases items@.len() - i,
    {
        match decode_context_file(&items[i]) {
            Some(x) => {
                files.push(x);
            },
            None => {
                proof {
                    assert(context_file_of(ivs[i as int]) is None);
                }
                return None;
            },
        }
        i = i + 1;
    }
    let r = ContextStatus { file_count, total_size_kb, estimated_tokens, files };
    proof {
        assert(all_context_files(ivs));
        assert(context_files_of(ivs) =~= r@.files);
    }
    Some(r)
}

/// The outcome of a context refresh.
pub struct RefreshResult {
    pub files_loaded: i32,
    pub total_size_kb: String,
}

/// The mathematical form of a refresh outcome.
pub struct RefreshResultV {
    pub files_loaded: i32,
    pub total_size_kb: Seq<char>,
}

impl View for RefreshResult {
    type V = RefreshResultV;

    open spec fn view(&self) -> RefreshResultV {
        RefreshResultV { files_loaded: self.files_loaded, total_size_kb: self.total_size_kb@ }
    }
}

/// What a refresh body means, when it is well-formed.
pub open spec fn refresh_result_of(j: JsonV) -> Option<RefreshResultV> {
    match (jv_field_i32(j, "files_loaded"@), jv_field_num_raw(j, "total_size_kb"@)) {
        (Some(files_loaded), Some(total_size_kb)) => Some(
            RefreshResultV { files_loaded, total_size_kb },
        ),
        _ => None,
    }
}

/// Decodes a refresh body.
pub fn decode_refresh_result(j: &Json) -> (r: Option<RefreshResult>)
    ensures
        match r {
            Some(x) => refresh_result_of(j@) == Some(x@),
            None => refresh_result_of(j@) is None,
        },
{
    let files_loaded = match field_i32(j, "files_loaded") {
        Some(v) => v,
        None => {
            return None;
        },
    };
    let total_size_kb = match field_num_raw(j, "total_size_kb") {
        Some(s) => s,
        None => {
            return None;
        },
    };
    Some(RefreshResult { files_loaded, total_size_kb })
}

/// The context bundle's size statistics. Sizes and percentages are kept as
/// the raw number tokens they were sent as.
pub struct ContextStats {
    pub total_size_kb: String,
    pub estimated_tokens: i64,
    pub realtime_kb: String,
    pub realtime_pct: String,
    pub projects_kb: String,
    pub projects_pct: String,
    pub team_kb: String,
    pub team_pct: String,
    pub activity_kb: String,
    pub activity_pct: String,
    pub team_members: Vec<String>,
}

/// The mathematical form of the size statistics.
pub struct ContextStatsV {
    pub total_size_kb: Seq<char>,
    pub estimated_tokens: i64,
    pub realtime_kb: Seq<char>,
    pub realtime_pct: Seq<char>,
    pub projects_kb: Seq<char>,
    pub projects_pct: Seq<char>,
    pub team_kb: Seq<char>,
    pub team_pct: Seq<char>,
    pub activity_kb: Seq<char>,
    pub activity_pct: Seq<char>,
    pub team_members: Seq<Seq<char>>,
}

impl View for ContextStats {
    type V = ContextStatsV;

    open spec fn view(&self) -> ContextStatsV {
        ContextStatsV {
            total_size_kb: self.total_size_kb@,
            estimated_tokens: self.estimated_tokens,
            realtime_kb: self.realtime_kb@,
            realtime_pct: self.realtime_pct@,
            projects_kb: self.projects_kb@,
            projects_pct: self.projects_pct@,
            team_kb: self.team_kb@,
            team_pct: self.team_pct@,
            activity_kb: self.activity_kb@,
            activity_pct: self.activity_pct@,
            team_members: strings_view(self.team_members@),
        }
    }
}

/// What a context-stats body means, when it is well-formed.
pub open spec fn context_stats_of(j: JsonV) -> Option<ContextStatsV> {
    match (
        jv_field_num_raw(j, "total_size_kb"@),
        jv_field_i64(j, "estimated_tokens"@),
        jv_field_num_raw(j, "realtime_kb"@),
        jv_field_num_raw(j, "realtime_pct"@),
        jv_field_num_raw(j, "projects_kb"@),
        jv_field_num_raw(j, "projects_pct"@),
        jv_field_num_raw(j, "team_kb"@),
        jv_field_num_raw(j, "team_pct"@),
        jv_field_num_raw(j, "activity_kb"@),
        jv_field_num_raw(j, "activity_pct"@),
        jv_field_strs(j, "team_members"@),
    ) {
        (
            Some(total_size_kb),
            Some(estimated_tokens),
            Some(realtime_kb),
            Some(realtime_pct),
            Some(projects_kb),
            Some(projects_pct),
            Some(team_kb),
            Some(team_pct),
            Some(activity_kb),
            Some(activity_pct),
            Some(team_members),
        ) => Some(
            ContextStatsV {
                total_size_kb,
                estimated_tokens,
                realtime_kb,
                realtime_pct,
                projects_kb,
                projects_pct,
                team_kb,
                team_pct,
                activity_kb,
                activity_pct,
                team_members,
            },
        ),
        _ => None,
    }
}

/// Decodes a context-stats body.
pub fn decode_context_stats(j: &Json) -> (r: Option<ContextStats>)
    ensures
        match r {
            Some(x) => context_stats_of(j@) == Some(x@),
            None => context_stats_of(j@) is None,
        },
{
    let total_size_kb = match field_num_raw(j, "total_size_kb") {
        Some(s) => s,
        None => {
            return None;
        },
    };
    let estimated_tokens = match field_i64(j, "estimated_tokens") {
        Some(v) => v,
        None => {
            return None;
        },
    };
    let realtime_kb = match field_num_raw(j, "realtime_kb") {
        Some(s) => s,
        None => {
            return None;
        },
    };
    let realtime_pct = match field_num_raw(j, "realtime_pct") {
        Some(s) => s,
        None => {
            return None;
        },
    };
    let projects_kb = match field_num_raw(j, "projects_kb") {
        Some(s) => s,
        None => {
            return None;
        },
    };
    let projects_pct = match field_num_raw(j, "projects_pct") {
        Some(s) => s,
        None => {
            return None;
        },
    };
    let team_kb = match field_num_raw(j, "team_kb") {
        Some(s) => s,
        None => {
            return None;
        },
    };
    let team_pct = match field_num_raw(j, "team_pct") {
        Some(s) => s,
        None => {
            return None;
        },
    };
    let activity_kb = match field_num_raw(j, "activity_kb") {
        Some(s) => s,
        None => {
            return None;
        },
    };
    let activity_pct = match field_num_raw(j, "activity_pct") {
        Some(s) => s,
        None => {
            return None;
        },
    };
    let team_members = match crate::records::field_strs(j, "team_members") {
        Some(v) => v,
        None => {
            return None;
        },
    };
    Some(
        ContextStats {
            total_size_kb,
            estimated_tokens,
            realtime_kb,
            realtime_pct,
            projects_kb,
            projects_pct,
            team_kb,
            team_pct,
            activity_kb,
            activity_pct,
            team_members,
        },
    )
}

/// A structured reflection over one or more sessions.
pub struct Reflection {
    pub what_worked: Vec<String>,
    pub what_failed: Vec<String>,
    pub learnings: Vec<String>,
    pub action_items: Vec<String>,
}

/// The mathematical form of a reflection.
pub struct ReflectionV {
    pub what_worked: Seq<Seq<char>>,
    pub what_failed: Seq<Seq<char>>,
    pub learnings: Seq<Seq<char>>,
    pub action_items: Seq<Seq<char>>,
}

impl View for Reflection {
    type V = ReflectionV;

    open spec fn view(&self) -> ReflectionV {
        ReflectionV {
            what_worked: strings_view(self.what_worked@),
            what_failed: strings_view(self.what_failed@),
            learnings: strings_view(self.learnings@),
            action_items: strings_view(self.action_items@),
        }
    }
}

/// What a reflection body means, when it is well-formed.
pub open spec fn reflection_of(j: JsonV) -> Option<ReflectionV> {
    match (
        jv_field_strs(j, "what_worked"@),
        jv_field_strs(j, "what_failed"@),
        jv_field_strs(j, "learnings"@),
        jv_field_strs(j, "action_items"@),
    ) {
        (Some(what_worked), Some(what_failed), Some(learnings), Some(action_items)) => Some(
            ReflectionV { what_worked, what_failed, learnings, action_items },
        ),
        _ => None,
    }
}

/// Decodes a reflection body.
pub fn decode_reflection(j: &Json) -> (r: Option<Reflection>)
    ensures
        match r {
            Some(x) => reflection_of(j@) == Some(x@),
            None => reflection_of(j@) is None,
        },
{
    let what_worked = match field_strs(j, "what_worked") {
        Some(v) => v,
        None => {
            return None;
        },
    };
    let what_failed = match field_strs(j, "what_failed") {
        Some(v) => v,
        None => {
            return None;
        },
    };
    let learnings = match field_strs(j, "learnings") {
        Some(v) => v,
        None => {
            return None;
        },
    };
    let action_items = match field_strs(j, "action_items") {
        Some(v) => v,
        None => {
            return None;
        },
    };
    Some(Reflection { what_worked, what_failed, learnings, action_items })
}

/// What a chat response means, when it is well-formed: both fields must be
/// present, and the reply is the `response` field.
pub open spec fn chat_reply_of(j: JsonV) -> Option<Seq<char>> {
    match (jv_field_str(j, "response"@), jv_field_str(j, "session_id"@)) {
        (Some(response), Some(session_id)) => Some(response),
        _ => None,
    }
}

/// Decodes a chat response.
pub fn decode_chat_reply(j: &Json) -> (r: Option<String>)
    ensures
        match r {
            Some(s) => chat_reply_of(j@) == Some(s@),
            None => chat_reply_of(j@) is None,
        },
{
    let response = match field_str(j, "response") {
        Some(s) => s,
        None => {
            return None;
        },
    };
    match field_str(j, "session_id") {
        Some(_) => Some(response),
        None => None,
    }
}

} // verus!
