//! Decision logic of the multi-step workflows: who the operand user is, what
//! the reflection workflow does at each step, what an interactive chat input
//! means, and the texts the workflows render.

#![verifier::loop_isolation(false)]

use vstd::prelude::*;
use vstd::string::StringExecFns;
use crate::strutil::{
    spec_dec, spec_dec_signed, spec_ascii_lower, ascii_lower, chars_of, fmt_u64, fmt_i64,
    string_from_chars, strings_view,
};
use crate::records::Reflection;
use crate::responses::ApiError;

verus! {

/// Where a resolved user identity came from.
pub enum UserSource {
    /// Given explicitly for this command.
    Explicit,
    /// Taken from the resolved configuration.
    Configured,
    /// Nobody was given or configured: the anonymous fallback identity.
    Anonymous,
}

/// A resolved user identity. The source is carried so that the anonymous
/// fallback is never mistaken for a configured identity.
pub struct ResolvedUser {
    pub email: String,
    pub source: UserSource,
}

/// The anonymous fallback identity.
pub open spec fn spec_anonymous_user() -> Seq<char> {
    "unknown@mergeworld.com"@
}

/// Resolves the operand user: an explicit value wins, then the configured
/// default, then the anonymous fallback, marked as such.
pub fn resolve_user(explicit: Option<String>, configured: Option<String>) -> (r: ResolvedUser)
    ensures
        explicit matches Some(e) ==> r.email == e && r.source is Explicit,
        explicit is None ==> match configured {
            Some(c) => r.email == c && r.source is Configured,
            None => r.email@ == spec_anonymous_user() && r.source is Anonymous,
        },
{
    match explicit {
        Some(e) => ResolvedUser { email: e, source: UserSource::Explicit },
        None => match configured {
            Some(c) => ResolvedUser { email: c, source: UserSource::Configured },
            None => ResolvedUser {
                email: "unknown@mergeworld.com".to_owned(),
                source: UserSource::Anonymous,
            },
        },
    }
}

/// Which sessions a reflection covers: the one given, or today's, to be
/// fetched.
pub enum ReflectScope {
    Given { sessions: Vec<String> },
    FetchToday,
}

/// Chooses the reflection's scope: a chosen session stands alone; without
/// one, today's sessions are fetched.
pub fn reflect_scope(chosen: Option<String>) -> (r: ReflectScope)
    ensures
        chosen matches Some(sid) ==> (r matches ReflectScope::Given { sessions } && strings_view(
            sessions@,
        ) == seq![sid@]),
        chosen is None ==> r is FetchToday,
{
    match chosen {
        Some(sid) => {
            let ghost sv = sid@;
            let mut sessions: Vec<String> = Vec::new();
            sessions.push(sid);
            proof {
                assert(strings_view(sessions@) =~= seq![sv]);
            }
            ReflectScope::Given { sessions }
        },
        None => ReflectScope::FetchToday,
    }
}

/// Whether the workflow generates at all: only when there is at least one
/// session to reflect over.
pub fn reflect_should_generate(sessions: &Vec<String>) -> (r: bool)
    ensures
        r == (sessions@.len() > 0),
{
    sessions.len() > 0
}

/// What the reflection workflow hands back: the generated content, and how
/// the save went.
pub struct ReflectReport {
    pub reflection: Reflection,
    pub saved: Result<String, ApiError>,
}

/// Closes the reflection workflow. The generated content is carried through
/// unchanged whatever the save's outcome: a failed save is reported beside
/// the content, never by withholding it.
pub fn finish_reflection(reflection: Reflection, saved: Result<String, ApiError>) -> (r:
    ReflectReport)
    ensures
        r.reflection@ == reflection@,
        r.saved == saved,
{
    ReflectReport { reflection, saved }
}

/// Bulleted lines: a dash, a space, the item, a line break, for each item in
/// order.
pub open spec fn spec_bullets(items: Seq<Seq<char>>) -> Seq<char>
    decreases items.len(),
{
    if items.len() == 0 {
        Seq::empty()
    } else {
        spec_bullets(items.drop_last()) + seq!['-', ' '] + items.last() + seq!['\n']
    }
}

/// Numbered lines: the one-based position, a dot, a space, the item, a line
/// break, for each item in order.
pub open spec fn spec_numbered(items: Seq<Seq<char>>) -> Seq<char>
    decreases items.len(),
{
    if items.len() == 0 {
        Seq::empty()
    } else {
        spec_numbered(items.drop_last()) + spec_dec(items.len() as int) + seq!['.', ' ']
            + items.last() + seq!['\n']
    }
}

/// Appends bulleted lines.
fn push_bullets(out: &mut Vec<char>, items: &Vec<String>)
    ensures
        final(out)@ == old(out)@ + spec_bullets(strings_view(items@)),
{
    let ghost views = strings_view(items@);
    let mut i: usize = 0;
    while i < items.len()
        invariant
            i <= items@.len(),
            out@ == old(out)@ + spec_bullets(views.subrange(0, i as int)),
        decreases items@.len() - i,
    {
        out.push('-');
        out.push(' ');
        let mut cs = chars_of(items[i].as_str());
        out.append(&mut cs);
        out.push('\n');
        i = i + 1;
        proof {
            let pre = views.subrange(0, i - 1);
            let ext = views.subrange(0, i as int);
            assert(ext.drop_last() =~= pre);
            assert(ext.last() == views[i - 1]);
            assert(out@ =~= old(out)@ + spec_bullets(ext));
        }
    }
    proof {
        assert(views.subrange(0, views.len() as int) =~= views);
    }
}

/// Appends numbered lines.
fn push_numbered(out: &mut Vec<char>, items: &Vec<String>)
    ensures
        final(out)@ == old(out)@ + spec_numbered(strings_view(items@)),
{
    let ghost views = strings_view(items@);
    let mut i: usize = 0;
    while i < items.len()
        invariant
            i <= items@.len(),
            out@ == old(out)@ + spec_numbered(views.subrange(0, i as int)),
        decreases items@.len() - i,
    {
        let mut num = fmt_u64((i + 1) as u64);
        out.append(&mut num);
        out.push('.');
        out.push(' ');
        let mut cs = chars_of(items[i].as_str());
        out.append(&mut cs);
        out.push('\n');
        i = i + 1;
        proof {
            let pre = views.subrange(0, i - 1);
            let ext = views.subrange(0, i as int);
            assert(ext.drop_last() =~= pre);
            assert(ext.last() == views[i - 1]);
            assert(ext.len() == i);
            assert(out@ =~= old(out)@ + spec_numbered(ext));
        }
    }
    proof {
        assert(views.subrange(0, views.len() as int) =~= views);
    }
}

/// Appends a string slice's characters.
fn push_str_chars(out: &mut Vec<char>, s: &str)
    ensures
        final(out)@ == old(out)@ + s@,
{
    let mut cs = chars_of(s);
    out.append(&mut cs);
}

/// The markdown export of a reflection: a title, the generation label, then
/// the three bulleted sections, and a numbered section of action items when
/// there are any.
pub open spec fn spec_reflection_markdown(
    r: crate::records::ReflectionV,
    generated: Seq<char>,
) -> Seq<char> {
    "# PAM Reflection\n*Generated: "@ + generated + "*\n\n## What Worked\n"@ + spec_bullets(
        r.what_worked,
    ) + "\n## What Could Be Improved\n"@ + spec_bullets(r.what_failed) + "\n## Key Learnings\n"@
        + spec_bullets(r.learnings) + (if r.action_items.len() > 0 {
        "\n## Action Items\n"@ + spec_numbered(r.action_items)
    } else {
        Seq::<char>::empty()
    })
}

/// Renders the markdown export of a reflection; `generated` labels when it
/// was generated.
pub fn render_reflection_markdown(reflection: &Reflection, generated: &str) -> (r: String)
    ensures
        r@ == spec_reflection_markdown(reflection@, generated@),
{
    let mut out: Vec<char> = Vec::new();
    push_str_chars(&mut out, "# PAM Reflection\n*Generated: ");
    push_str_chars(&mut out, generated);
    push_str_chars(&mut out, "*\n\n## What Worked\n");
    push_bullets(&mut out, &reflection.what_worked);
    push_str_chars(&mut out, "\n## What Could Be Improved\n");
    push_bullets(&mut out, &reflection.what_failed);
    push_str_chars(&mut out, "\n## Key Learnings\n");
    push_bullets(&mut out, &reflection.learnings);
    if reflection.action_items.len() > 0 {
        push_str_chars(&mut out, "\n## Action Items\n");
        push_numbered(&mut out, &reflection.action_items);
    }
    proof {
        assert(out@ =~= spec_reflection_markdown(reflection@, generated@));
    }
    string_from_chars(&out)
}

/// The first position at or after `pos` that does not hold ASCII whitespace.
pub open spec fn skip_ws_start(s: Seq<char>, pos: int) -> int
    decreases s.len() - pos,
{
    if 0 <= pos < s.len() && is_ascii_ws(s[pos]) {
        skip_ws_start(s, pos + 1)
    } else {
        pos
    }
}

/// The position after the last non-whitespace character at or before `end`.
pub open spec fn skip_ws_end(s: Seq<char>, end: int) -> int
    decreases end,
{
    if 0 < end <= s.len() && is_ascii_ws(s[end - 1]) {
        skip_ws_end(s, end - 1)
    } else {
        end
    }
}

/// ASCII whitespace, as the interactive prompt strips it.
pub open spec fn is_ascii_ws(c: char) -> bool {
    c == ' ' || c == '\t' || c == '\n' || c == '\r'
}

/// The text with ASCII whitespace stripped from both ends.
pub open spec fn spec_trim(s: Seq<char>) -> Seq<char> {
    let a = skip_ws_start(s, 0);
    let b = skip_ws_end(s, s.len() as int);
    if a <= b {
        s.subrange(a, b)
    } else {
        Seq::empty()
    }
}

/// Strips ASCII whitespace from both ends.
pub fn trim_chars(s: &Vec<char>) -> (r: Vec<char>)
    ensures
        r@ == spec_trim(s@),
{
    let mut a: usize = 0;
    while a < s.len() && (s[a] == ' ' || s[a] == '\t' || s[a] == '\n' || s[a] == '\r')
        invariant
            a <= s@.len(),
            skip_ws_start(s@, 0) == skip_ws_start(s@, a as int),
        decreases s@.len() - a,
    {
        a = a + 1;
    }
    let mut b: usize = s.len();
    while b > 0 && (s[b - 1] == ' ' || s[b - 1] == '\t' || s[b - 1] == '\n' || s[b - 1] == '\r')
        invariant
            b <= s@.len(),
            skip_ws_end(s@, s@.len() as int) == skip_ws_end(s@, b as int),
        decreases b,
    {
        b = b - 1;
    }
    if a <= b {
        let mut out: Vec<char> = Vec::new();
        let mut i: usize = a;
        while i < b
            invariant
                a <= i <= b <= s@.len(),
                out@ == s@.subrange(a as int, i as int),
            decreases b - i,
        {
            out.push(s[i]);
            i = i + 1;
            proof {
                assert(out@ =~= s@.subrange(a as int, i as int));
            }
        }
        out
    } else {
        let out: Vec<char> = Vec::new();
        proof {
            assert(out@ =~= Seq::<char>::empty());
        }
        out
    }
}

/// What one interactive input asks for.
pub enum ChatAction {
    /// End the session.
    Quit,
    /// Start a new session.
    NewSession,
    /// Show the command summary.
    ShowHelp,
    /// Generate a reflection over the running session.
    GenerateReflection,
    /// Show the running session and user.
    ShowStatus,
    /// Nothing: the input was empty.
    Ignore,
    /// Send the trimmed input as a message.
    Send,
}

/// What an input means: its trimmed, ASCII-lower-cased form selects a
/// command; an empty input is nothing; everything else is a message.
pub open spec fn spec_chat_action(input: Seq<char>) -> ChatAction {
    let t = spec_trim(input);
    let l = spec_ascii_lower(t);
    if l == "quit"@ || l == "exit"@ || l == "q"@ {
        ChatAction::Quit
    } else if l == "clear"@ {
        ChatAction::NewSession
    } else if l == "help"@ {
        ChatAction::ShowHelp
    } else if l == "/reflect"@ {
        ChatAction::GenerateReflection
    } else if l == "/status"@ {
        ChatAction::ShowStatus
    } else if t.len() == 0 {
        ChatAction::Ignore
    } else {
        ChatAction::Send
    }
}

/// Compares a character vector against a string slice.
pub fn chars_eq_str(v: &Vec<char>, s: &str) -> (r: bool)
    ensures
        r == (v@ == s@),
{
    let cs = chars_of(s);
    if v.len() != cs.len() {
        proof {
            assert(v@.len() != s@.len());
        }
        return false;
    }
    let mut i: usize = 0;
    while i < v.len()
        invariant
            i <= v@.len(),
            v@.len() == s@.len(),
            cs@ == s@,
            forall|j: int| 0 <= j < i ==> v@[j] == s@[j],
        decreases v@.len() - i,
    {
        if v[i] != cs[i] {
            return false;
        }
        i = i + 1;
    }
    proof {
        assert(v@ =~= s@);
    }
    true
}

/// Reads one interactive input: the action it selects, and its trimmed form
/// (the message, when the action is to send one).
pub fn chat_input_action(input: &str) -> (r: (ChatAction, String))
    ensures
        r.0 == spec_chat_action(input@),
        r.1@ == spec_trim(input@),
{
    let cs = chars_of(input);
    let trimmed = trim_chars(&cs);
    let lower = ascii_lower(&trimmed);
    let action: ChatAction = if chars_eq_str(&lower, "quit") || chars_eq_str(&lower, "exit")
        || chars_eq_str(&lower, "q") {
        ChatAction::Quit
    } else if chars_eq_str(&lower, "clear") {
        ChatAction::NewSession
    } else if chars_eq_str(&lower, "help") {
        ChatAction::ShowHelp
    } else if chars_eq_str(&lower, "/reflect") {
        ChatAction::GenerateReflection
    } else if chars_eq_str(&lower, "/status") {
        ChatAction::ShowStatus
    } else if trimmed.len() == 0 {
        ChatAction::Ignore
    } else {
        ChatAction::Send
    };
    (action, string_from_chars(&trimmed))
}

/// Division truncated toward zero, the way a duration's whole minutes or
/// hours are counted.
pub open spec fn tdiv(x: int, d: int) -> int {
    if x >= 0 {
        x / d
    } else {
        -((-x) / d)
    }
}

/// The age label of a listed memory, from its age in seconds: whole minutes
/// under an hour, whole hours under a day, whole days otherwise.
pub open spec fn spec_age_label(age_seconds: i64) -> Seq<char> {
    if tdiv(age_seconds as int, 3600) < 1 {
        spec_dec_signed(tdiv(age_seconds as int, 60)) + "m ago"@
    } else if tdiv(age_seconds as int, 86400) < 1 {
        spec_dec_signed(tdiv(age_seconds as int, 3600)) + "h ago"@
    } else {
        spec_dec_signed(tdiv(age_seconds as int, 86400)) + "d ago"@
    }
}

/// Appends a count that may carry a minus sign.
fn push_signed(out: &mut Vec<char>, neg: bool, mag: u64)
    ensures
        final(out)@ == old(out)@ + spec_dec_signed(if neg { -(mag as int) } else { mag as int }),
{
    if neg && mag > 0 {
        out.push('-');
    }
    let mut num = fmt_u64(mag);
    out.append(&mut num);
    proof {
        assert(out@ =~= old(out)@ + spec_dec_signed(
            if neg { -(mag as int) } else { mag as int },
        ));
    }
}

/// Renders the age label of a listed memory.
pub fn age_label(age_seconds: i64) -> (r: String)
    ensures
        r@ == spec_age_label(age_seconds),
{
    let neg = age_seconds < 0;
    let mag: u64 = if neg {
        ((-(age_seconds + 1)) as u64) + 1
    } else {
        age_seconds as u64
    };
    let mut out: Vec<char> = Vec::new();
    let hours_zero = if neg {
        true
    } else {
        mag / 3600 == 0
    };
    if hours_zero {
        push_signed(&mut out, neg, mag / 60);
        push_str_chars(&mut out, "m ago");
    } else if mag / 86400 == 0 {
        push_signed(&mut out, neg, mag / 3600);
        push_str_chars(&mut out, "h ago");
    } else {
        push_signed(&mut out, neg, mag / 86400);
        push_str_chars(&mut out, "d ago");
    }
    proof {
        assert(out@ =~= spec_age_label(age_seconds));
    }
    string_from_chars(&out)
}

} // verus!
