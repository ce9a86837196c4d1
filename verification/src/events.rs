//! Application event model: the closed set of session-monitor events
//! carried as JSON payloads over MQTT, a lenient field-scoped extractor
//! for them, and a fixed-capacity circular queue that holds them for the
//! display layer.
//!
//! Topics of the protocol: `ccr/events` for display events,
//! `ccr/permissions/request` for permission requests, and
//! `ccr/permissions/response` outbound.

use vstd::prelude::*;

use crate::text::{
    find_sub, first_at, push_char, spec_find, spec_first_at, spec_is_json_ws, spec_skip_ws,
    spec_truncate, str_eq, truncate,
};
use vstd::pervasive::VecAdditionalExecFns;

verus! {

/// Maximum events the queue holds.
pub const MAX_EVENTS: usize = 64;

/// Maximum characters kept per string field.
pub const MAX_TEXT_LEN: usize = 200;

/// Events of the session-monitor protocol, parsed from JSON payloads.
#[derive(Clone, Debug)]
pub enum CcrEvent {
    /// Session started.
    SessionStart { session_id: String, source: String, model: String },
    /// Session ended.
    SessionEnd { session_id: String, reason: String },
    /// The assistant stopped responding.
    Stop { session_id: String },
    /// User input or prompt.
    UserInput { text: String, session_id: String },
    /// Tool call.
    ToolCall { id: String, tool: String, args: String, session_id: String },
    /// Tool result or output.
    ToolResult { id: String, output: String, session_id: String },
    /// Permission request pending user approval.
    PermissionPending { request_id: String, tool: String, command: String, session_id: String },
    /// Permission resolved, with decision "allow" or "deny".
    PermissionResolved { request_id: String, decision: String, session_id: String },
    /// Permission timed out.
    PermissionTimeout { request_id: String, session_id: String },
    /// Notification.
    Notification { notification_type: String, message: String, session_id: String },
    /// Connection status (internal).
    Status { connected: bool, message: String },
}

/// The mathematical shape of an event.
#[verifier::ext_equal]
pub enum CcrEventModel {
    SessionStart { session_id: Seq<char>, source: Seq<char>, model: Seq<char> },
    SessionEnd { session_id: Seq<char>, reason: Seq<char> },
    Stop { session_id: Seq<char> },
    UserInput { text: Seq<char>, session_id: Seq<char> },
    ToolCall { id: Seq<char>, tool: Seq<char>, args: Seq<char>, session_id: Seq<char> },
    ToolResult { id: Seq<char>, output: Seq<char>, session_id: Seq<char> },
    PermissionPending {
        request_id: Seq<char>,
        tool: Seq<char>,
        command: Seq<char>,
        session_id: Seq<char>,
    },
    PermissionResolved { request_id: Seq<char>, decision: Seq<char>, session_id: Seq<char> },
    PermissionTimeout { request_id: Seq<char>, session_id: Seq<char> },
    Notification { notification_type: Seq<char>, message: Seq<char>, session_id: Seq<char> },
    Status { connected: bool, message: Seq<char> },
}

impl View for CcrEvent {
    type V = CcrEventModel;

    open spec fn view(&self) -> CcrEventModel {
        match self {
            CcrEvent::SessionStart { session_id, source, model } => CcrEventModel::SessionStart {
                session_id: session_id@,
                source: source@,
                model: model@,
            },
            CcrEvent::SessionEnd { session_id, reason } => CcrEventModel::SessionEnd {
                session_id: session_id@,
                reason: reason@,
            },
            CcrEvent::Stop { session_id } => CcrEventModel::Stop { session_id: session_id@ },
            CcrEvent::UserInput { text, session_id } => CcrEventModel::UserInput {
                text: text@,
                session_id: session_id@,
            },
            CcrEvent::ToolCall { id, tool, args, session_id } => CcrEventModel::ToolCall {
                id: id@,
                tool: tool@,
                args: args@,
                session_id: session_id@,
            },
            CcrEvent::ToolResult { id, output, session_id } => CcrEventModel::ToolResult {
                id: id@,
                output: output@,
                session_id: session_id@,
            },
            CcrEvent::PermissionPending { request_id, tool, command, session_id } => {
                CcrEventModel::PermissionPending {
                    request_id: request_id@,
                    tool: tool@,
                    command: command@,
                    session_id: session_id@,
                }
            },
            CcrEvent::PermissionResolved { request_id, decision, session_id } => {
                CcrEventModel::PermissionResolved {
                    request_id: request_id@,
                    decision: decision@,
                    session_id: session_id@,
                }
            },
            CcrEvent::PermissionTimeout { request_id, session_id } => {
                CcrEventModel::PermissionTimeout {
                    request_id: request_id@,
                    session_id: session_id@,
                }
            },
            CcrEvent::Notification { notification_type, message, session_id } => {
                CcrEventModel::Notification {
                    notification_type: notification_type@,
                    message: message@,
                    session_id: session_id@,
                }
            },
            CcrEvent::Status { connected, message } => CcrEventModel::Status {
                connected: *connected,
                message: message@,
            },
        }
    }
}

// ===========================================================================
// Field-scoped JSON string extraction
// ===========================================================================

/// One unescaped JSON escape pair: the listed short escapes map to their
/// character, any other escaped character keeps its backslash.
pub open spec fn spec_escape_pair(c: char) -> Seq<char> {
    if c == 'n' {
        seq!['\n']
    } else if c == 'r' {
        seq!['\r']
    } else if c == 't' {
        seq!['\t']
    } else if c == '"' {
        seq!['"']
    } else if c == '\\' {
        seq!['\\']
    } else if c == '/' {
        seq!['/']
    } else {
        seq!['\\', c]
    }
}

/// Basic JSON string unescaping; a trailing lone backslash stays.
pub open spec fn spec_unescape(s: Seq<char>) -> Seq<char>
    decreases s.len(),
{
    if s.len() == 0 {
        Seq::<char>::empty()
    } else if s[0] == '\\' {
        if s.len() == 1 {
            seq!['\\']
        } else {
            spec_escape_pair(s[1]) + spec_unescape(s.skip(2))
        }
    } else {
        seq![s[0]] + spec_unescape(s.skip(1))
    }
}

/// The pattern that introduces the value of `key`: `"key":`.
pub open spec fn spec_key_pattern(key: Seq<char>) -> Seq<char> {
    seq!['"'] + key + seq!['"', ':']
}

/// The string value of `key` in `text`, found by the first occurrence of
/// `"key":`, skipping JSON whitespace, and reading up to the next quote;
/// the value is cut to [`MAX_TEXT_LEN`] characters and unescaped.  `None`
/// when the key is absent, its value is not a string, or the closing
/// quote is missing.
pub open spec fn spec_json_string_value(text: Seq<char>, key: Seq<char>) -> Option<Seq<char>> {
    let pat = spec_key_pattern(key);
    match spec_find(text, pat) {
        None => None,
        Some(i) => {
            let trimmed = spec_skip_ws(text.skip(i + pat.len()));
            if trimmed.len() > 0 && trimmed[0] == '"' {
                match spec_first_at(trimmed, '"', 1) {
                    None => None,
                    Some(e) => {
                        let value = trimmed.subrange(1, e);
                        let cut = if value.len() > MAX_TEXT_LEN {
                            value.take(MAX_TEXT_LEN as int)
                        } else {
                            value
                        };
                        Some(spec_unescape(cut))
                    },
                }
            } else {
                None
            }
        },
    }
}

/// The value of `key`, or the empty string when it is absent.
pub open spec fn spec_json_field_or_empty(text: Seq<char>, key: Seq<char>) -> Seq<char> {
    match spec_json_string_value(text, key) {
        Some(v) => v,
        None => Seq::<char>::empty(),
    }
}

/// Whether `c` is JSON whitespace.
fn is_json_ws(c: char) -> (r: bool)
    ensures
        r == spec_is_json_ws(c),
{
    c == ' ' || c == '\t' || c == '\n' || c == '\r'
}

/// Finding a character in a suffix is finding it after the cut.
proof fn lemma_first_at_shift(s: Seq<char>, c: char, k: int, from: int)
    requires
        0 <= k <= s.len(),
        0 <= from,
    ensures
        spec_first_at(s.skip(k), c, from) == (match spec_first_at(s, c, k + from) {
            Some(j) => Some(j - k),
            None => None,
        }),
    decreases s.len() - (k + from),
{
    if k + from >= s.len() {
    } else {
        assert(s.skip(k)[from] == s[k + from]);
        if s[k + from] == c {
        } else {
            lemma_first_at_shift(s, c, k, from + 1);
        }
    }
}

/// Basic JSON string unescaping.
fn unescape_json(s: &str) -> (r: String)
    ensures
        r@ == spec_unescape(s@),
{
    let n = s.unicode_len();
    let mut result = String::new();
    let mut i: usize = 0;
    assert(s@.skip(0) =~= s@);
    while i < n
        invariant
            n == s@.len(),
            i <= n,
            result@ + spec_unescape(s@.skip(i as int)) == spec_unescape(s@),
        decreases n - i,
    {
        let c = s.get_char(i);
        let ghost rem = s@.skip(i as int);
        let ghost before = result@;
        assert(rem[0] == s@[i as int]);
        if c == '\\' {
            if i + 1 < n {
                let next = s.get_char(i + 1);
                assert(rem[1] == s@[i + 1]);
                if next == 'n' {
                    push_char(&mut result, '\n');
                } else if next == 'r' {
                    push_char(&mut result, '\r');
                } else if next == 't' {
                    push_char(&mut result, '\t');
                } else if next == '"' {
                    push_char(&mut result, '"');
                } else if next == '\\' {
                    push_char(&mut result, '\\');
                } else if next == '/' {
                    push_char(&mut result, '/');
                } else {
                    push_char(&mut result, '\\');
                    push_char(&mut result, next);
                }
                proof {
                    assert(rem.skip(2) =~= s@.skip(i + 2));
                    assert(result@ =~= before + spec_escape_pair(s@[i + 1]));
                    assert(result@ + spec_unescape(s@.skip(i + 2)) =~= spec_unescape(s@));
                }
                i = i + 2;
            } else {
                push_char(&mut result, '\\');
                proof {
                    assert(rem.len() == 1);
                    assert(result@ + spec_unescape(s@.skip(i + 1)) =~= spec_unescape(s@));
                }
                i = i + 1;
            }
        } else {
            push_char(&mut result, c);
            proof {
                assert(rem.skip(1) =~= s@.skip(i + 1));
                assert(result@ + spec_unescape(s@.skip(i + 1)) =~= spec_unescape(s@));
            }
            i = i + 1;
        }
    }
    assert(s@.skip(n as int) =~= Seq::<char>::empty());
    assert(result@ =~= spec_unescape(s@));
    result
}

/// Extract the string value of `key` from `text`, as
/// `spec_json_string_value` describes.
fn get_json_string(text: &str, key: &str) -> (r: Option<String>)
    ensures
        r matches Some(v) ==> spec_json_string_value(text@, key@) == Some(v@),
        r is None ==> spec_json_string_value(text@, key@) is None,
{
    // The pattern `"key":`
    let mut pat = String::new();
    push_char(&mut pat, '"');
    pat.append(key);
    pat.append("\":");
    proof {
        reveal_strlit("\":");
        assert(pat@ =~= spec_key_pattern(key@));
    }
    let patlen = pat.as_str().unicode_len();
    let tlen = text.unicode_len();

    let i = match find_sub(text, pat.as_str()) {
        Some(i) => i,
        None => {
            return None;
        },
    };
    assert(i + patlen <= tlen);
    let after = i + patlen;

    // Skip JSON whitespace.
    let mut k: usize = after;
    while k < tlen && is_json_ws(text.get_char(k))
        invariant
            tlen == text@.len(),
            after <= k <= tlen,
            forall|m: int| after <= m < k ==> spec_is_json_ws(#[trigger] text@[m]),
        decreases tlen - k,
    {
        k = k + 1;
    }
    proof {
        let suffix = text@.skip(after as int);
        assert forall|m: int| 0 <= m < k - after implies spec_is_json_ws(#[trigger] suffix[m]) by {
            assert(suffix[m] == text@[after + m]);
        }
        if (k as int) < tlen {
            assert(suffix[k - after] == text@[k as int]);
        }
        crate::text::lemma_skip_ws_index(suffix, k - after);
        assert(suffix.skip(k - after) =~= text@.skip(k as int));
    }
    let ghost trimmed = spec_skip_ws(text@.skip(after as int));
    assert(trimmed == text@.skip(k as int));

    if k < tlen && text.get_char(k) == '"' {
        assert(trimmed[0] == text@[k as int]);
        match first_at(text, '"', k + 1) {
            None => {
                proof {
                    lemma_first_at_shift(text@, '"', k as int, 1);
                }
                None
            },
            Some(e) => {
                proof {
                    lemma_first_at_shift(text@, '"', k as int, 1);
                    crate::text::lemma_first_at_bounds(text@, '"', k + 1);
                }
                assert(k + 1 <= e < tlen);
                assert(spec_first_at(trimmed, '"', 1) == Some(e - k as int));
                let ghost value = trimmed.subrange(1, e - k as int);
                assert(value =~= text@.subrange(k + 1, e as int));
                let value_str: &str = if e - (k + 1) > MAX_TEXT_LEN {
                    text.substring_char(k + 1, k + 1 + MAX_TEXT_LEN)
                } else {
                    text.substring_char(k + 1, e)
                };
                proof {
                    if value.len() > MAX_TEXT_LEN {
                        assert(value_str@ =~= value.take(MAX_TEXT_LEN as int));
                    } else {
                        assert(value_str@ =~= value);
                    }
                }
                Some(unescape_json(value_str))
            },
        }
    } else {
        None
    }
}

/// The string value of `key`, or an empty string when it is absent.
fn json_field_or_empty(text: &str, key: &str) -> (r: String)
    ensures
        r@ == spec_json_field_or_empty(text@, key@),
{
    match get_json_string(text, key) {
        Some(v) => v,
        None => String::new(),
    }
}

// ===========================================================================
// Parsing payloads into events
// ===========================================================================

/// The event a display-topic payload parses to: its `type` field selects
/// the variant, every other field defaults to the empty string when
/// absent; an unknown type is no event.
pub open spec fn spec_from_json(text: Seq<char>) -> Option<CcrEventModel> {
    match spec_json_string_value(text, "type"@) {
        None => None,
        Some(t) => {
            if t == "session_start"@ {
                Some(
                    CcrEventModel::SessionStart {
                        session_id: spec_json_field_or_empty(text, "session_id"@),
                        source: spec_json_field_or_empty(text, "source"@),
                        model: spec_json_field_or_empty(text, "model"@),
                    },
                )
            } else if t == "session_end"@ {
                Some(
                    CcrEventModel::SessionEnd {
                        session_id: spec_json_field_or_empty(text, "session_id"@),
                        reason: spec_json_field_or_empty(text, "reason"@),
                    },
                )
            } else if t == "stop"@ {
                Some(
                    CcrEventModel::Stop {
                        session_id: spec_json_field_or_empty(text, "session_id"@),
                    },
                )
            } else if t == "user_input"@ {
                Some(
                    CcrEventModel::UserInput {
                        text: spec_json_field_or_empty(text, "text"@),
                        session_id: spec_json_field_or_empty(text, "session_id"@),
                    },
                )
            } else if t == "tool_call"@ {
                Some(
                    CcrEventModel::ToolCall {
                        id: spec_json_field_or_empty(text, "id"@),
                        tool: spec_json_field_or_empty(text, "tool"@),
                        args: spec_json_field_or_empty(text, "args"@),
                        session_id: spec_json_field_or_empty(text, "session_id"@),
                    },
                )
            } else if t == "tool_result"@ {
                Some(
                    CcrEventModel::ToolResult {
                        id: spec_json_field_or_empty(text, "id"@),
                        output: spec_json_field_or_empty(text, "output"@),
                        session_id: spec_json_field_or_empty(text, "session_id"@),
                    },
                )
            } else if t == "permission_pending"@ {
                Some(
                    CcrEventModel::PermissionPending {
                        request_id: spec_json_field_or_empty(text, "request_id"@),
                        tool: spec_json_field_or_empty(text, "tool"@),
                        command: spec_json_field_or_empty(text, "command"@),
                        session_id: spec_json_field_or_empty(text, "session_id"@),
                    },
                )
            } else if t == "permission_resolved"@ {
                Some(
                    CcrEventModel::PermissionResolved {
                        request_id: spec_json_field_or_empty(text, "request_id"@),
                        decision: spec_json_field_or_empty(text, "decision"@),
                        session_id: spec_json_field_or_empty(text, "session_id"@),
                    },
                )
            } else if t == "permission_timeout"@ {
                Some(
                    CcrEventModel::PermissionTimeout {
                        request_id: spec_json_field_or_empty(text, "request_id"@),
                        session_id: spec_json_field_or_empty(text, "session_id"@),
                    },
                )
            } else if t == "notification"@ {
                Some(
                    CcrEventModel::Notification {
                        notification_type: spec_json_field_or_empty(text, "notification_type"@),
                        message: spec_json_field_or_empty(text, "message"@),
                        session_id: spec_json_field_or_empty(text, "session_id"@),
                    },
                )
            } else {
                None
            }
        },
    }
}

/// The event a permission-request-topic payload parses to: only the type
/// `permission_request` yields one, a `PermissionPending`.
pub open spec fn spec_from_permission_request(text: Seq<char>) -> Option<CcrEventModel> {
    match spec_json_string_value(text, "type"@) {
        None => None,
        Some(t) => {
            if t == "permission_request"@ {
                Some(
                    CcrEventModel::PermissionPending {
                        request_id: spec_json_field_or_empty(text, "request_id"@),
                        tool: spec_json_field_or_empty(text, "tool"@),
                        command: spec_json_field_or_empty(text, "command"@),
                        session_id: spec_json_field_or_empty(text, "session_id"@),
                    },
                )
            } else {
                None
            }
        },
    }
}

/// The request identifier carried by a permission event.
pub open spec fn spec_request_id(e: CcrEventModel) -> Option<Seq<char>> {
    match e {
        CcrEventModel::PermissionPending { request_id, .. } => Some(request_id),
        CcrEventModel::PermissionResolved { request_id, .. } => Some(request_id),
        CcrEventModel::PermissionTimeout { request_id, .. } => Some(request_id),
        _ => None,
    }
}

/// The tool name carried by a tool or permission event.
pub open spec fn spec_tool_name(e: CcrEventModel) -> Option<Seq<char>> {
    match e {
        CcrEventModel::ToolCall { tool, .. } => Some(tool),
        CcrEventModel::PermissionPending { tool, .. } => Some(tool),
        _ => None,
    }
}

/// The display glyph of an event, with a sub-dispatch on the tool name
/// for tool calls.
pub open spec fn spec_icon(e: CcrEventModel) -> char {
    match e {
        CcrEventModel::SessionStart { .. } => '\u{25b6}',
        CcrEventModel::SessionEnd { .. } => '\u{25a0}',
        CcrEventModel::Stop { .. } => '\u{23f8}',
        CcrEventModel::UserInput { .. } => '?',
        CcrEventModel::ToolCall { tool, .. } => {
            if tool == "Bash"@ {
                '$'
            } else if tool == "Read"@ {
                'R'
            } else if tool == "Write"@ || tool == "Edit"@ {
                'W'
            } else if tool == "Grep"@ || tool == "Glob"@ {
                'S'
            } else if tool == "Task"@ {
                'T'
            } else {
                '*'
            }
        },
        CcrEventModel::ToolResult { .. } => '\u{2192}',
        CcrEventModel::PermissionPending { .. } => '!',
        CcrEventModel::PermissionResolved { decision, .. } => {
            if decision == "allow"@ {
                '\u{2713}'
            } else {
                '\u{2717}'
            }
        },
        CcrEventModel::PermissionTimeout { .. } => '\u{23f1}',
        CcrEventModel::Notification { .. } => '\u{1f514}',
        CcrEventModel::Status { connected, .. } => {
            if connected {
                '\u{25cf}'
            } else {
                '\u{25cb}'
            }
        },
    }
}

/// The one-line description of an event for the list view.
pub open spec fn spec_summary(e: CcrEventModel) -> Seq<char> {
    match e {
        CcrEventModel::SessionStart { source, .. } => "Session "@ + source,
        CcrEventModel::SessionEnd { reason, .. } => "End: "@ + reason,
        CcrEventModel::Stop { .. } => "Stopped"@,
        CcrEventModel::UserInput { text, .. } => spec_truncate(text, 35),
        CcrEventModel::ToolCall { tool, args, .. } => tool + ": "@ + spec_truncate(args, 25),
        CcrEventModel::ToolResult { output, .. } => spec_truncate(output, 35),
        CcrEventModel::PermissionPending { tool, command, .. } => tool + ": "@ + spec_truncate(
            command,
            20,
        ),
        CcrEventModel::PermissionResolved { decision, .. } => "Permission "@ + decision,
        CcrEventModel::PermissionTimeout { .. } => "Permission timeout"@,
        CcrEventModel::Notification { message, .. } => spec_truncate(message, 35),
        CcrEventModel::Status { message, .. } => spec_truncate(message, 35),
    }
}

impl CcrEvent {
    /// Parse an event from a display-topic JSON payload, as
    /// `spec_from_json` describes.
    pub fn from_json(text: &str) -> (r: Option<Self>)
        ensures
            r matches Some(e) ==> spec_from_json(text@) == Some(e@),
            r is None ==> spec_from_json(text@) is None,
    {
        let event_type = match get_json_string(text, "type") {
            Some(t) => t,
            None => {
                return None;
            },
        };
        let t = event_type.as_str();

        if str_eq(t, "session_start") {
            Some(
                CcrEvent::SessionStart {
                    session_id: json_field_or_empty(text, "session_id"),
                    source: json_field_or_empty(text, "source"),
                    model: json_field_or_empty(text, "model"),
                },
            )
        } else if str_eq(t, "session_end") {
            Some(
                CcrEvent::SessionEnd {
                    session_id: json_field_or_empty(text, "session_id"),
                    reason: json_field_or_empty(text, "reason"),
                },
            )
        } else if str_eq(t, "stop") {
            Some(CcrEvent::Stop { session_id: json_field_or_empty(text, "session_id") })
        } else if str_eq(t, "user_input") {
            Some(
                CcrEvent::UserInput {
                    text: json_field_or_empty(text, "text"),
                    session_id: json_field_or_empty(text, "session_id"),
                },
            )
        } else if str_eq(t, "tool_call") {
            Some(
                CcrEvent::ToolCall {
                    id: json_field_or_empty(text, "id"),
                    tool: json_field_or_empty(text, "tool"),
                    args: json_field_or_empty(text, "args"),
                    session_id: json_field_or_empty(text, "session_id"),
                },
            )
        } else if str_eq(t, "tool_result") {
            Some(
                CcrEvent::ToolResult {
                    id: json_field_or_empty(text, "id"),
                    output: json_field_or_empty(text, "output"),
                    session_id: json_field_or_empty(text, "session_id"),
                },
            )
        } else if str_eq(t, "permission_pending") {
            Some(
                CcrEvent::PermissionPending {
                    request_id: json_field_or_empty(text, "request_id"),
                    tool: json_field_or_empty(text, "tool"),
                    command: json_field_or_empty(text, "command"),
                    session_id: json_field_or_empty(text, "session_id"),
                },
            )
        } else if str_eq(t, "permission_resolved") {
            Some(
                CcrEvent::PermissionResolved {
                    request_id: json_field_or_empty(text, "request_id"),
                    decision: json_field_or_empty(text, "decision"),
                    session_id: json_field_or_empty(text, "session_id"),
                },
            )
        } else if str_eq(t, "permission_timeout") {
            Some(
                CcrEvent::PermissionTimeout {
                    request_id: json_field_or_empty(text, "request_id"),
                    session_id: json_field_or_empty(text, "session_id"),
                },
            )
        } else if str_eq(t, "notification") {
            Some(
                CcrEvent::Notification {
                    notification_type: json_field_or_empty(text, "notification_type"),
                    message: json_field_or_empty(text, "message"),
                    session_id: json_field_or_empty(text, "session_id"),
                },
            )
        } else {
            None
        }
    }

    /// Parse a permission request from a permission-request-topic payload,
    /// as `spec_from_permission_request` describes.
    pub fn from_permission_request(text: &str) -> (r: Option<Self>)
        ensures
            r matches Some(e) ==> spec_from_permission_request(text@) == Some(e@),
            r is None ==> spec_from_permission_request(text@) is None,
    {
        let event_type = match get_json_string(text, "type") {
            Some(t) => t,
            None => {
                return None;
            },
        };
        if !str_eq(event_type.as_str(), "permission_request") {
            return None;
        }
        Some(
            CcrEvent::PermissionPending {
                request_id: json_field_or_empty(text, "request_id"),
                tool: json_field_or_empty(text, "tool"),
                command: json_field_or_empty(text, "command"),
                session_id: json_field_or_empty(text, "session_id"),
            },
        )
    }

    /// Whether this event is a pending permission request.
    pub fn is_permission_pending(&self) -> (r: bool)
        ensures
            r == (self@ is PermissionPending),
    {
        matches!(self, CcrEvent::PermissionPending { .. })
    }

    /// The request identifier, for permission events.
    pub fn request_id(&self) -> (r: Option<&str>)
        ensures
            r matches Some(s) ==> spec_request_id(self@) == Some(s@),
            r is None ==> spec_request_id(self@) is None,
    {
        match self {
            CcrEvent::PermissionPending { request_id, .. } => Some(request_id.as_str()),
            CcrEvent::PermissionResolved { request_id, .. } => Some(request_id.as_str()),
            CcrEvent::PermissionTimeout { request_id, .. } => Some(request_id.as_str()),
            _ => None,
        }
    }

    /// The tool name, for tool and permission events.
    pub fn tool_name(&self) -> (r: Option<&str>)
        ensures
            r matches Some(s) ==> spec_tool_name(self@) == Some(s@),
            r is None ==> spec_tool_name(self@) is None,
    {
        match self {
            CcrEvent::ToolCall { tool, .. } => Some(tool.as_str()),
            CcrEvent::PermissionPending { tool, .. } => Some(tool.as_str()),
            _ => None,
        }
    }

    /// The display glyph of this event.
    pub fn icon(&self) -> (r: char)
        ensures
            r == spec_icon(self@),
    {
        match self {
            CcrEvent::SessionStart { .. } => '\u{25b6}',
            CcrEvent::SessionEnd { .. } => '\u{25a0}',
            CcrEvent::Stop { .. } => '\u{23f8}',
            CcrEvent::UserInput { .. } => '?',
            CcrEvent::ToolCall { tool, .. } => {
                let t = tool.as_str();
                if str_eq(t, "Bash") {
                    '$'
                } else if str_eq(t, "Read") {
                    'R'
                } else if str_eq(t, "Write") || str_eq(t, "Edit") {
                    'W'
                } else if str_eq(t, "Grep") || str_eq(t, "Glob") {
                    'S'
                } else if str_eq(t, "Task") {
                    'T'
                } else {
                    '*'
                }
            },
            CcrEvent::ToolResult { .. } => '\u{2192}',
            CcrEvent::PermissionPending { .. } => '!',
            CcrEvent::PermissionResolved { decision, .. } => {
                if str_eq(decision.as_str(), "allow") {
                    '\u{2713}'
                } else {
                    '\u{2717}'
                }
            },
            CcrEvent::PermissionTimeout { .. } => '\u{23f1}',
            CcrEvent::Notification { .. } => '\u{1f514}',
            CcrEvent::Status { connected, .. } => {
                if *connected {
                    '\u{25cf}'
                } else {
                    '\u{25cb}'
                }
            },
        }
    }

    /// The one-line description of this event for the list view.
    pub fn summary(&self) -> (r: String)
        ensures
            r@ == spec_summary(self@),
    {
        match self {
            CcrEvent::SessionStart { source, .. } => {
                let mut r = "Session ".to_owned();
                r.append(source.as_str());
                r
            },
            CcrEvent::SessionEnd { reason, .. } => {
                let mut r = "End: ".to_owned();
                r.append(reason.as_str());
                r
            },
            CcrEvent::Stop { .. } => "Stopped".to_owned(),
            CcrEvent::UserInput { text, .. } => truncate(text.as_str(), 35),
            CcrEvent::ToolCall { tool, args, .. } => {
                let mut r = tool.clone();
                r.append(": ");
                let args_short = truncate(args.as_str(), 25);
                r.append(args_short.as_str());
                r
            },
            CcrEvent::ToolResult { output, .. } => truncate(output.as_str(), 35),
            CcrEvent::PermissionPending { tool, command, .. } => {
                let mut r = tool.clone();
                r.append(": ");
                let cmd_short = truncate(command.as_str(), 20);
                r.append(cmd_short.as_str());
                r
            },
            CcrEvent::PermissionResolved { decision, .. } => {
                let mut r = "Permission ".to_owned();
                r.append(decision.as_str());
                r
            },
            CcrEvent::PermissionTimeout { .. } => "Permission timeout".to_owned(),
            CcrEvent::Notification { message, .. } => truncate(message.as_str(), 35),
            CcrEvent::Status { message, .. } => truncate(message.as_str(), 35),
        }
    }
}

// ===========================================================================
// Bounded circular event queue
// ===========================================================================

/// The queue after pushing `e`: the capacity window slides, evicting the
/// oldest entry when the queue is full.
pub open spec fn spec_queue_push(q: Seq<CcrEventModel>, e: CcrEventModel) -> Seq<CcrEventModel> {
    if q.len() >= MAX_EVENTS {
        q.drop_first().push(e)
    } else {
        q.push(e)
    }
}

/// A value below 128 wraps around 64 by at most one subtraction.
proof fn lemma_wrap64(x: int)
    requires
        0 <= x <= 128,
    ensures
        x % 64 == (if x < 64 {
            x
        } else if x < 128 {
            x - 64
        } else {
            0int
        }),
{
    if x < 64 {
        vstd::arithmetic::div_mod::lemma_small_mod(x as nat, 64);
    } else if x < 128 {
        vstd::arithmetic::div_mod::lemma_mod_sub_multiples_vanish(x, 64);
        vstd::arithmetic::div_mod::lemma_small_mod((x - 64) as nat, 64);
    } else {
        vstd::arithmetic::div_mod::lemma_mod_sub_multiples_vanish(x, 64);
        vstd::arithmetic::div_mod::lemma_mod_sub_multiples_vanish(x - 64, 64);
        vstd::arithmetic::div_mod::lemma_small_mod(0, 64);
    }
}

/// Two offsets under 64 land on distinct slots of the ring.
proof fn lemma_slot_distinct(head: int, a: int, b: int)
    requires
        0 <= head < 64,
        0 <= a < 64,
        0 <= b < 64,
        a != b,
    ensures
        (head + a) % 64 != (head + b) % 64,
{
    lemma_wrap64(head + a);
    lemma_wrap64(head + b);
}

/// Fixed-capacity circular event queue: a buffer of [`MAX_EVENTS`] slots
/// with head, tail and count, overwriting the oldest entry on overflow.
/// Its view is the live entries, oldest first.
pub struct EventQueue {
    events: Vec<Option<CcrEvent>>,
    head: usize,
    tail: usize,
    count: usize,
}

impl View for EventQueue {
    type V = Seq<CcrEventModel>;

    closed spec fn view(&self) -> Seq<CcrEventModel> {
        Seq::new(
            self.count as nat,
            |i: int| self.events@[(self.head + i) % (MAX_EVENTS as int)]->Some_0@,
        )
    }
}

impl EventQueue {
    /// The circular-buffer shape: a full row of slots, indices in range,
    /// the tail one past the newest live entry, and every live slot held.
    /// Established by `new` and preserved by every method.
    pub closed spec fn wf(self) -> bool {
        &&& self.events@.len() == MAX_EVENTS
        &&& self.head < MAX_EVENTS
        &&& self.tail < MAX_EVENTS
        &&& self.count <= MAX_EVENTS
        &&& self.tail == (self.head + self.count) % (MAX_EVENTS as int)
        &&& forall|i: int|
            0 <= i < self.count ==> #[trigger] self.events@[(self.head + i) % (
            MAX_EVENTS as int)] is Some
    }

    /// Create a new empty queue.
    pub fn new() -> (r: Self)
        ensures
            r@ == Seq::<CcrEventModel>::empty(),
            r.wf(),
    {
        let mut events: Vec<Option<CcrEvent>> = Vec::new();
        let mut i: usize = 0;
        while i < MAX_EVENTS
            invariant
                i <= MAX_EVENTS,
                events@.len() == i,
            decreases MAX_EVENTS - i,
        {
            events.push(None);
            i = i + 1;
        }
        let r = EventQueue { events, head: 0, tail: 0, count: 0 };
        assert(r@ =~= Seq::<CcrEventModel>::empty());
        r
    }

    /// Push an event, evicting the oldest entry when the queue is full.
    #[verifier::rlimit(50)]
    pub fn push(&mut self, event: CcrEvent)
        requires
            old(self).wf(),
        ensures
            final(self)@ == spec_queue_push(old(self)@, event@),
            final(self).wf(),
    {
        let ghost q0 = self@;
        if self.count == MAX_EVENTS {
            // Drop the oldest event.
            proof {
                lemma_wrap64(old(self).head + old(self).count);
            }
            self.events.set(self.head, None);
            self.head = (self.head + 1) % MAX_EVENTS;
            self.count = self.count - 1;
            proof {
                lemma_wrap64(old(self).head + 1);
                assert forall|i: int| 0 <= i < self.count implies self@[i] == q0.drop_first()[
                    i] by {
                    lemma_wrap64(self.head + i);
                    lemma_wrap64(old(self).head + (i + 1));
                    lemma_slot_distinct(old(self).head as int, i + 1, 0);
                }
                assert(self@ =~= q0.drop_first());
                assert forall|i: int|
                    0 <= i < self.count implies #[trigger] self.events@[(self.head + i) % (
                MAX_EVENTS as int)] is Some by {
                    lemma_wrap64(self.head + i);
                    lemma_wrap64(old(self).head + (i + 1));
                    lemma_wrap64(old(self).head as int);
                    lemma_slot_distinct(old(self).head as int, i + 1, 0);
                    assert((self.head + i) % (MAX_EVENTS as int) == (old(self).head + (i + 1)) % (
                    MAX_EVENTS as int));
                    assert((old(self).head + 0) % (MAX_EVENTS as int) == old(self).head as int);
                    assert(old(self).events@[(old(self).head + (i + 1)) % (
                    MAX_EVENTS as int)] is Some);
                }
            }
        }
        let ghost q1 = self@;
        let ghost head1 = self.head as int;
        let ghost count1 = self.count as int;
        proof {
            lemma_wrap64(head1 + count1);
            assert(self.tail == (head1 + count1) % 64);
        }
        self.events.set(self.tail, Some(event));
        self.tail = (self.tail + 1) % MAX_EVENTS;
        self.count = self.count + 1;
        proof {
            lemma_wrap64(head1 + count1 + 1);
            lemma_wrap64(old(self).tail + 1);
            assert(self.tail == (head1 + self.count) % 64);
            assert forall|i: int| 0 <= i < count1 implies self@[i] == q1[i] by {
                lemma_wrap64(head1 + i);
                lemma_slot_distinct(head1, i, count1);
            }
            assert(self@[count1] == event@) by {
                lemma_wrap64(head1 + count1);
            }
            assert(self@ =~= q1.push(event@));
            assert forall|i: int|
                0 <= i <= count1 implies #[trigger] self.events@[(head1 + i) % (
            MAX_EVENTS as int)] is Some by {
                lemma_wrap64(head1 + i);
                lemma_wrap64(head1 + count1);
                if i < count1 {
                    lemma_slot_distinct(head1, i, count1);
                    assert((head1 + i) % (MAX_EVENTS as int) != old(self).tail);
                } else {
                    assert((head1 + i) % (MAX_EVENTS as int) == old(self).tail);
                }
            }
        }
    }

    /// Number of live events.
    pub fn len(&self) -> (r: usize)
        ensures
            r == self@.len(),
    {
        self.count
    }

    /// The queue after pushing every event of `es`, oldest first, onto `q`.
    pub open spec fn spec_push_all(q: Seq<CcrEventModel>, es: Seq<CcrEventModel>) -> Seq<
        CcrEventModel,
    >
        decreases es.len(),
    {
        if es.len() == 0 {
            q
        } else {
            Self::spec_push_all(spec_queue_push(q, es[0]), es.drop_first())
        }
    }

    /// Whether the queue is empty.
    pub fn is_empty(&self) -> (r: bool)
        ensures
            r == (self@.len() == 0),
    {
        self.count == 0
    }

    /// The event at logical position `index`, zero being the oldest.
    pub fn get(&self, index: usize) -> (r: Option<&CcrEvent>)
        requires
            self.wf(),
        ensures
            index < self@.len() ==> (r matches Some(e) && e@ == self@[index as int]),
            index >= self@.len() ==> r is None,
    {
        if index >= self.count {
            return None;
        }
        let actual_index = (self.head + index) % MAX_EVENTS;
        match &self.events[actual_index] {
            Some(e) => Some(e),
            None => None,
        }
    }

    /// A mutable borrow of the event at logical position `index`, zero
    /// being the oldest.
    pub fn get_mut(&mut self, index: usize) -> (r: Option<&mut CcrEvent>)
        requires
            old(self).wf(),
        ensures
            index >= old(self)@.len() ==> r is None && final(self)@ == old(self)@
                && final(self).wf(),
            index < old(self)@.len() ==> (r matches Some(e) && (*e)@ == old(self)@[index as int]
                && final(self)@ == old(self)@.update(index as int, (*final(e))@)
                && final(self).wf()),
    {
        if index >= self.count {
            return None;
        }
        let actual_index = (self.head + index) % MAX_EVENTS;
        let slot = vstd::std_specs::vec::vec_index_mut(&mut self.events, actual_index);
        match slot {
            Some(e) => Some(e),
            None => None,
        }
    }

    /// The first (oldest) pending permission request, with its position.
    pub fn find_pending_permission(&self) -> (r: Option<(usize, &CcrEvent)>)
        requires
            self.wf(),
        ensures
            r matches Some((i, e)) ==> (i < self@.len() && e@ == self@[i as int]
                && self@[i as int] is PermissionPending && (forall|j: int|
                0 <= j < i ==> !(self@[j] is PermissionPending))),
            r is None ==> forall|j: int| 0 <= j < self@.len() ==> !(self@[j] is PermissionPending),
    {
        let mut i: usize = 0;
        while i < self.count
            invariant
                self.wf(),
                i <= self.count,
                self.count == self@.len(),
                forall|j: int| 0 <= j < i ==> !(self@[j] is PermissionPending),
            decreases self.count - i,
        {
            let actual_index = (self.head + i) % MAX_EVENTS;
            match &self.events[actual_index] {
                Some(e) => {
                    assert(e@ == self@[i as int]);
                    if e.is_permission_pending() {
                        return Some((i, e));
                    }
                },
                None => {},
            }
            i = i + 1;
        }
        None
    }

    /// The first (oldest) event whose request identifier is `request_id`,
    /// with its position.
    pub fn find_by_request_id(&self, request_id: &str) -> (r: Option<(usize, &CcrEvent)>)
        requires
            self.wf(),
        ensures
            r matches Some((i, e)) ==> (i < self@.len() && e@ == self@[i as int]
                && spec_request_id(self@[i as int]) == Some(request_id@) && (forall|j: int|
                0 <= j < i ==> spec_request_id(self@[j]) != Some(request_id@))),
            r is None ==> forall|j: int|
                0 <= j < self@.len() ==> spec_request_id(self@[j]) != Some(request_id@),
    {
        let mut i: usize = 0;
        while i < self.count
            invariant
                self.wf(),
                i <= self.count,
                self.count == self@.len(),
                forall|j: int| 0 <= j < i ==> spec_request_id(self@[j]) != Some(request_id@),
            decreases self.count - i,
        {
            let actual_index = (self.head + i) % MAX_EVENTS;
            match &self.events[actual_index] {
                Some(e) => {
                    assert(e@ == self@[i as int]);
                    match e.request_id() {
                        Some(rid) => {
                            if crate::text::str_eq(rid, request_id) {
                                return Some((i, e));
                            }
                        },
                        None => {},
                    }
                },
                None => {},
            }
            i = i + 1;
        }
        None
    }

    /// Release every event and reset to empty.
    pub fn clear(&mut self)
        requires
            old(self).wf(),
        ensures
            final(self)@ == Seq::<CcrEventModel>::empty(),
            final(self).wf(),
    {
        let mut i: usize = 0;
        while i < MAX_EVENTS
            invariant
                i <= MAX_EVENTS,
                self.events@.len() == MAX_EVENTS,
            decreases MAX_EVENTS - i,
        {
            self.events.set(i, None);
            i = i + 1;
        }
        self.head = 0;
        self.tail = 0;
        self.count = 0;
        assert(self@ =~= Seq::<CcrEventModel>::empty());
    }

    /// A fresh cursor over the events, oldest first.
    pub fn iter(&self) -> (r: EventQueueIter<'_>)
        requires
            self.wf(),
        ensures
            r.queue@ == self@,
            r.queue.wf(),
            r.index == 0,
    {
        EventQueueIter { queue: self, index: 0 }
    }
}

/// The newest [`MAX_EVENTS`] entries of `s`: what a queue filled from `s`
/// can still hold.
pub open spec fn spec_window(s: Seq<CcrEventModel>) -> Seq<CcrEventModel> {
    if s.len() <= MAX_EVENTS {
        s
    } else {
        s.skip(s.len() - MAX_EVENTS as int)
    }
}

/// Pushing a whole sequence onto a queue within capacity leaves exactly
/// the sliding window over everything it ever held.
pub proof fn lemma_push_all_window(q: Seq<CcrEventModel>, es: Seq<CcrEventModel>)
    requires
        q.len() <= MAX_EVENTS,
    ensures
        EventQueue::spec_push_all(q, es) == spec_window(q + es),
    decreases es.len(),
{
    if es.len() == 0 {
        assert(q + es =~= q);
    } else {
        let q1 = spec_queue_push(q, es[0]);
        lemma_push_all_window(q1, es.drop_first());
        if q.len() >= MAX_EVENTS {
            assert(q1 + es.drop_first() =~= (q + es).drop_first());
            assert(spec_window((q + es).drop_first()) =~= spec_window(q + es));
        } else {
            assert(q1 + es.drop_first() =~= q + es);
        }
    }
}

/// Queue eviction: filling an empty queue with any sequence of events
/// leaves exactly its newest [`MAX_EVENTS`] entries, oldest first.
pub proof fn lemma_eviction_window(es: Seq<CcrEventModel>)
    ensures
        EventQueue::spec_push_all(Seq::<CcrEventModel>::empty(), es) == spec_window(es),
{
    lemma_push_all_window(Seq::<CcrEventModel>::empty(), es);
    assert(Seq::<CcrEventModel>::empty() + es =~= es);
}

/// A cursor over an event queue, oldest first; `next` yields each event
/// in turn.
pub struct EventQueueIter<'a> {
    /// The queue walked over.
    pub queue: &'a EventQueue,
    /// The position of the next event to yield.
    pub index: usize,
}

impl<'a> EventQueueIter<'a> {
    /// The next event, oldest first, or `None` past the end.
    pub fn next(&mut self) -> (r: Option<&'a CcrEvent>)
        requires
            old(self).queue.wf(),
        ensures
            old(self).index < old(self).queue@.len() ==> (r matches Some(e) && e@ == old(
                self,
            ).queue@[old(self).index as int] && final(self).index == old(self).index + 1),
            old(self).index >= old(self).queue@.len() ==> r is None && final(self).index == old(
                self,
            ).index,
            final(self).queue == old(self).queue,
    {
        if self.index >= self.queue.len() {
            return None;
        }
        let event = self.queue.get(self.index);
        self.index = self.index + 1;
        event
    }
}

} // verus!
