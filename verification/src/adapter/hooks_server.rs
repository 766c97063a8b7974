//! What the hook endpoint does with a request: the token check, the
//! conversion of a hook payload into an event, and the order in which
//! ports are tried.

use vstd::prelude::*;

use crate::event::AppEvent;
use crate::service::sanitizer::{esc, lemma_strip_ansi_plain_identity, strip_ansi, strip_ansi_spec};
use crate::service::token::validate_token;
use crate::text::{chars_of, eq_chars, opt_str};

verus! {

pub const PORT_RANGE_START: u16 = 9100;

pub const PORT_RANGE_END: u16 = 9110;

/// The fields of a hook request body that the dashboard reads.
#[derive(Debug, Clone)]
pub struct HookPayload {
    pub hook_event_name: Option<String>,
    pub agent_id: Option<String>,
    pub agent_type: Option<String>,
    pub tool_name: Option<String>,
    pub last_assistant_message: Option<String>,
}

/// The HTTP status a hook request is answered with.
#[derive(Debug, Clone, Copy, PartialEq, Eq, Structural)]
pub enum HookStatus {
    /// 200: accepted (whether or not it produced an event).
    Accepted,
    /// 400: the body is not a hook payload.
    BadRequest,
    /// 403: the token is missing or wrong.
    Forbidden,
}

/// The kind of event a payload yields, with its sanitized texts.
pub ghost enum HookEventV {
    AgentStarted(Seq<char>, Seq<char>),
    AgentStopped(Seq<char>),
    ToolUseStarted(Seq<char>),
    ToolUseCompleted(Seq<char>),
    TurnCompleted(Seq<char>),
}

pub open spec fn event_view(e: AppEvent) -> Option<HookEventV> {
    match e {
        AppEvent::AgentStarted { agent_id, agent_type } => Some(HookEventV::AgentStarted(agent_id@, agent_type@)),
        AppEvent::AgentStopped { agent_id } => Some(HookEventV::AgentStopped(agent_id@)),
        AppEvent::ToolUseStarted { tool_name } => Some(HookEventV::ToolUseStarted(tool_name@)),
        AppEvent::ToolUseCompleted { tool_name } => Some(HookEventV::ToolUseCompleted(tool_name@)),
        AppEvent::TurnCompleted { last_message } => Some(HookEventV::TurnCompleted(last_message@)),
        _ => None,
    }
}

/// A text from the payload, with escape sequences removed; absent texts are empty.
pub open spec fn clean_or_empty(o: Option<Seq<char>>) -> Seq<char> {
    match o {
        Some(s) => strip_ansi_spec(s),
        None => Seq::empty(),
    }
}

/// The event a payload yields: agent start/stop need an agent id, tool
/// events a tool name; a stop of the turn always yields one; other event
/// names yield none. Every text is sanitized.
pub open spec fn payload_event(
    name: Option<Seq<char>>,
    agent_id: Option<Seq<char>>,
    agent_type: Option<Seq<char>>,
    tool_name: Option<Seq<char>>,
    last_message: Option<Seq<char>>,
) -> Option<HookEventV> {
    let n = match name {
        Some(s) => s,
        None => Seq::empty(),
    };
    if n == "SubagentStart"@ {
        match agent_id {
            Some(id) => Some(HookEventV::AgentStarted(strip_ansi_spec(id), clean_or_empty(agent_type))),
            None => None,
        }
    } else if n == "SubagentStop"@ {
        match agent_id {
            Some(id) => Some(HookEventV::AgentStopped(strip_ansi_spec(id))),
            None => None,
        }
    } else if n == "PreToolUse"@ {
        match tool_name {
            Some(t) => Some(HookEventV::ToolUseStarted(strip_ansi_spec(t))),
            None => None,
        }
    } else if n == "PostToolUse"@ {
        match tool_name {
            Some(t) => Some(HookEventV::ToolUseCompleted(strip_ansi_spec(t))),
            None => None,
        }
    } else if n == "Stop"@ {
        Some(HookEventV::TurnCompleted(clean_or_empty(last_message)))
    } else {
        None
    }
}

pub open spec fn payload_event_of(p: HookPayload) -> Option<HookEventV> {
    payload_event(
        opt_str(p.hook_event_name),
        opt_str(p.agent_id),
        opt_str(p.agent_type),
        opt_str(p.tool_name),
        opt_str(p.last_assistant_message),
    )
}

fn clean_opt(o: &Option<String>) -> (r: String)
    ensures
        r@ == clean_or_empty(opt_str(*o)),
{
    match o {
        Some(s) => strip_ansi(s.as_str()),
        None => String::new(),
    }
}

/// The event a hook payload yields, if any.
pub fn event_from_payload(p: &HookPayload) -> (r: Option<AppEvent>)
    ensures
        match r {
            Some(e) => event_view(e) is Some && event_view(e) == payload_event_of(*p),
            None => payload_event_of(*p) is None,
        },
{
    let name = match &p.hook_event_name {
        Some(s) => chars_of(s.as_str()),
        None => Vec::new(),
    };
    if eq_chars(&name, &chars_of("SubagentStart")) {
        match &p.agent_id {
            Some(id) => Some(AppEvent::AgentStarted { agent_id: strip_ansi(id.as_str()), agent_type: clean_opt(&p.agent_type) }),
            None => None,
        }
    } else if eq_chars(&name, &chars_of("SubagentStop")) {
        match &p.agent_id {
            Some(id) => Some(AppEvent::AgentStopped { agent_id: strip_ansi(id.as_str()) }),
            None => None,
        }
    } else if eq_chars(&name, &chars_of("PreToolUse")) {
        match &p.tool_name {
            Some(t) => Some(AppEvent::ToolUseStarted { tool_name: strip_ansi(t.as_str()) }),
            None => None,
        }
    } else if eq_chars(&name, &chars_of("PostToolUse")) {
        match &p.tool_name {
            Some(t) => Some(AppEvent::ToolUseCompleted { tool_name: strip_ansi(t.as_str()) }),
            None => None,
        }
    } else if eq_chars(&name, &chars_of("Stop")) {
        Some(AppEvent::TurnCompleted { last_message: clean_opt(&p.last_assistant_message) })
    } else {
        None
    }
}

/// How a hook request is answered: a wrong or missing token is refused
/// (whatever the body); a body that is not a payload is a bad request;
/// otherwise the request is accepted and yields the payload's event, if any.
pub fn handle_hook(expected_token: &str, provided_token: Option<&str>, payload: Option<HookPayload>) -> (r: (HookStatus, Option<AppEvent>))
    ensures
        ({
            let provided = match provided_token {
                Some(t) => t@,
                None => Seq::<char>::empty(),
            };
            if expected_token@ != provided {
                r.0 == HookStatus::Forbidden && r.1 is None
            } else {
                match payload {
                    None => r.0 == HookStatus::BadRequest && r.1 is None,
                    Some(p) => r.0 == HookStatus::Accepted && match r.1 {
                        Some(e) => event_view(e) is Some && event_view(e) == payload_event_of(p),
                        None => payload_event_of(p) is None,
                    },
                }
            }
        }),
{
    let provided = match provided_token {
        Some(t) => t,
        None => "",
    };
    proof {
        reveal_strlit("");
        assert(""@ =~= Seq::<char>::empty());
        assert(provided@ == match provided_token {
            Some(t) => t@,
            None => Seq::<char>::empty(),
        });
    }
    if !validate_token(expected_token, provided) {
        return (HookStatus::Forbidden, None);
    }
    match payload {
        None => (HookStatus::BadRequest, None),
        Some(p) => (HookStatus::Accepted, event_from_payload(&p)),
    }
}

/// The ports of `p..=PORT_RANGE_END` other than `skip`, ascending.
pub open spec fn range_ports(p: int, skip: u16) -> Seq<u16>
    decreases PORT_RANGE_END + 1 - p,
{
    if p > PORT_RANGE_END || p < 0 {
        Seq::empty()
    } else if p == skip {
        range_ports(p + 1, skip)
    } else {
        seq![p as u16] + range_ports(p + 1, skip)
    }
}

/// Ports to try, in order: the preferred one, then the other ports of
/// `PORT_RANGE_START..=PORT_RANGE_END`, ascending.
pub fn ports_to_try(preferred: u16) -> (r: Vec<u16>)
    ensures
        r@ == seq![preferred] + range_ports(PORT_RANGE_START as int, preferred),
{
    let mut v: Vec<u16> = Vec::new();
    v.push(preferred);
    let mut p: u16 = PORT_RANGE_START;
    while p <= PORT_RANGE_END
        invariant
            PORT_RANGE_START <= p <= PORT_RANGE_END + 1,
            v@ + range_ports(p as int, preferred) == seq![preferred] + range_ports(PORT_RANGE_START as int, preferred),
        decreases PORT_RANGE_END + 1 - p,
    {
        let ghost before = v@;
        if p != preferred {
            v.push(p);
            assert(before + range_ports(p as int, preferred) =~= v@ + range_ports(p + 1, preferred));
        } else {
            assert(range_ports(p as int, preferred) == range_ports(p + 1, preferred));
        }
        p = p + 1;
    }
    assert(range_ports(p as int, preferred) =~= Seq::<u16>::empty());
    assert(v@ =~= v@ + range_ports(p as int, preferred));
    v
}

/// Every port of the fallback range is tried once, after the preferred one,
/// which is not tried twice.
pub proof fn lemma_ports_cover_range(preferred: u16)
    ensures
        forall|q: u16|
            PORT_RANGE_START <= q <= PORT_RANGE_END && q != preferred ==> #[trigger] range_ports(
                PORT_RANGE_START as int,
                preferred,
            ).contains(q),
        !range_ports(PORT_RANGE_START as int, preferred).contains(preferred),
        forall|i: int, j: int|
            0 <= i < j < range_ports(PORT_RANGE_START as int, preferred).len() ==> range_ports(
                PORT_RANGE_START as int,
                preferred,
            )[i] < range_ports(PORT_RANGE_START as int, preferred)[j],
{
    lemma_range_ports(PORT_RANGE_START as int, preferred);
}

proof fn lemma_range_ports(p: int, skip: u16)
    requires
        p >= 0,
    ensures
        forall|q: u16| p <= q <= PORT_RANGE_END && q != skip ==> #[trigger] range_ports(p, skip).contains(q),
        forall|i: int| 0 <= i < range_ports(p, skip).len() ==> p <= #[trigger] range_ports(p, skip)[i] <= PORT_RANGE_END
            && range_ports(p, skip)[i] != skip,
        !range_ports(p, skip).contains(skip),
        forall|i: int, j: int| 0 <= i < j < range_ports(p, skip).len() ==> range_ports(p, skip)[i] < range_ports(p, skip)[j],
    decreases PORT_RANGE_END + 1 - p,
{
    if p <= PORT_RANGE_END {
        lemma_range_ports(p + 1, skip);
        let rest = range_ports(p + 1, skip);
        let r = range_ports(p, skip);
        if p != skip {
            assert forall|q: u16| p <= q <= PORT_RANGE_END && q != skip implies #[trigger] r.contains(q) by {
                if q == p {
                    assert(r[0] == q);
                } else {
                    assert(rest.contains(q));
                    let k = choose|k: int| 0 <= k < rest.len() && rest[k] == q;
                    assert(r[k + 1] == q);
                }
            }
            assert forall|i: int| 0 <= i < r.len() implies p <= #[trigger] r[i] <= PORT_RANGE_END && r[i] != skip by {
                if i > 0 {
                    assert(r[i] == rest[i - 1]);
                }
            }
            assert(!r.contains(skip)) by {
                if r.contains(skip) {
                    let k = choose|k: int| 0 <= k < r.len() && r[k] == skip;
                    assert(r[k] != skip);
                }
            }
            assert forall|i: int, j: int| 0 <= i < j < r.len() implies r[i] < r[j] by {
                if i == 0 {
                    assert(r[j] == rest[j - 1]);
                } else {
                    assert(r[i] == rest[i - 1] && r[j] == rest[j - 1]);
                }
            }
        }
    }
}

/// What each hook reports: a sub-agent stop with an agent id reports that
/// agent stopped, a sub-agent start with an id reports it started (with
/// its type), a tool hook with a tool name reports the tool's use, and a
/// stop of the turn reports the turn completed. The reported texts are the
/// payload's, sanitized; a text without escape sequences comes through
/// unchanged.
pub proof fn lemma_payload_events(p: HookPayload)
    ensures
        opt_str(p.hook_event_name) == Some("SubagentStop"@) && p.agent_id is Some ==> payload_event_of(p)
            == Some(HookEventV::AgentStopped(strip_ansi_spec(p.agent_id->0@))),
        opt_str(p.hook_event_name) == Some("SubagentStart"@) && p.agent_id is Some ==> payload_event_of(p)
            == Some(HookEventV::AgentStarted(strip_ansi_spec(p.agent_id->0@), clean_or_empty(opt_str(p.agent_type)))),
        opt_str(p.hook_event_name) == Some("PreToolUse"@) && p.tool_name is Some ==> payload_event_of(p)
            == Some(HookEventV::ToolUseStarted(strip_ansi_spec(p.tool_name->0@))),
        opt_str(p.hook_event_name) == Some("PostToolUse"@) && p.tool_name is Some ==> payload_event_of(p)
            == Some(HookEventV::ToolUseCompleted(strip_ansi_spec(p.tool_name->0@))),
        opt_str(p.hook_event_name) == Some("Stop"@) ==> payload_event_of(p) == Some(
            HookEventV::TurnCompleted(clean_or_empty(opt_str(p.last_assistant_message))),
        ),
{
    reveal_strlit("SubagentStart");
    reveal_strlit("SubagentStop");
    reveal_strlit("PreToolUse");
    reveal_strlit("PostToolUse");
    reveal_strlit("Stop");
    assert("SubagentStop"@ != "SubagentStart"@) by {
        assert("SubagentStop"@[10] != "SubagentStart"@[10]);
    }
    assert("PreToolUse"@[0] == 'P' && "PostToolUse"@[0] == 'P' && "PreToolUse"@[1] != "PostToolUse"@[1]);
    assert("Stop"@[0] == 'S' && "SubagentStart"@[1] == 'u' && "Stop"@[1] == 't');
    assert("PreToolUse"@ != "SubagentStart"@ && "PreToolUse"@ != "SubagentStop"@);
    assert("PostToolUse"@ != "SubagentStart"@ && "PostToolUse"@ != "SubagentStop"@ && "PostToolUse"@ != "PreToolUse"@);
    assert("Stop"@ != "SubagentStart"@ && "Stop"@ != "SubagentStop"@ && "Stop"@ != "PreToolUse"@ && "Stop"@ != "PostToolUse"@);
}

/// A sub-agent stop with an agent id reports that agent stopped (so an
/// authenticated request carrying it is accepted with that event, by
/// `handle_hook`); an id without escape sequences is reported as it was
/// sent.
pub proof fn lemma_subagent_stop_reported(p: HookPayload)
    requires
        opt_str(p.hook_event_name) == Some("SubagentStop"@),
        p.agent_id is Some,
    ensures
        payload_event_of(p) == Some(HookEventV::AgentStopped(strip_ansi_spec(p.agent_id->0@))),
        !p.agent_id->0@.contains(esc()) ==> payload_event_of(p) == Some(HookEventV::AgentStopped(p.agent_id->0@)),
{
    lemma_payload_events(p);
    if !p.agent_id->0@.contains(esc()) {
        lemma_strip_ansi_plain_identity(p.agent_id->0@);
    }
}

} // verus!
