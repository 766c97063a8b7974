//! Token usage from the session log (one JSON object per line): which
//! entries count, how their usage accumulates, and the recent window from
//! which the burn rate is computed.

use vstd::prelude::*;

use crate::parser::models::{
    record_total, sat_add, TimestampedTokens, TokenRecord, TokenSnapshot, TokenSnapshotV,
};
use crate::text::{chars_of, eq_chars, opt_str, string_of, trim, trimmed};

verus! {

broadcast use vstd::seq_lib::group_seq_properties;

/// Length of the burn-rate window, in nanoseconds (30 s).
pub const BURN_RATE_WINDOW_SECS: i64 = 30;

/// What one log line holds, once decoded: the entry's `type`, the token
/// usage of its `message` (absent when there is no message or no usage;
/// missing counters are 0), and its `timestamp` text.
#[derive(Debug, Clone)]
pub struct JsonlEntry {
    pub entry_type: Option<String>,
    pub usage: Option<TokenRecord>,
    pub timestamp: Option<String>,
}

/// What `DateTime::parse_from_rfc3339` makes of a text, as the instant's
/// whole seconds since the Unix epoch and the nanoseconds past that second.
pub uninterp spec fn rfc3339_instant(s: Seq<char>) -> Option<(i64, u32)>;

/// `chrono::DateTime::parse_from_rfc3339`, taken to UTC and read as
/// (`timestamp`, `timestamp_subsec_nanos`). Trusted: the result is
/// `rfc3339_instant` of the text; which texts parse is chrono's rule and is
/// not restated.
#[verifier::external_body]
fn parse_rfc3339(s: &str) -> (r: Option<(i64, u32)>)
    ensures
        r == rfc3339_instant(s@),
{
    match chrono::DateTime::parse_from_rfc3339(s) {
        Ok(dt) => {
            let utc = dt.with_timezone(&chrono::Utc);
            Some((utc.timestamp(), utc.timestamp_subsec_nanos()))
        },
        Err(_) => None,
    }
}

/// Nanoseconds since the epoch of an instant given as seconds and sub-second nanoseconds.
pub open spec fn instant_nanos(secs: i64, nanos: u32) -> int {
    secs * 1_000_000_000 + nanos
}

/// The text of a log line that is worth decoding: the trimmed line, unless blank.
pub fn jsonl_payload(line: &str) -> (r: Option<String>)
    ensures
        match r {
            Some(t) => trim(line@).len() > 0 && t@ == trim(line@),
            None => trim(line@).len() == 0,
        },
{
    let t = trimmed(&chars_of(line));
    if t.len() == 0 {
        None
    } else {
        Some(string_of(&t))
    }
}

/// Whether an entry counts: it is an assistant message with usage.
pub open spec fn counts(entry_type: Option<Seq<char>>, usage: Option<TokenRecord>) -> bool {
    entry_type == Some("assistant"@) && usage is Some
}

/// The record and time an entry contributes, given how its timestamp parsed.
pub open spec fn token_entry_spec(
    entry_type: Option<Seq<char>>,
    usage: Option<TokenRecord>,
    parsed_ts: Option<(i64, u32)>,
) -> Option<(TokenRecord, Option<(i64, u32)>)> {
    if counts(entry_type, usage) {
        Some((usage->0, parsed_ts))
    } else {
        None
    }
}

/// The contribution of an entry whose timestamp has been parsed already
/// (`None`: absent or not RFC 3339).
pub fn token_entry(entry: &JsonlEntry, parsed_ts: Option<(i64, u32)>) -> (r: Option<(TokenRecord, Option<(i64, u32)>)>)
    ensures
        r == token_entry_spec(opt_str(entry.entry_type), entry.usage, parsed_ts),
{
    let is_assistant = match &entry.entry_type {
        Some(t) => eq_chars(&chars_of(t.as_str()), &chars_of("assistant")),
        None => false,
    };
    if !is_assistant {
        return None;
    }
    match entry.usage {
        None => None,
        Some(rec) => Some((rec, parsed_ts)),
    }
}

/// The time of an entry's timestamp text: `None` where the entry has none
/// or it is not RFC 3339.
pub open spec fn entry_time(timestamp: Option<Seq<char>>) -> Option<(i64, u32)> {
    match timestamp {
        Some(t) => rfc3339_instant(t),
        None => None,
    }
}

/// Extract token usage and instant from a decoded log entry. Entries that
/// are not assistant messages with usage give `None`.
pub fn parse_entry(entry: &JsonlEntry) -> (r: Option<(TokenRecord, Option<(i64, u32)>)>)
    ensures
        match r {
            Some((rec, ts)) => counts(opt_str(entry.entry_type), entry.usage)
                && entry.usage == Some(rec) && ts == entry_time(opt_str(entry.timestamp)),
            None => !counts(opt_str(entry.entry_type), entry.usage),
        },
{
    let parsed = match &entry.timestamp {
        Some(t) => parse_rfc3339(t.as_str()),
        None => None,
    };
    token_entry(entry, parsed)
}

/// `(secs, nanos)` is at or after `c`, in the date-time library's order:
/// by whole seconds, then by nanoseconds (a leap second's nanoseconds run
/// on past 10^9, so it orders before the next second).
pub open spec fn not_before(secs: int, nanos: int, c: (int, int)) -> bool {
    secs > c.0 || (secs == c.0 && nanos >= c.1)
}

/// 30 seconds before `(secs, nanos)`, as the date-time library subtracts
/// them: a leap second's time first becomes the start of the next second
/// plus the same fraction.
pub open spec fn window_start(secs: i64, nanos: u32) -> (int, int) {
    if nanos >= 1_000_000_000 {
        (secs + 1 - BURN_RATE_WINDOW_SECS, nanos - 1_000_000_000)
    } else {
        (secs - BURN_RATE_WINDOW_SECS, nanos as int)
    }
}

/// The turns at or after `cutoff`, in order.
pub open spec fn keep_recent(s: Seq<TimestampedTokens>, cutoff: (int, int)) -> Seq<TimestampedTokens>
    decreases s.len(),
{
    if s.len() == 0 {
        Seq::empty()
    } else {
        let p = keep_recent(s.drop_last(), cutoff);
        if not_before(s.last().secs as int, s.last().nanos as int, cutoff) {
            p.push(s.last())
        } else {
            p
        }
    }
}

/// The snapshot after one more turn: every counter grows (saturating), and
/// a timestamped turn joins the window, which then drops turns more than
/// 30 s older than it.
pub open spec fn accumulate_spec(s: TokenSnapshotV, rec: TokenRecord, ts: Option<(i64, u32)>) -> TokenSnapshotV {
    let c = s.cumulative;
    TokenSnapshotV {
        cumulative: TokenRecord {
            input_tokens: sat_add(c.input_tokens as int, rec.input_tokens as int) as u64,
            output_tokens: sat_add(c.output_tokens as int, rec.output_tokens as int) as u64,
            cache_creation_input_tokens: sat_add(
                c.cache_creation_input_tokens as int,
                rec.cache_creation_input_tokens as int,
            ) as u64,
            cache_read_input_tokens: sat_add(
                c.cache_read_input_tokens as int,
                rec.cache_read_input_tokens as int,
            ) as u64,
        },
        turn_count: if s.turn_count == u32::MAX {
            u32::MAX
        } else {
            (s.turn_count + 1) as u32
        },
        recent_turns: match ts {
            Some((secs, nanos)) => keep_recent(
                s.recent_turns.push(TimestampedTokens { secs, nanos, tokens: record_total(rec) as u64 }),
                window_start(secs, nanos),
            ),
            None => s.recent_turns,
        },
    }
}

/// Add one turn's usage to the snapshot.
pub fn accumulate(snapshot: &mut TokenSnapshot, record: TokenRecord, timestamp: Option<(i64, u32)>)
    ensures
        final(snapshot)@ == accumulate_spec(old(snapshot)@, record, timestamp),
{
    let turn_tokens = record.total();
    snapshot.cumulative.input_tokens = snapshot.cumulative.input_tokens.saturating_add(
        record.input_tokens,
    );
    snapshot.cumulative.output_tokens = snapshot.cumulative.output_tokens.saturating_add(
        record.output_tokens,
    );
    snapshot.cumulative.cache_creation_input_tokens =
        snapshot.cumulative.cache_creation_input_tokens.saturating_add(
        record.cache_creation_input_tokens,
    );
    snapshot.cumulative.cache_read_input_tokens =
        snapshot.cumulative.cache_read_input_tokens.saturating_add(record.cache_read_input_tokens);
    snapshot.turn_count = snapshot.turn_count.saturating_add(1);
    if let Some((secs, nanos)) = timestamp {
        snapshot.recent_turns.push(TimestampedTokens { secs, nanos, tokens: turn_tokens });
        prune_old_turns(snapshot);
    }
}

/// Drop the turns more than 30 s older than the latest one.
pub fn prune_old_turns(snapshot: &mut TokenSnapshot)
    ensures
        final(snapshot)@ == (TokenSnapshotV {
            recent_turns: if old(snapshot)@.recent_turns.len() == 0 {
                old(snapshot)@.recent_turns
            } else {
                keep_recent(
                    old(snapshot)@.recent_turns,
                    window_start(old(snapshot)@.recent_turns.last().secs, old(snapshot)@.recent_turns.last().nanos),
                )
            },
            ..old(snapshot)@
        }),
{
    let n = snapshot.recent_turns.len();
    if n == 0 {
        return;
    }
    let latest = snapshot.recent_turns[n - 1];
    let (cut_secs, cut_nanos): (i128, u32) = if latest.nanos >= 1_000_000_000 {
        (latest.secs as i128 + 1 - BURN_RATE_WINDOW_SECS as i128, latest.nanos - 1_000_000_000)
    } else {
        (latest.secs as i128 - BURN_RATE_WINDOW_SECS as i128, latest.nanos)
    };
    let ghost cutoff = window_start(latest.secs, latest.nanos);
    let ghost old_turns = snapshot.recent_turns@;
    let mut kept: Vec<TimestampedTokens> = Vec::new();
    let mut i: usize = 0;
    while i < n
        invariant
            i <= n,
            n == old_turns.len(),
            old_turns == snapshot.recent_turns@,
            cutoff == (cut_secs as int, cut_nanos as int),
            kept@ == keep_recent(old_turns.take(i as int), cutoff),
        decreases n - i,
    {
        proof {
            assert(old_turns.take(i + 1).drop_last() =~= old_turns.take(i as int));
        }
        let t = snapshot.recent_turns[i];
        let ts = t.secs as i128;
        if ts > cut_secs || (ts == cut_secs && t.nanos >= cut_nanos) {
            kept.push(t);
        }
        i = i + 1;
    }
    proof {
        assert(old_turns.take(i as int) =~= old_turns);
    }
    snapshot.recent_turns = kept;
}

/// Tokens of the turns in the window.
pub open spec fn window_tokens(s: Seq<TimestampedTokens>) -> int
    decreases s.len(),
{
    if s.len() == 0 {
        0
    } else {
        window_tokens(s.drop_last()) + s.last().tokens
    }
}

/// A turn's time in nanoseconds since the epoch. The date-time library's
/// differences of times, leap seconds included, are differences of these.
pub open spec fn turn_nanos(t: TimestampedTokens) -> int {
    instant_nanos(t.secs, t.nanos)
}

/// Whole seconds in a span of nanoseconds, rounded toward zero.
pub open spec fn whole_seconds(nanos: int) -> int {
    if nanos >= 0 {
        nanos / 1_000_000_000
    } else {
        -((-nanos) / 1_000_000_000)
    }
}

/// The burn rate's inputs: the window's tokens and the whole seconds from
/// its first turn to its last. There is a rate only with two or more turns
/// at least a second apart; it is tokens / seconds * 60 per minute.
pub open spec fn burn_window_spec(s: TokenSnapshotV) -> Option<(int, int)> {
    let t = s.recent_turns;
    if t.len() < 2 {
        None
    } else {
        let secs = whole_seconds(turn_nanos(t.last()) - turn_nanos(t[0]));
        if secs <= 0 {
            None
        } else {
            Some((window_tokens(t), secs))
        }
    }
}

impl TokenSnapshot {
    /// Tokens in the window and the span of the window in whole seconds,
    /// when the window yields a rate.
    pub fn burn_window(&self) -> (r: Option<(u128, i128)>)
        ensures
            match r {
                Some((tok, secs)) => burn_window_spec(self@) == Some((tok as int, secs as int)),
                None => burn_window_spec(self@) is None,
            },
    {
        let n = self.recent_turns.len();
        if n < 2 {
            return None;
        }
        let f = self.recent_turns[0];
        let l = self.recent_turns[n - 1];
        assert(i64::MIN * 1_000_000_000 <= f.secs * 1_000_000_000 <= i64::MAX * 1_000_000_000) by (nonlinear_arith)
            requires
                i64::MIN <= f.secs <= i64::MAX,
        ;
        assert(i64::MIN * 1_000_000_000 <= l.secs * 1_000_000_000 <= i64::MAX * 1_000_000_000) by (nonlinear_arith)
            requires
                i64::MIN <= l.secs <= i64::MAX,
        ;
        let first: i128 = f.secs as i128 * 1_000_000_000 + f.nanos as i128;
        let last: i128 = l.secs as i128 * 1_000_000_000 + l.nanos as i128;
        if last <= first {
            return None;
        }
        let secs: i128 = (last - first) / 1_000_000_000;
        if secs == 0 {
            return None;
        }
        let ghost t = self@.recent_turns;
        let mut total: u128 = 0;
        let mut i: usize = 0;
        while i < n
            invariant
                i <= n,
                n == t.len(),
                t == self@.recent_turns,
                total == window_tokens(t.take(i as int)),
                total <= i * (u64::MAX as int),
            decreases n - i,
        {
            proof {
                assert(t.take(i + 1).drop_last() =~= t.take(i as int));
            }
            assert(total + self.recent_turns[i as int].tokens <= (i + 1) * (u64::MAX as int)) by (nonlinear_arith)
                requires
                    total <= i * (u64::MAX as int),
                    self.recent_turns[i as int].tokens <= u64::MAX,
            ;
            assert((i + 1) * (u64::MAX as int) <= u128::MAX) by (nonlinear_arith)
                requires
                    i < n,
                    n <= usize::MAX,
            ;
            total = total + self.recent_turns[i].tokens as u128;
            i = i + 1;
        }
        proof {
            assert(t.take(i as int) =~= t);
        }
        Some((total, secs))
    }
}

/// The session directory name for a project: the path with every `/` replaced by `-`.
pub open spec fn project_key_spec(path: Seq<char>) -> Seq<char> {
    path.map_values(|c: char| if c == '/' { '-' } else { c })
}

pub fn project_key(path: &str) -> (r: String)
    ensures
        r@ == project_key_spec(path@),
{
    let v = chars_of(path);
    let mut out: Vec<char> = Vec::new();
    let mut i: usize = 0;
    while i < v.len()
        invariant
            i <= v@.len(),
            v@ == path@,
            out@ == project_key_spec(v@.take(i as int)),
        decreases v.len() - i,
    {
        out.push(if v[i] == '/' { '-' } else { v[i] });
        proof {
            assert(project_key_spec(v@.take(i + 1)) =~= project_key_spec(v@.take(i as int)).push(
                if v@[i as int] == '/' { '-' } else { v@[i as int] },
            ));
        }
        i = i + 1;
    }
    proof {
        assert(v@.take(i as int) =~= v@);
    }
    string_of(&out)
}

// ---------------------------------------------------------------------
// Laws
// ---------------------------------------------------------------------

/// `keep_recent` keeps exactly the turns at or after the cutoff, in order.
pub proof fn lemma_keep_recent(s: Seq<TimestampedTokens>, cutoff: (int, int))
    ensures
        keep_recent(s, cutoff).len() <= s.len(),
        forall|i: int|
            0 <= i < keep_recent(s, cutoff).len() ==> not_before(
                (#[trigger] keep_recent(s, cutoff)[i]).secs as int,
                keep_recent(s, cutoff)[i].nanos as int,
                cutoff,
            ),
        forall|x: TimestampedTokens| #[trigger] keep_recent(s, cutoff).contains(x) ==> s.contains(x),
        forall|x: TimestampedTokens|
            s.contains(x) && not_before(x.secs as int, x.nanos as int, cutoff) ==> #[trigger] keep_recent(
                s,
                cutoff,
            ).contains(x),
    decreases s.len(),
{
    if s.len() > 0 {
        let p = s.drop_last();
        lemma_keep_recent(p, cutoff);
        let k = keep_recent(s, cutoff);
        assert forall|x: TimestampedTokens| #[trigger] k.contains(x) implies s.contains(x) by {
            if keep_recent(p, cutoff).contains(x) {
                let j = choose|j: int| 0 <= j < p.len() && p[j] == x;
                assert(s[j] == x);
            } else {
                assert(x == s.last());
                assert(s[s.len() - 1] == x);
            }
        }
        assert forall|x: TimestampedTokens|
            s.contains(x) && not_before(x.secs as int, x.nanos as int, cutoff) implies #[trigger] k.contains(x) by {
            let j = choose|j: int| 0 <= j < s.len() && s[j] == x;
            if j < s.len() - 1 {
                assert(p[j] == x);
                assert(p.contains(x));
                let kp = keep_recent(p, cutoff);
                assert(kp.contains(x));
                let m = choose|m: int| 0 <= m < kp.len() && kp[m] == x;
                assert(k[m] == x);
            } else {
                assert(k.last() == x);
                assert(k[k.len() - 1] == x);
            }
        }
    }
}

/// After a timestamped turn at `(secs, nanos)`, the burn-rate window holds
/// the new turn and only turns no earlier than 30 s before it; the
/// counters never shrink.
pub proof fn lemma_accumulate_window(s: TokenSnapshotV, rec: TokenRecord, secs: i64, nanos: u32)
    ensures
        ({
            let n = accumulate_spec(s, rec, Some((secs, nanos)));
            &&& forall|i: int|
                0 <= i < n.recent_turns.len() ==> not_before(
                    (#[trigger] n.recent_turns[i]).secs as int,
                    n.recent_turns[i].nanos as int,
                    window_start(secs, nanos),
                )
            &&& n.recent_turns.contains(TimestampedTokens { secs, nanos, tokens: record_total(rec) as u64 })
            &&& n.cumulative.input_tokens >= s.cumulative.input_tokens
            &&& n.cumulative.output_tokens >= s.cumulative.output_tokens
            &&& n.cumulative.cache_creation_input_tokens >= s.cumulative.cache_creation_input_tokens
            &&& n.cumulative.cache_read_input_tokens >= s.cumulative.cache_read_input_tokens
            &&& n.turn_count >= s.turn_count
        }),
{
    let x = TimestampedTokens { secs, nanos, tokens: record_total(rec) as u64 };
    let pushed = s.recent_turns.push(x);
    lemma_keep_recent(pushed, window_start(secs, nanos));
    assert(pushed[pushed.len() - 1] == x);
    assert(pushed.contains(x));
}

} // verus!
