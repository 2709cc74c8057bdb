//! A byte-bounded ring buffer for ACP protocol debug messages.

use std::time::SystemTime;
use vstd::prelude::*;
use vstd::string::*;
use vstd::utf8::{encode_utf8, is_char_boundary};
use crate::text::{clone_opt_string, decimal_spec, lemma_encode_concat, u64_to_decimal};

verus! {

#[verifier::external_type_specification]
#[verifier::external_body]
pub struct ExSystemTime(SystemTime);

/// The current wall-clock time (`SystemTime::now`); nothing is stated of it.
#[verifier::external_body]
pub(crate) fn system_time_now() -> SystemTime {
    SystemTime::now()
}

/// `SystemTime` is `Copy`; its `clone` returns the same instant.
pub assume_specification[ <SystemTime as Clone>::clone ](t: &SystemTime) -> (r: SystemTime)
    ensures
        r == *t,
;

/// Maximum size of the debug ring buffer in bytes (10MB).
pub const DEFAULT_MAX_BYTES: usize = 10485760;

/// Capacity reserved for messages when a buffer is created.
pub const INITIAL_MESSAGE_CAPACITY: usize = 100;

#[derive(Debug, Clone, Copy, PartialEq, Eq, Structural)]
pub enum MessageDirection {
    Sent,
    Received,
    Error,
}

/// One captured protocol message.
#[derive(Debug, Clone)]
pub struct DebugMessage {
    pub timestamp: SystemTime,
    pub direction: MessageDirection,
    pub raw_content: String,
    /// Length of `raw_content` in bytes.
    pub byte_size: usize,
    pub agent_id: String,
    pub session_id: Option<String>,
}

/// Counters of a debug buffer.
#[derive(Debug, Clone, Copy, PartialEq, Eq, Structural)]
pub struct DebugBufferStats {
    pub message_count: usize,
    pub byte_count: usize,
    pub max_bytes: usize,
}

/// Sum of the byte sizes of `ms`.
pub open spec fn total_bytes(ms: Seq<DebugMessage>) -> nat
    decreases ms.len(),
{
    if ms.len() == 0 {
        0
    } else {
        ms[0].byte_size as nat + total_bytes(ms.drop_first())
    }
}

/// How many of the oldest messages of `ms` are evicted to make room for a
/// message of `incoming` bytes under a budget of `max` bytes: the oldest go
/// first, until the rest plus the new message fit or nothing is left.
pub open spec fn evict_count(ms: Seq<DebugMessage>, incoming: nat, max: nat) -> nat
    decreases ms.len(),
{
    if ms.len() > 0 && total_bytes(ms) + incoming > max {
        1 + evict_count(ms.drop_first(), incoming, max)
    } else {
        0
    }
}

proof fn lemma_total_push(ms: Seq<DebugMessage>, m: DebugMessage)
    ensures
        total_bytes(ms.push(m)) == total_bytes(ms) + m.byte_size,
    decreases ms.len(),
{
    if ms.len() > 0 {
        assert(ms.push(m).drop_first() =~= ms.drop_first().push(m));
        assert(ms.push(m)[0] == ms[0]);
        lemma_total_push(ms.drop_first(), m);
    } else {
        assert(ms.push(m).drop_first() =~= Seq::<DebugMessage>::empty());
        assert(total_bytes(Seq::<DebugMessage>::empty()) == 0);
        assert(ms.push(m)[0] == m);
    }
}

proof fn lemma_evict_count_bound(ms: Seq<DebugMessage>, incoming: nat, max: nat)
    ensures
        evict_count(ms, incoming, max) <= ms.len(),
    decreases ms.len(),
{
    if ms.len() > 0 && total_bytes(ms) + incoming > max {
        lemma_evict_count_bound(ms.drop_first(), incoming, max);
    }
}

proof fn lemma_evict_result(ms: Seq<DebugMessage>, incoming: nat, max: nat)
    ensures
        ({
            let rest = ms.skip(evict_count(ms, incoming, max) as int);
            rest.len() == 0 || total_bytes(rest) + incoming <= max
        }),
    decreases ms.len(),
{
    if ms.len() > 0 && total_bytes(ms) + incoming > max {
        lemma_evict_result(ms.drop_first(), incoming, max);
        lemma_evict_count_bound(ms.drop_first(), incoming, max);
        let k = evict_count(ms.drop_first(), incoming, max);
        assert(ms.skip(k as int + 1) =~= ms.drop_first().skip(k as int));
    } else {
        assert(ms.skip(0) =~= ms);
    }
}

/// A byte-bounded ring buffer for ACP protocol debug messages: sent
/// JSON-RPC messages, received responses, transport errors and protocol
/// events. Recording happens only while the buffer is enabled.
pub struct AcpDebugBuffer {
    messages: Vec<DebugMessage>,
    current_bytes: usize,
    max_bytes: usize,
    enabled: bool,
}

impl AcpDebugBuffer {
    /// The buffered messages, oldest first.
    pub closed spec fn msgs(&self) -> Seq<DebugMessage> {
        self.messages@
    }

    /// The byte count the buffer keeps.
    pub closed spec fn bytes(&self) -> nat {
        self.current_bytes as nat
    }

    /// The byte budget.
    pub closed spec fn limit(&self) -> nat {
        self.max_bytes as nat
    }

    /// Whether recording is on.
    pub closed spec fn on(&self) -> bool {
        self.enabled
    }

    /// The byte count is the sum of the message sizes, and it is within the
    /// budget unless a single message alone exceeds it.
    #[verifier::type_invariant]
    pub closed spec fn wf(&self) -> bool {
        &&& self.current_bytes == total_bytes(self.messages@)
        &&& (self.current_bytes <= self.max_bytes || self.messages@.len() <= 1)
    }

    pub fn new(max_bytes: Option<usize>) -> (r: Self)
        ensures
            r.msgs() == Seq::<DebugMessage>::empty(),
            r.bytes() == 0,
            r.limit() == (match max_bytes {
                Some(m) => m,
                None => DEFAULT_MAX_BYTES,
            }),
            !r.on(),
    {
        let max = match max_bytes {
            Some(m) => m,
            None => DEFAULT_MAX_BYTES,
        };
        AcpDebugBuffer {
            messages: Vec::with_capacity(INITIAL_MESSAGE_CAPACITY),
            current_bytes: 0,
            max_bytes: max,
            enabled: false,
        }
    }

    pub fn enable(&mut self)
        ensures
            final(self).on(),
            final(self).msgs() == old(self).msgs(),
            final(self).bytes() == old(self).bytes(),
            final(self).limit() == old(self).limit(),
    {
        proof {
            use_type_invariant(&*self);
        }
        self.enabled = true;
    }

    /// Turn recording off and drop what was recorded.
    pub fn disable(&mut self)
        ensures
            !final(self).on(),
            final(self).msgs() == Seq::<DebugMessage>::empty(),
            final(self).bytes() == 0,
            final(self).limit() == old(self).limit(),
    {
        proof {
            use_type_invariant(&*self);
        }
        self.enabled = false;
        self.clear();
    }

    pub fn is_enabled(&self) -> (r: bool)
        ensures
            r == self.on(),
    {
        self.enabled
    }

    /// Record a debug message. Ignored while the buffer is disabled;
    /// otherwise the oldest messages are evicted until the new one fits the
    /// byte budget (or nothing else is left), and the new one is appended.
    pub fn record(&mut self, direction: MessageDirection, raw_content: &str, agent_id: &str, session_id: Option<&str>)
        ensures
            final(self).on() == old(self).on(),
            final(self).limit() == old(self).limit(),
            !old(self).on() ==> final(self).msgs() == old(self).msgs() && final(self).bytes() == old(self).bytes(),
            old(self).on() && total_bytes(old(self).msgs()) + raw_content.spec_bytes().len() <= old(self).limit()
                ==> final(self).msgs() == old(self).msgs().push(final(self).msgs().last()),
            old(self).on() ==> ({
                let size = raw_content.spec_bytes().len();
                let k = evict_count(old(self).msgs(), size, old(self).limit());
                let m = final(self).msgs().last();
                &&& final(self).msgs() == old(self).msgs().skip(k as int).push(m)
                &&& m.direction == direction
                &&& m.raw_content@ == raw_content@
                &&& m.byte_size == size
                &&& m.agent_id@ == agent_id@
                &&& (match session_id {
                    Some(s) => m.session_id is Some && m.session_id->0@ == s@,
                    None => m.session_id is None,
                })
            }),
    {
        proof {
            use_type_invariant(&*self);
        }
        if !self.enabled {
            return;
        }
        let size = raw_content.as_bytes().len();
        let msg = DebugMessage {
            timestamp: system_time_now(),
            direction,
            raw_content: raw_content.to_owned(),
            byte_size: size,
            agent_id: agent_id.to_owned(),
            session_id: match session_id {
                Some(s) => Some(s.to_owned()),
                None => None,
            },
        };
        let max_bytes = self.max_bytes;
        let enabled = self.enabled;
        let mut taken = AcpDebugBuffer { messages: Vec::new(), current_bytes: 0, max_bytes, enabled };
        std::mem::swap(self, &mut taken);
        let AcpDebugBuffer { mut messages, mut current_bytes, .. } = taken;
        let ghost old_msgs = messages@;
        let ghost j: int = 0;
        assert(old_msgs.skip(0) =~= old_msgs);
        // Evict oldest while the new message does not fit.
        while messages.len() > 0 && (size > max_bytes || current_bytes > max_bytes - size)
            invariant
                current_bytes == total_bytes(messages@),
                0 <= j <= old_msgs.len(),
                messages@ == old_msgs.skip(j),
                evict_count(old_msgs, size as nat, max_bytes as nat) == j + evict_count(messages@, size as nat, max_bytes as nat),
            decreases messages.len(),
        {
            let ghost before = messages@;
            let removed = messages.remove(0);
            assert(messages@ =~= before.drop_first());
            current_bytes = current_bytes - removed.byte_size;
            proof {
                assert(old_msgs.skip(j + 1) =~= before.drop_first());
                j = j + 1;
            }
        }
        proof {
            lemma_eviction_minimal(old_msgs, size as nat, max_bytes as nat);
            lemma_evict_result(old_msgs, size as nat, max_bytes as nat);
            assert(evict_count(messages@, size as nat, max_bytes as nat) == 0);
            lemma_total_push(messages@, msg);
        }
        current_bytes = current_bytes + size;
        messages.push(msg);
        *self = AcpDebugBuffer { messages, current_bytes, max_bytes, enabled };
    }

    /// A copy of all buffered messages, oldest first.
    pub fn get_messages(&self) -> (r: Vec<DebugMessage>)
        ensures
            r@ == self.msgs(),
    {
        let mut out: Vec<DebugMessage> = Vec::new();
        let mut i: usize = 0;
        while i < self.messages.len()
            invariant
                i <= self.messages.len(),
                out@ == self.messages@.take(i as int),
            decreases self.messages.len() - i,
        {
            let m = &self.messages[i];
            let copy = DebugMessage {
                timestamp: m.timestamp,
                direction: m.direction,
                raw_content: m.raw_content.clone(),
                byte_size: m.byte_size,
                agent_id: m.agent_id.clone(),
                session_id: clone_opt_string(&m.session_id),
            };
            out.push(copy);
            assert(out@ =~= self.messages@.take(i + 1));
            i = i + 1;
        }
        assert(self.messages@.take(self.messages.len() as int) =~= self.messages@);
        out
    }

    /// Clear the buffer.
    pub fn clear(&mut self)
        ensures
            final(self).msgs() == Seq::<DebugMessage>::empty(),
            final(self).bytes() == 0,
            final(self).on() == old(self).on(),
            final(self).limit() == old(self).limit(),
    {
        *self = AcpDebugBuffer {
            messages: Vec::new(),
            current_bytes: 0,
            max_bytes: self.max_bytes,
            enabled: self.enabled,
        };
    }

    /// Current buffer counters.
    pub fn stats(&self) -> (r: DebugBufferStats)
        ensures
            r.message_count == self.msgs().len(),
            r.byte_count == self.bytes(),
            r.max_bytes == self.limit(),
    {
        DebugBufferStats {
            message_count: self.messages.len(),
            byte_count: self.current_bytes,
            max_bytes: self.max_bytes,
        }
    }
}

/// The byte budget: the byte count of a buffer is the sum of its message
/// sizes, and it exceeds the budget only when one message alone does.
pub proof fn lemma_byte_budget(b: &AcpDebugBuffer)
    requires
        b.wf(),
    ensures
        b.bytes() == total_bytes(b.msgs()),
        b.bytes() <= b.limit() || b.msgs().len() <= 1,
{
}

/// Eviction keeps the newest messages: what survives a record is a suffix of
/// what was buffered, and the evicted count never exceeds what was buffered.
pub proof fn lemma_eviction_keeps_newest(ms: Seq<DebugMessage>, incoming: nat, max: nat)
    ensures
        evict_count(ms, incoming, max) <= ms.len(),
        ({
            let rest = ms.skip(evict_count(ms, incoming, max) as int);
            rest.len() == 0 || total_bytes(rest) + incoming <= max
        }),
{
    lemma_evict_count_bound(ms, incoming, max);
    lemma_evict_result(ms, incoming, max);
}

/// Eviction is minimal: nothing is evicted while the buffered messages and
/// the incoming one fit the budget, and each message that is evicted was
/// evicted because the messages from it on, with the incoming one, did not
/// fit.
pub proof fn lemma_eviction_minimal(ms: Seq<DebugMessage>, incoming: nat, max: nat)
    ensures
        total_bytes(ms) + incoming <= max ==> evict_count(ms, incoming, max) == 0,
        evict_count(ms, incoming, max) <= ms.len(),
        forall|j: int| 0 <= j < evict_count(ms, incoming, max) ==> #[trigger] total_bytes(ms.skip(j)) + incoming > max,
    decreases ms.len(),
{
    if ms.len() > 0 && total_bytes(ms) + incoming > max {
        let tail = ms.drop_first();
        lemma_eviction_minimal(tail, incoming, max);
        assert(evict_count(ms, incoming, max) == 1 + evict_count(tail, incoming, max));
        assert forall|j: int| 0 <= j < evict_count(ms, incoming, max)
            implies #[trigger] total_bytes(ms.skip(j)) + incoming > max by {
            if j == 0 {
                assert(ms.skip(0) =~= ms);
                assert(total_bytes(ms.skip(j)) + incoming > max);
            } else {
                let jj = j - 1;
                assert(0 <= jj < evict_count(tail, incoming, max));
                assert(total_bytes(tail.skip(jj)) + incoming > max);
                assert(ms.skip(j) =~= tail.skip(jj));
                assert(total_bytes(ms.skip(j)) + incoming > max);
            }
        }
    } else {
        assert(evict_count(ms, incoming, max) == 0);
    }
}

// ---------------------------------------------------------------------------
// Redaction
// ---------------------------------------------------------------------------

/// `text` with every match of the regular expression `pattern` replaced by
/// the literal text `rep` (matches found left to right, without overlap, as
/// `Regex::replace_all` finds them); `None` when `pattern` is not a valid
/// regular expression.
pub uninterp spec fn regex_replaced(pattern: Seq<char>, text: Seq<char>, rep: Seq<char>) -> Option<Seq<char>>;

/// `Regex::new(pattern)`, then `replace_all(text, NoExpand(rep))`: every match
/// of `pattern` in `text` replaced by `rep` taken literally, named
/// `regex_replaced`; `None` when the pattern does not compile.
#[verifier::external_body]
fn regex_replace_all(pattern: &str, text: &str, rep: &str) -> (r: Option<String>)
    ensures
        match r {
            Some(t) => regex_replaced(pattern@, text@, rep@) == Some(t@),
            None => regex_replaced(pattern@, text@, rep@) is None,
        },
{
    match regex::Regex::new(pattern) {
        Ok(re) => Some(re.replace_all(text, regex::NoExpand(rep)).into_owned()),
        Err(_) => None,
    }
}

/// One redaction pass: the matches of `pattern` in `text` replaced by `rep`.
/// Both patterns used here compile; were one not to, the text would pass
/// unchanged.
pub open spec fn redact_pass(pattern: Seq<char>, text: Seq<char>, rep: Seq<char>) -> Seq<char> {
    match regex_replaced(pattern, text, rep) {
        Some(t) => t,
        None => text,
    }
}

fn redact_with(pattern: &str, text: &str, rep: &str) -> (r: String)
    ensures
        r@ == redact_pass(pattern@, text@, rep@),
{
    match regex_replace_all(pattern, text, rep) {
        Some(t) => t,
        None => text.to_owned(),
    }
}

pub const API_KEY_PATTERN: &'static str = r#""api_key"\s*:\s*"[^"]+""#;
pub const API_KEY_REDACTED: &'static str = r#""api_key": "REDACTED""#;
pub const TOKEN_PATTERN: &'static str = r#""token"\s*:\s*"[^"]+""#;
pub const TOKEN_REDACTED: &'static str = r#""token": "REDACTED""#;

/// Largest redacted message kept whole, in bytes.
pub const REDACT_MAX_BYTES: usize = 10240;

/// The message after both redaction passes, before truncation: every
/// `"api_key": "..."` and then every `"token": "..."` member, as the two
/// patterns match them, is replaced by its redacted form.
pub open spec fn redacted_spec(raw: Seq<char>) -> Seq<char> {
    redact_pass(TOKEN_PATTERN@, redact_pass(API_KEY_PATTERN@, raw, API_KEY_REDACTED@), TOKEN_REDACTED@)
}

/// Whether the 10KB cut of the redacted message `raw` can be made: the
/// message fits, or byte 10240 of it starts a character (the cut slices the
/// text there, which panics inside a character).
pub open spec fn redact_cut_ok(raw: Seq<char>) -> bool {
    encode_utf8(redacted_spec(raw)).len() > REDACT_MAX_BYTES ==> is_char_boundary(
        encode_utf8(redacted_spec(raw)),
        REDACT_MAX_BYTES as int,
    )
}

/// The stored form `r` of the message `raw`: the redacted message when it
/// fits in 10KB, and otherwise its first 10240 bytes followed by
/// `...(truncated N)`, N the number of bytes cut.
pub open spec fn redact_result_spec(raw: Seq<char>, r: Seq<char>) -> bool {
    &&& encode_utf8(redacted_spec(raw)).len() <= REDACT_MAX_BYTES ==> r == redacted_spec(raw)
    &&& encode_utf8(redacted_spec(raw)).len() > REDACT_MAX_BYTES ==> encode_utf8(r) == encode_utf8(
        redacted_spec(raw),
    ).take(REDACT_MAX_BYTES as int) + encode_utf8(
        "...(truncated "@ + decimal_spec((encode_utf8(redacted_spec(raw)).len() - REDACT_MAX_BYTES) as nat)
            + ")"@,
    )
}

fn redacted_text(raw: &str) -> (r: String)
    ensures
        r@ == redacted_spec(raw@),
{
    let step1 = redact_with(API_KEY_PATTERN, raw, API_KEY_REDACTED);
    redact_with(TOKEN_PATTERN, step1.as_str(), TOKEN_REDACTED)
}

fn truncate_redacted(redacted: String, raw: &str) -> (r: String)
    requires
        redacted@ == redacted_spec(raw@),
        redact_cut_ok(raw@),
    ensures
        redact_result_spec(raw@, r@),
{
    let text = redacted.as_str();
    let len = text.as_bytes().len();
    if len > REDACT_MAX_BYTES {
        let (head, _tail) = text.split_at(REDACT_MAX_BYTES);
        let mut r = head.to_owned();
        let ghost h = r@;
        r.append("...(truncated ");
        let n = u64_to_decimal((len - REDACT_MAX_BYTES) as u64);
        r.append(n.as_str());
        r.append(")");
        proof {
            let suffix = "...(truncated "@ + n@ + ")"@;
            assert(r@ =~= h + suffix);
            lemma_encode_concat(h, suffix);
        }
        r
    } else {
        redacted
    }
}

/// Redact sensitive content before storing it in the debug buffer, then
/// truncate it to 10KB: a longer message keeps its first 10240 bytes followed
/// by `...(truncated N)`, N the number of bytes cut. A message whose cut would
/// split a character is left out (slicing there panics); see
/// `try_redact_for_debug` for a form that takes every message.
pub fn redact_for_debug(raw: &str) -> (r: String)
    requires
        redact_cut_ok(raw@),
    ensures
        redact_result_spec(raw@, r@),
{
    let redacted = redacted_text(raw);
    truncate_redacted(redacted, raw)
}

/// `redact_for_debug` for every message: `None` exactly when the 10KB cut
/// of the redacted message would split a character.
pub fn try_redact_for_debug(raw: &str) -> (r: Option<String>)
    ensures
        match r {
            Some(t) => redact_cut_ok(raw@) && redact_result_spec(raw@, t@),
            None => !redact_cut_ok(raw@),
        },
{
    let redacted = redacted_text(raw);
    let text = redacted.as_str();
    if text.as_bytes().len() > REDACT_MAX_BYTES && !text.is_char_boundary(REDACT_MAX_BYTES) {
        return None;
    }
    Some(truncate_redacted(redacted, raw))
}

} // verus!
