//! The audit log: an append-only, order-preserving record of every policy
//! decision. Entries are only copied out, never handed out by reference, and
//! nothing but the explicit bulk clear ever removes one.

use vstd::prelude::*;

use crate::text::str_eq;
use crate::types::AuditEntryView;
use crate::types::AuditLogEntry;
use crate::types::clone_opt_string;
use crate::types::opt_str_view;

verus! {

/// Relies on `chrono::Utc::now` and `chrono::DateTime::timestamp_millis` for
/// the current wall-clock time in milliseconds since the Unix epoch; nothing
/// is assumed of the returned value.
#[verifier::external_body]
fn now_unix_millis() -> i64 {
    chrono::Utc::now().timestamp_millis()
}

/// One append: the log grows by exactly one entry, the existing prefix is
/// unchanged, and the new entry carries the given fields, an `id` equal to
/// its position, and whatever timestamp the clock gave.
pub open spec fn record_step(
    pre: Seq<AuditEntryView>,
    post: Seq<AuditEntryView>,
    llm_id: Option<Seq<char>>,
    action: Seq<char>,
    details: Seq<char>,
    approved: bool,
    reason: Option<Seq<char>>,
) -> bool {
    &&& post.len() == pre.len() + 1
    &&& post.subrange(0, pre.len() as int) == pre
    &&& post.last().id == pre.len()
    &&& post.last().llm_id == llm_id
    &&& post.last().action == action
    &&& post.last().details == details
    &&& post.last().approved == approved
    &&& post.last().reason == reason
}

/// An entry is attributed to the given actor.
pub open spec fn entry_is_by(e: AuditEntryView, id: Seq<char>) -> bool {
    e.llm_id == Some(id)
}

/// The entries among the first `n` attributed to the actor, in log order.
pub open spec fn by_actor_upto(s: Seq<AuditEntryView>, id: Seq<char>, n: int) -> Seq<
    AuditEntryView,
>
    decreases n,
{
    if n <= 0 {
        Seq::empty()
    } else {
        by_actor_upto(s, id, n - 1) + if entry_is_by(s[n - 1], id) {
            seq![s[n - 1]]
        } else {
            Seq::empty()
        }
    }
}

/// The actor's entries, the subsequence of the log with that actor id.
pub open spec fn by_actor_view(s: Seq<AuditEntryView>, id: Seq<char>) -> Seq<AuditEntryView> {
    by_actor_upto(s, id, s.len() as int)
}

/// The denied entries among the first `n`, in log order.
pub open spec fn denied_upto(s: Seq<AuditEntryView>, n: int) -> Seq<AuditEntryView>
    decreases n,
{
    if n <= 0 {
        Seq::empty()
    } else {
        denied_upto(s, n - 1) + if !s[n - 1].approved {
            seq![s[n - 1]]
        } else {
            Seq::empty()
        }
    }
}

/// The denied entries, the subsequence of the log with `approved == false`.
pub open spec fn denied_view(s: Seq<AuditEntryView>) -> Seq<AuditEntryView> {
    denied_upto(s, s.len() as int)
}

/// Appends an entry to a list, extending the list's view by the entry's.
fn push_entry(v: &mut Vec<AuditLogEntry>, e: AuditLogEntry)
    ensures
        final(v).deep_view() == old(v).deep_view().push(e@),
{
    let ghost eview = e@;
    v.push(e);
    proof {
        let dv = v.deep_view();
        let odv = old(v).deep_view();
        assert(forall|j: int| 0 <= j < odv.len() ==> dv[j] == odv[j]);
        assert(dv[odv.len() as int] == eview);
        assert(dv =~= odv.push(eview));
    }
}

/// Whether an optional actor id equals the given actor.
fn opt_actor_eq(o: &Option<String>, id: &str) -> (r: bool)
    ensures
        r == (opt_str_view(*o) == Some(id@)),
{
    match o {
        Some(v) => str_eq(v.as_str(), id),
        None => false,
    }
}

/// The arguments of one `record` call, as mathematical values.
pub ghost struct RecordCall {
    pub llm_id: Option<Seq<char>>,
    pub action: Seq<char>,
    pub details: Seq<char>,
    pub approved: bool,
    pub reason: Option<Seq<char>>,
}

/// The logs form a chain of appends: each consecutive pair is related by
/// `record_step` with the corresponding call's arguments.
pub open spec fn record_chain(logs: Seq<Seq<AuditEntryView>>, calls: Seq<RecordCall>) -> bool {
    &&& logs.len() == calls.len() + 1
    &&& forall|i: int|
        0 <= i < calls.len() ==> record_step(
            logs[i],
            logs[i + 1],
            (#[trigger] calls[i]).llm_id,
            calls[i].action,
            calls[i].details,
            calls[i].approved,
            calls[i].reason,
        )
}

/// The audit log is append-only and order-preserving: after any sequence of
/// `record` calls, the initial log is an unchanged prefix of the final log,
/// and the new entries stand after it in call order, each carrying its
/// call's fields.
pub proof fn lemma_audit_append_only(logs: Seq<Seq<AuditEntryView>>, calls: Seq<RecordCall>)
    requires
        record_chain(logs, calls),
    ensures
        logs.last().len() == logs[0].len() + calls.len(),
        logs.last().subrange(0, logs[0].len() as int) == logs[0],
        forall|i: int|
            0 <= i < calls.len() ==> {
                let e = logs.last()[logs[0].len() + i];
                &&& e.llm_id == (#[trigger] calls[i]).llm_id
                &&& e.action == calls[i].action
                &&& e.details == calls[i].details
                &&& e.approved == calls[i].approved
                &&& e.reason == calls[i].reason
            },
    decreases calls.len(),
{
    if calls.len() > 0 {
        let shorter = logs.drop_last();
        let fewer = calls.drop_last();
        assert(record_chain(shorter, fewer)) by {
            assert(forall|i: int| 0 <= i < shorter.len() ==> shorter[i] == logs[i]);
            assert(forall|i: int| 0 <= i < fewer.len() ==> fewer[i] == calls[i]);
        }
        lemma_audit_append_only(shorter, fewer);
        let prev = shorter.last();
        let last = logs.last();
        assert(prev == logs[logs.len() - 2]);
        assert(record_step(
            logs[calls.len() - 1],
            logs[calls.len() - 1 + 1],
            calls[calls.len() - 1].llm_id,
            calls[calls.len() - 1].action,
            calls[calls.len() - 1].details,
            calls[calls.len() - 1].approved,
            calls[calls.len() - 1].reason,
        ));
        assert(last.subrange(0, prev.len() as int) == prev);
        assert(last.subrange(0, logs[0].len() as int) =~= prev.subrange(
            0,
            logs[0].len() as int,
        ));
        assert forall|i: int|
            0 <= i < calls.len() implies {
            let e = last[logs[0].len() + i];
            &&& e.llm_id == (#[trigger] calls[i]).llm_id
            &&& e.action == calls[i].action
            &&& e.details == calls[i].details
            &&& e.approved == calls[i].approved
            &&& e.reason == calls[i].reason
        } by {
            if i < calls.len() - 1 {
                assert(fewer[i] == calls[i]);
                assert(last[logs[0].len() + i] == last.subrange(0, prev.len() as int)[logs[0].len()
                    + i]);
                assert(last[logs[0].len() + i] == prev[logs[0].len() + i]);
            } else {
                assert(last[logs[0].len() + i] == last.last());
            }
        }
    } else {
        assert(logs.last() == logs[0]);
        assert(logs.last().subrange(0, logs[0].len() as int) =~= logs[0]);
    }
}

/// The audit logger; owns the only copy of the log.
pub struct AuditLogger {
    pub entries: Vec<AuditLogEntry>,
}

impl AuditLogger {
    /// Every entry's `id` is its position in the log.
    pub open spec fn wf(self) -> bool {
        forall|i: int|
            0 <= i < self.entries.deep_view().len() ==> (#[trigger] self.entries.deep_view()[
                i
            ]).id == i
    }

    /// The log's content.
    pub open spec fn log_view(self) -> Seq<AuditEntryView> {
        self.entries.deep_view()
    }

    /// An empty log.
    pub fn new() -> (l: Self)
        ensures
            l.wf(),
            l.log_view().len() == 0,
    {
        AuditLogger { entries: Vec::new() }
    }

    /// Appends one entry with a fresh unique id (its position) and the
    /// current timestamp; never rejects a well-formed call.
    pub fn log(
        &mut self,
        llm_id: Option<String>,
        action: String,
        details: String,
        approved: bool,
        reason: Option<String>,
    )
        requires
            old(self).wf(),
        ensures
            final(self).wf(),
            record_step(
                old(self).log_view(),
                final(self).log_view(),
                opt_str_view(llm_id),
                action@,
                details@,
                approved,
                opt_str_view(reason),
            ),
    {
        let timestamp = now_unix_millis();
        let entry = AuditLogEntry {
            id: self.entries.len(),
            timestamp,
            llm_id,
            action,
            details,
            approved,
            reason,
        };
        let ghost eview = entry@;
        self.entries.push(entry);
        proof {
            let dv = self.entries.deep_view();
            let odv = old(self).entries.deep_view();
            assert(forall|j: int| 0 <= j < odv.len() ==> dv[j] == odv[j]);
            assert(dv[odv.len() as int] == eview);
            assert(dv.subrange(0, odv.len() as int) =~= odv);
        }
    }

    /// A copy of the whole log, in insertion order.
    pub fn get_all(&self) -> (r: Vec<AuditLogEntry>)
        ensures
            r.deep_view() == self.log_view(),
    {
        let n = self.entries.len();
        let mut r: Vec<AuditLogEntry> = Vec::new();
        let mut i: usize = 0;
        while i < n
            invariant
                n == self.entries@.len(),
                i <= n,
                r.deep_view() == self.entries.deep_view().subrange(0, i as int),
            decreases n - i,
        {
            let ghost dv = self.entries.deep_view();
            let e = self.entries[i].clone();
            push_entry(&mut r, e);
            proof {
                assert(dv[i as int] == self.entries@[i as int]@);
                assert(dv.subrange(0, i as int).push(dv[i as int]) =~= dv.subrange(0, i + 1));
            }
            i += 1;
        }
        proof {
            assert(self.entries.deep_view().subrange(0, n as int) =~= self.entries.deep_view());
        }
        r
    }

    /// The entries attributed to one actor, in insertion order.
    pub fn get_by_llm(&self, llm_id: &str) -> (r: Vec<AuditLogEntry>)
        ensures
            r.deep_view() == by_actor_view(self.log_view(), llm_id@),
    {
        let n = self.entries.len();
        let mut r: Vec<AuditLogEntry> = Vec::new();
        let mut i: usize = 0;
        while i < n
            invariant
                n == self.entries@.len(),
                i <= n,
                r.deep_view() == by_actor_upto(self.entries.deep_view(), llm_id@, i as int),
            decreases n - i,
        {
            let ghost dv = self.entries.deep_view();
            let matches_actor = opt_actor_eq(&self.entries[i].llm_id, llm_id);
            proof {
                assert(dv[i as int] == self.entries@[i as int]@);
                assert(matches_actor == entry_is_by(dv[i as int], llm_id@));
            }
            if matches_actor {
                let copy = self.entries[i].clone();
                push_entry(&mut r, copy);
                proof {
                    assert(r.deep_view() =~= by_actor_upto(dv, llm_id@, i + 1));
                }
            } else {
                proof {
                    assert(r.deep_view() =~= by_actor_upto(dv, llm_id@, i + 1));
                }
            }
            i += 1;
        }
        r
    }

    /// The denied entries (`approved == false`), in insertion order.
    pub fn get_denied(&self) -> (r: Vec<AuditLogEntry>)
        ensures
            r.deep_view() == denied_view(self.log_view()),
    {
        let n = self.entries.len();
        let mut r: Vec<AuditLogEntry> = Vec::new();
        let mut i: usize = 0;
        while i < n
            invariant
                n == self.entries@.len(),
                i <= n,
                r.deep_view() == denied_upto(self.entries.deep_view(), i as int),
            decreases n - i,
        {
            let ghost dv = self.entries.deep_view();
            let keeps = !self.entries[i].approved;
            proof {
                assert(dv[i as int] == self.entries@[i as int]@);
            }
            if keeps {
                let copy = self.entries[i].clone();
                push_entry(&mut r, copy);
                proof {
                    assert(r.deep_view() =~= denied_upto(dv, i + 1));
                }
            } else {
                proof {
                    assert(r.deep_view() =~= denied_upto(dv, i + 1));
                }
            }
            i += 1;
        }
        r
    }

    /// Destructively clears the whole log.
    pub fn clear(&mut self)
        ensures
            final(self).wf(),
            final(self).log_view().len() == 0,
    {
        self.entries.clear();
    }

    /// The number of entries.
    pub fn count(&self) -> (n: usize)
        ensures
            n == self.log_view().len(),
    {
        self.entries.len()
    }
}

impl Default for AuditLogger {
    fn default() -> (l: Self)
        ensures
            l.wf(),
            l.log_view().len() == 0,
    {
        AuditLogger::new()
    }
}

} // verus!
