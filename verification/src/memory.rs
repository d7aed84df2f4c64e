//! The bounded, ordered interaction memory: one entry per successfully
//! executed job, strict FIFO eviction once the configured capacity is
//! exceeded, insertion order equal to execution order.

use vstd::prelude::*;

use crate::jobs::{action_name_spec, job_target_spec, BrowserJob, JobView};
use crate::types::{BrowserError, MemoryOptions};

verus! {

/// One record of an executed job.
#[derive(Debug, Clone, PartialEq)]
pub struct MemoryEntry {
    pub timestamp: String,
    pub page_url: Option<String>,
    pub page_title: Option<String>,
    pub dom_snapshot: Option<String>,
    pub action: String,
    pub selector: Option<String>,
    pub job: BrowserJob,
}

/// Mathematical model of a memory entry.
pub struct MemoryEntryView {
    pub timestamp: Seq<char>,
    pub page_url: Option<Seq<char>>,
    pub page_title: Option<Seq<char>>,
    pub dom_snapshot: Option<Seq<char>>,
    pub action: Seq<char>,
    pub selector: Option<Seq<char>>,
    pub job: JobView,
}

impl View for MemoryEntry {
    type V = MemoryEntryView;

    open spec fn view(&self) -> MemoryEntryView {
        MemoryEntryView {
            timestamp: self.timestamp@,
            page_url: self.page_url.deep_view(),
            page_title: self.page_title.deep_view(),
            dom_snapshot: self.dom_snapshot.deep_view(),
            action: self.action@,
            selector: self.selector.deep_view(),
            job: self.job@,
        }
    }
}

/// Relies on chrono's `Local::now()` and `to_rfc3339`: a textual timestamp
/// of the local clock. Nothing is assumed of its value.
#[verifier::external_body]
fn now_rfc3339() -> String {
    chrono::Local::now().to_rfc3339()
}

impl MemoryEntry {
    /// Builds the record for a just-executed job: kind name and selector are
    /// read off the job, the timestamp is taken from the clock.
    pub fn new(job: &BrowserJob, page_url: Option<String>) -> (r: Self)
        ensures
            r@.action == action_name_spec(job@),
            r@.selector == Some(job_target_spec(job@)),
            r@.page_url == page_url.deep_view(),
            r@.page_title is None,
            r@.dom_snapshot is None,
            r@.job == job@,
    {
        let timestamp = now_rfc3339();
        let action = String::from_str(job.action_name());
        let selector = Some(job.target());
        Self {
            timestamp,
            page_url,
            page_title: None,
            dom_snapshot: None,
            action,
            selector,
            job: job.duplicate(),
        }
    }
}

/// What one `add` does to a history of entries under capacity `cap`: the
/// entry is appended, then the oldest entry leaves if the capacity is now
/// exceeded. An imported history longer than `cap` thus shrinks by at most
/// one entry per `add`; capacity is not re-validated retroactively.
pub open spec fn add_spec(h: Seq<MemoryEntryView>, e: MemoryEntryView, cap: nat) -> Seq<
    MemoryEntryView,
> {
    let appended = h.push(e);
    if appended.len() > cap {
        appended.drop_first()
    } else {
        appended
    }
}

/// The bounded interaction memory.
#[derive(Debug, Clone)]
pub struct AgentMemory {
    history: Vec<MemoryEntry>,
    options: MemoryOptions,
}

impl AgentMemory {
    /// The ordered entry models, oldest first.
    pub closed spec fn entries(&self) -> Seq<MemoryEntryView> {
        self.history@.map_values(|e: MemoryEntry| e@)
    }

    /// The configured capacity.
    pub closed spec fn capacity(&self) -> nat {
        self.options.max_entries as nat
    }

    pub fn new(options: MemoryOptions) -> (r: Self)
        ensures
            r.entries() =~= Seq::<MemoryEntryView>::empty(),
            r.capacity() == options.max_entries,
    {
        Self { history: Vec::new(), options }
    }

    /// Appends `entry`, then evicts the oldest entry if the capacity is
    /// exceeded.
    pub fn add(&mut self, entry: MemoryEntry)
        ensures
            final(self).entries() == add_spec(old(self).entries(), entry@, old(self).capacity()),
            final(self).capacity() == old(self).capacity(),
    {
        self.history.push(entry);
        if self.history.len() > self.options.max_entries {
            self.history.remove(0);
            proof {
                assert(self.entries() =~= old(self).entries().push(entry@).drop_first());
            }
        } else {
            proof {
                assert(self.entries() =~= old(self).entries().push(entry@));
            }
        }
    }

    /// The most recent entry, if any.
    pub fn last(&self) -> (r: Option<&MemoryEntry>)
        ensures
            match r {
                Some(e) => self.entries().len() > 0 && e@ == self.entries().last(),
                None => self.entries().len() == 0,
            },
    {
        self.history.last()
    }

    /// The `n` most recent entries, most recent first (all of them if fewer
    /// than `n` are held).
    pub fn last_n(&self, n: usize) -> (r: Vec<&MemoryEntry>)
        ensures
            r@.len() == if n <= self.entries().len() {
                n as int
            } else {
                self.entries().len() as int
            },
            forall|i: int|
                0 <= i < r@.len() ==> r@[i]@ == self.entries()[self.entries().len() - 1 - i],
    {
        let mut r: Vec<&MemoryEntry> = Vec::new();
        let len: usize = self.history.len();
        let count: usize = if n <= len {
            n
        } else {
            len
        };
        let mut i: usize = 0;
        while i < count
            invariant
                i <= count <= len,
                len == self.history@.len(),
                r@.len() == i,
                forall|j: int| 0 <= j < i ==> r@[j]@ == self.entries()[len - 1 - j],
            decreases count - i,
        {
            r.push(&self.history[len - 1 - i]);
            i = i + 1;
        }
        r
    }

    /// The full ordered history, oldest first.
    pub fn all(&self) -> (r: &Vec<MemoryEntry>)
        ensures
            r@.map_values(|e: MemoryEntry| e@) == self.entries(),
    {
        &self.history
    }

    /// Removes every entry; the capacity stays.
    pub fn clear(&mut self)
        ensures
            final(self).entries() =~= Seq::<MemoryEntryView>::empty(),
            final(self).capacity() == old(self).capacity(),
    {
        self.history.clear();
    }

    /// Writes the full ordered history in the crate's structured text
    /// encoding. Serialization cannot fail; the `Result` mirrors the
    /// persistence surface.
    pub fn to_json(&self) -> (r: Result<String, BrowserError>)
        ensures
            r matches Ok(s) && s@ == crate::codec::ser_history(self.entries()),
    {
        let mut out: Vec<char> = Vec::new();
        crate::codec::emit_history(&mut out, &self.history);
        Ok(crate::strutil::chars_to_string(&out))
    }

    /// Restores a memory from a serialized history, under the default
    /// capacity. A restored history longer than that capacity stands as it
    /// is; the bound is enforced again from the next `add` on.
    pub fn from_json(json: &str) -> (r: Result<Self, BrowserError>)
        ensures
            match crate::codec::history_of(json@) {
                Some(h) => r matches Ok(m) && m.entries() == h && m.capacity() == 50,
                None => r matches Err(e) && e matches BrowserError::MemoryError(_),
            },
    {
        let chars = crate::strutil::str_to_chars(json);
        match crate::codec::parse_history(&chars) {
            Some(history) => Ok(Self { history, options: MemoryOptions::default() }),
            None => Err(
                BrowserError::MemoryError(String::from_str("history text failed to parse")),
            ),
        }
    }
}

/// The history that results from adding the entries of `es`, in order, to a
/// memory whose history is `h`.
pub open spec fn add_all_spec(h: Seq<MemoryEntryView>, es: Seq<MemoryEntryView>, cap: nat) -> Seq<
    MemoryEntryView,
>
    decreases es.len(),
{
    if es.len() == 0 {
        h
    } else {
        add_all_spec(add_spec(h, es[0], cap), es.drop_first(), cap)
    }
}

/// Adding the entries of `es` and then one more is adding `es.push(e)`.
pub proof fn lemma_add_all_snoc(
    h: Seq<MemoryEntryView>,
    es: Seq<MemoryEntryView>,
    e: MemoryEntryView,
    cap: nat,
)
    ensures
        add_all_spec(h, es.push(e), cap) == add_spec(add_all_spec(h, es, cap), e, cap),
    decreases es.len(),
{
    let w = es.push(e);
    if es.len() == 0 {
        assert(w.drop_first() =~= Seq::<MemoryEntryView>::empty());
        assert(w[0] == e);
        assert(add_all_spec(h, w, cap) == add_all_spec(add_spec(h, e, cap), w.drop_first(), cap));
        assert(add_all_spec(add_spec(h, e, cap), w.drop_first(), cap) == add_spec(h, e, cap));
        assert(add_all_spec(h, es, cap) == h);
    } else {
        assert(w.drop_first() =~= es.drop_first().push(e));
        assert(w[0] == es[0]);
        lemma_add_all_snoc(add_spec(h, es[0], cap), es.drop_first(), e, cap);
        assert(add_all_spec(h, w, cap) == add_all_spec(
            add_spec(h, es[0], cap),
            w.drop_first(),
            cap,
        ));
        assert(add_all_spec(h, es, cap) == add_all_spec(
            add_spec(h, es[0], cap),
            es.drop_first(),
            cap,
        ));
    }
}

/// Law: adding `N <= cap` entries to an empty memory yields exactly those
/// entries, in insertion order, with nothing evicted.
pub proof fn lemma_fill_within_capacity(es: Seq<MemoryEntryView>, cap: nat)
    requires
        es.len() <= cap,
    ensures
        add_all_spec(Seq::empty(), es, cap) == es,
{
    lemma_fill_general(Seq::empty(), es, cap);
    assert(Seq::<MemoryEntryView>::empty() + es =~= es);
}

/// Law: at capacity, one more `add` evicts exactly the oldest entry and
/// appends the new one.
pub proof fn lemma_add_at_capacity(h: Seq<MemoryEntryView>, e: MemoryEntryView, cap: nat)
    requires
        h.len() == cap,
        cap > 0,
    ensures
        add_spec(h, e, cap) == h.drop_first().push(e),
{
    assert(add_spec(h, e, cap) =~= h.drop_first().push(e));
}

/// Adding entries never evicts while the history stays within capacity.
proof fn lemma_fill_general(h: Seq<MemoryEntryView>, es: Seq<MemoryEntryView>, cap: nat)
    requires
        h.len() + es.len() <= cap,
    ensures
        add_all_spec(h, es, cap) == h + es,
    decreases es.len(),
{
    if es.len() == 0 {
        assert(h + es =~= h);
    } else {
        assert(add_spec(h, es[0], cap) == h.push(es[0]));
        lemma_fill_general(h.push(es[0]), es.drop_first(), cap);
        assert(h.push(es[0]) + es.drop_first() =~= h + es);
    }
}

} // verus!
