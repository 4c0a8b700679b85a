//! The bounded store of hidden debug details, updated in place by stable id.
use vstd::prelude::*;
use crate::presentation::TuiCellId;
use crate::seqs::{first_index, lemma_first_index, lemma_first_index_at, lemma_first_index_none};
use crate::text::{decimal, owned, push_decimal, push_str, str_eq};

verus! {

pub const MAX_DEBUG_ENTRIES: usize = 200;

/// One stored debug detail: its number, the cell it came from, and its
/// label and text as stored.
#[derive(Debug)]
pub struct DebugEntry {
    pub id: usize,
    pub stable_id: TuiCellId,
    pub label: String,
    pub detail: String,
}

/// The newest debug details, at most `MAX_DEBUG_ENTRIES` of them, whether
/// they are shown, and how many distinct details were hidden so far.
#[derive(Debug)]
pub struct DebugBuffer {
    enabled: bool,
    entries: Vec<DebugEntry>,
    next_id: usize,
    hidden_count: usize,
}

pub open spec fn from_cell(id: Seq<char>) -> spec_fn(DebugEntry) -> bool {
    |e: DebugEntry| e.stable_id.0@ == id
}

pub open spec fn numbered(id: usize) -> spec_fn(DebugEntry) -> bool {
    |e: DebugEntry| e.id == id
}

/// The newest `MAX_DEBUG_ENTRIES` entries.
pub open spec fn newest(s: Seq<DebugEntry>) -> Seq<DebugEntry> {
    if s.len() > MAX_DEBUG_ENTRIES {
        s.skip(s.len() - MAX_DEBUG_ENTRIES)
    } else {
        s
    }
}

pub open spec fn sat_inc(n: usize) -> usize {
    if n < usize::MAX {
        (n + 1) as usize
    } else {
        n
    }
}

impl DebugBuffer {
    pub closed spec fn is_enabled(&self) -> bool {
        self.enabled
    }

    pub closed spec fn stored(&self) -> Seq<DebugEntry> {
        self.entries@
    }

    pub closed spec fn next_number(&self) -> usize {
        self.next_id
    }

    pub closed spec fn hidden(&self) -> usize {
        self.hidden_count
    }

    /// An empty buffer, shown or not; numbering starts at one.
    pub fn new(enabled: bool) -> (r: Self)
        ensures
            r.is_enabled() == enabled,
            r.stored().len() == 0,
            r.next_number() == 1,
            r.hidden() == 0,
    {
        DebugBuffer { enabled, entries: Vec::new(), next_id: 1, hidden_count: 0 }
    }

    pub fn enabled(&self) -> (r: bool)
        ensures
            r == self.is_enabled(),
    {
        self.enabled
    }

    pub fn set_enabled(&mut self, enabled: bool)
        ensures
            final(self).is_enabled() == enabled,
            final(self).stored() == old(self).stored(),
            final(self).next_number() == old(self).next_number(),
            final(self).hidden() == old(self).hidden(),
    {
        self.enabled = enabled;
    }

    /// Stores a detail of the cell `stable_id` and gives its number. A cell
    /// that has an entry has it replaced in place, under its number, and
    /// counts no new hidden detail; any other cell gets the next number and
    /// the oldest entries beyond the bound are dropped. The label and detail
    /// are stored as given: redacting secrets and bounding their length is
    /// the caller's part, done before they reach the buffer.
    pub fn add(&mut self, stable_id: TuiCellId, label: String, detail: String) -> (r: usize)
        ensures
            ({
                let s = old(self).stored();
                let j = first_index(s, from_cell(stable_id.0@));
                &&& final(self).is_enabled() == old(self).is_enabled()
                &&& s.len() <= MAX_DEBUG_ENTRIES ==> final(self).stored().len() <= MAX_DEBUG_ENTRIES
                &&& if j >= 0 {
                    &&& r == s[j].id
                    &&& final(self).stored() == s.update(
                        j,
                        DebugEntry { label, detail, ..s[j] },
                    )
                    &&& final(self).next_number() == old(self).next_number()
                    &&& final(self).hidden() == old(self).hidden()
                } else {
                    &&& r == old(self).next_number()
                    &&& final(self).stored() == newest(
                        s.push(DebugEntry { id: r, stable_id, label, detail }),
                    )
                    &&& final(self).next_number() == sat_inc(old(self).next_number())
                    &&& final(self).hidden() == sat_inc(old(self).hidden())
                }
            }),
    {
        let ghost p = from_cell(stable_id.0@);
        proof {
            lemma_first_index(self.entries@, p);
        }
        let mut i: usize = 0;
        while i < self.entries.len()
            invariant
                i <= self.entries@.len(),
                p == from_cell(stable_id.0@),
                *self == *old(self),
                forall|k: int| 0 <= k < i ==> !p(#[trigger] self.entries@[k]),
            decreases self.entries@.len() - i,
        {
            if str_eq(self.entries[i].stable_id.as_str(), stable_id.as_str()) {
                proof {
                    lemma_first_index_at(self.entries@, p, i as int);
                }
                let id = self.entries[i].id;
                let old_entry = self.entries.remove(i);
                let entry = DebugEntry { id, stable_id: old_entry.stable_id, label, detail };
                let ghost e = entry;
                self.entries.insert(i, entry);
                assert(self.entries@ =~= old(self).entries@.update(i as int, e));
                return id;
            }
            i = i + 1;
        }
        proof {
            lemma_first_index_none(self.entries@, p);
        }
        let id = self.next_id;
        self.next_id = self.next_id.saturating_add(1);
        self.hidden_count = self.hidden_count.saturating_add(1);
        self.entries.push(DebugEntry { id, stable_id, label, detail });
        let ghost full = self.entries@;
        let ghost pushed = *self;
        assert(full == old(self).entries@.push(DebugEntry { id, stable_id, label, detail }));
        if self.entries.len() > MAX_DEBUG_ENTRIES {
            let overflow = self.entries.len() - MAX_DEBUG_ENTRIES;
            let mut k: usize = 0;
            while k < overflow
                invariant
                    full.len() > MAX_DEBUG_ENTRIES,
                    overflow == full.len() - MAX_DEBUG_ENTRIES,
                    k <= overflow,
                    self.entries@ == full.skip(k as int),
                self.enabled == pushed.enabled,
                self.next_id == pushed.next_id,
                self.hidden_count == pushed.hidden_count,
                decreases overflow - k,
            {
                self.entries.remove(0);
                assert(full.skip(k as int).skip(1) =~= full.skip(k + 1));
                k = k + 1;
            }
        }
        id
    }

    /// The entry numbered `id`, if it is still stored.
    pub fn get(&self, id: usize) -> (r: Option<&DebugEntry>)
        ensures
            ({
                let j = first_index(self.stored(), numbered(id));
                if j >= 0 {
                    r == Some(&self.stored()[j])
                } else {
                    r is None
                }
            }),
    {
        let ghost p = numbered(id);
        let mut i: usize = 0;
        while i < self.entries.len()
            invariant
                i <= self.entries@.len(),
                p == numbered(id),
                forall|k: int| 0 <= k < i ==> !p(#[trigger] self.entries@[k]),
            decreases self.entries@.len() - i,
        {
            if self.entries[i].id == id {
                proof {
                    lemma_first_index_at(self.entries@, p, i as int);
                }
                return Some(&self.entries[i]);
            }
            i = i + 1;
        }
        proof {
            lemma_first_index_none(self.entries@, p);
        }
        None
    }

    /// The newest entry, if any.
    pub fn latest(&self) -> (r: Option<&DebugEntry>)
        ensures
            if self.stored().len() > 0 {
                r == Some(&self.stored().last())
            } else {
                r is None
            },
    {
        if self.entries.len() > 0 {
            Some(&self.entries[self.entries.len() - 1])
        } else {
            None
        }
    }

    /// `debug=on hidden=<n>` or `debug=off hidden=<n>`.
    pub fn status(&self) -> (r: String)
        ensures
            r@ == "debug="@ + (if self.is_enabled() {
                "on"@
            } else {
                "off"@
            }) + " hidden="@ + decimal(self.hidden() as nat),
    {
        let mut s = owned("debug=");
        if self.enabled {
            push_str(&mut s, "on");
        } else {
            push_str(&mut s, "off");
        }
        push_str(&mut s, " hidden=");
        push_decimal(&mut s, self.hidden_count);
        s
    }
}

} // verus!
