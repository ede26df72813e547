use vstd::prelude::*;

use crate::config::Config;
use crate::entry::{Address, Entry, Quantity, ScaleFactorBits};
use crate::error::ConfigurationError;

verus! {

/// Entries sorted ascending by address, word ranges pairwise disjoint:
/// each entry's range ends at or before the next entry's address.
pub open spec fn entries_sorted_disjoint(s: Seq<Entry>) -> bool {
    forall|i: int| 0 <= i < s.len() - 1 ==> #[trigger] s[i].spec_end() <= s[i + 1].addr
}

/// Every entry's word range stays inside the 16-bit address space.
pub open spec fn entries_wf(s: Seq<Entry>) -> bool {
    forall|i: int| 0 <= i < s.len() ==> (#[trigger] s[i]).wf()
}

/// Words spanned by a sorted run of entries: from the first entry's
/// address to one past the last entry's range; zero when empty.
pub open spec fn spec_span(s: Seq<Entry>) -> int {
    if s.len() == 0 {
        0
    } else {
        s.last().spec_end() - s.first().addr
    }
}

/// Every two address-adjacent members of the run touch: no unmapped
/// register lies between them.
pub open spec fn entries_contiguous(s: Seq<Entry>) -> bool {
    forall|i: int| 0 <= i < s.len() - 1 ==> #[trigger] s[i].spec_end() == s[i + 1].addr
}

/// The entries of a sequence of block mappings, concatenated in order.
pub open spec fn blocks_entries(blocks: Seq<Mapping>) -> Seq<Entry>
    decreases blocks.len(),
{
    if blocks.len() == 0 {
        Seq::empty()
    } else {
        blocks_entries(blocks.drop_last()) + blocks.last().0@
    }
}

/// In a sorted, disjoint run the addresses grow with the index.
pub proof fn lemma_addr_monotone(s: Seq<Entry>, i: int, j: int)
    requires
        entries_sorted_disjoint(s),
        0 <= i <= j < s.len(),
    ensures
        s[i].addr <= s[j].addr,
    decreases j - i,
{
    if i < j {
        lemma_addr_monotone(s, i, j - 1);
        assert(s[j - 1].spec_end() <= s[j].addr);
    }
}

/// In a sorted, disjoint run the range ends grow with the index.
pub proof fn lemma_end_monotone(s: Seq<Entry>, i: int, j: int)
    requires
        entries_sorted_disjoint(s),
        0 <= i <= j < s.len(),
    ensures
        s[i].spec_end() <= s[j].spec_end(),
    decreases j - i,
{
    if i < j {
        assert(s[i].spec_end() <= s[i + 1].addr);
        lemma_end_monotone(s, i + 1, j);
    }
}

/// Ordered collection of register mapping entries.
#[derive(Debug, PartialEq, Eq)]
pub struct Mapping(pub Vec<Entry>);

impl Mapping {
    /// The construction-time invariant: entries sorted ascending by
    /// address, word ranges disjoint and inside the 16-bit address space.
    pub open spec fn wf(self) -> bool {
        entries_sorted_disjoint(self.0@) && entries_wf(self.0@)
    }

    /// Builds a mapping from an ordered descriptor list, enforcing the
    /// invariant defensively: an out-of-range entry, an unsorted pair or
    /// an overlapping pair is a configuration error, never repaired.
    pub fn new(entries: Vec<Entry>) -> (r: Result<Mapping, ConfigurationError>)
        ensures
            r matches Ok(m) ==> m.0@ == entries@ && m.wf(),
            r is Ok <==> entries_sorted_disjoint(entries@) && entries_wf(entries@),
            entries_wf(entries@) && r is Err ==> ({
                &&& r matches Err(e)
                &&& e matches ConfigurationError::NotSortedOrOverlapping { index }
                &&& 1 <= index < entries@.len()
                &&& !(entries@[index - 1].spec_end() <= entries@[index as int].addr)
            }),
    {
        let n = entries.len();
        let mut i: usize = 0;
        while i < n
            invariant
                n == entries@.len(),
                i <= n,
                forall|k: int| 0 <= k < i ==> (#[trigger] entries@[k]).wf(),
            decreases n - i,
        {
            let size: Quantity = entries[i].ty.word_size();
            if entries[i].addr as u32 + size as u32 > u16::MAX as u32 {
                return Err(
                    ConfigurationError::AddressRangeTooLarge {
                        name: entries[i].field_name.clone(),
                    },
                );
            }
            i += 1;
        }
        let mut i: usize = 1;
        while i < n
            invariant
                n == entries@.len(),
                1 <= i || n == 0,
                i <= n + 1,
                entries_wf(entries@),
                forall|k: int| 0 <= k < i - 1 ==> #[trigger] entries@[k].spec_end() <= entries@[k
                    + 1].addr,
            decreases n - i,
        {
            let prev_size: Quantity = entries[i - 1].ty.word_size();
            if entries[i - 1].addr as u32 + prev_size as u32 > entries[i].addr as u32 {
                return Err(ConfigurationError::NotSortedOrOverlapping { index: i });
            }
            i += 1;
        }
        Ok(Mapping(entries))
    }

    /// Decides the construction-time invariant at run time, for callers
    /// holding a mapping whose provenance they cannot trust.
    pub fn is_wf(&self) -> (r: bool)
        ensures
            r == self.wf(),
    {
        let n = self.0.len();
        let mut i: usize = 0;
        while i < n
            invariant
                n == self.0@.len(),
                i <= n,
                forall|k: int| 0 <= k < i ==> (#[trigger] self.0@[k]).wf(),
            decreases n - i,
        {
            let size: Quantity = self.0[i].ty.word_size();
            if self.0[i].addr as u32 + size as u32 > u16::MAX as u32 {
                return false;
            }
            i += 1;
        }
        let mut i: usize = 1;
        while i < n
            invariant
                n == self.0@.len(),
                1 <= i || n == 0,
                i <= n + 1,
                entries_wf(self.0@),
                forall|k: int| 0 <= k < i - 1 ==> #[trigger] self.0@[k].spec_end() <= self.0@[k
                    + 1].addr,
            decreases n - i,
        {
            let prev_size: Quantity = self.0[i - 1].ty.word_size();
            if self.0[i - 1].addr as u32 + prev_size as u32 > self.0[i].addr as u32 {
                return false;
            }
            i += 1;
        }
        true
    }

    /// Addresses of all entries, in order.
    pub fn addr_vec(&self) -> (r: Vec<Address>)
        ensures
            r@ == self.0@.map_values(|e: Entry| e.addr),
    {
        let mut r: Vec<Address> = Vec::new();
        let n = self.0.len();
        let mut i: usize = 0;
        while i < n
            invariant
                n == self.0@.len(),
                i <= n,
                r@ == self.0@.take(i as int).map_values(|e: Entry| e.addr),
            decreases n - i,
        {
            r.push(self.0[i].addr);
            proof {
                assert(self.0@.take(i + 1).map_values(|e: Entry| e.addr) =~= self.0@.take(
                    i as int,
                ).map_values(|e: Entry| e.addr).push(self.0@[i as int].addr));
            }
            i += 1;
        }
        proof {
            assert(self.0@.take(n as int) =~= self.0@);
        }
        r
    }

    /// Register counts of all entries, in order.
    pub fn cnt_vec(&self) -> (r: Vec<Quantity>)
        ensures
            r@ == self.0@.map_values(|e: Entry| e.ty.spec_word_size()),
    {
        let mut r: Vec<Quantity> = Vec::new();
        let n = self.0.len();
        let mut i: usize = 0;
        while i < n
            invariant
                n == self.0@.len(),
                i <= n,
                r@ == self.0@.take(i as int).map_values(|e: Entry| e.ty.spec_word_size()),
            decreases n - i,
        {
            r.push(self.0[i].ty.word_size());
            proof {
                assert(self.0@.take(i + 1).map_values(|e: Entry| e.ty.spec_word_size())
                    =~= self.0@.take(i as int).map_values(|e: Entry| e.ty.spec_word_size()).push(
                    self.0@[i as int].ty.spec_word_size(),
                ));
            }
            i += 1;
        }
        proof {
            assert(self.0@.take(n as int) =~= self.0@);
        }
        r
    }

    /// Scale factor bit patterns of all entries, in order.
    pub fn x_vec(&self) -> (r: Vec<ScaleFactorBits>)
        ensures
            r@ == self.0@.map_values(|e: Entry| e.x),
    {
        let mut r: Vec<ScaleFactorBits> = Vec::new();
        let n = self.0.len();
        let mut i: usize = 0;
        while i < n
            invariant
                n == self.0@.len(),
                i <= n,
                r@ == self.0@.take(i as int).map_values(|e: Entry| e.x),
            decreases n - i,
        {
            r.push(self.0[i].x);
            proof {
                assert(self.0@.take(i + 1).map_values(|e: Entry| e.x) =~= self.0@.take(
                    i as int,
                ).map_values(|e: Entry| e.x).push(self.0@[i as int].x));
            }
            i += 1;
        }
        proof {
            assert(self.0@.take(n as int) =~= self.0@);
        }
        r
    }

    /// The half-open register range the mapping covers: the first entry's
    /// address up to one past the last entry's range; `(0, 0)` when empty.
    pub fn register_range(&self) -> (r: (Address, Address))
        requires
            self.wf(),
        ensures
            self.0@.len() == 0 ==> r == (0u16, 0u16),
            self.0@.len() > 0 ==> r.0 == self.0@.first().addr && r.1 == self.0@.last().spec_end(),
    {
        let n = self.0.len();
        if n == 0 {
            (0, 0)
        } else {
            proof {
                assert(self.0@[n - 1].wf());
            }
            let end: u16 = self.0[n - 1].addr + self.0[n - 1].ty.word_size();
            (self.0[0].addr, end)
        }
    }

    /// Splits the mapping into maximal blocks, scanning in address order:
    /// a descriptor joins the current block exactly when the grown block's
    /// span stays within `max_cnt_per_request` and the descriptor either
    /// touches the block's end or gaps are allowed; otherwise it starts a
    /// new block. An empty mapping yields one empty block.
    ///
    /// The blocks partition the mapping exactly: no entry is lost,
    /// duplicated or reordered. Every block of two or more entries spans
    /// at most `max_cnt_per_request` words; when every entry's own word
    /// size is within that ceiling, so does every block. With gaps
    /// disallowed, consecutive members of one block are address-adjacent.
    #[verifier::rlimit(60)]
    pub fn split_into_block_mappings(self, config: &Config) -> (blocks: Vec<Mapping>)
        requires
            self.wf(),
        ensures
            blocks_entries(blocks@) == self.0@,
            blocks@.len() >= 1,
            forall|i: int| 0 <= i < blocks@.len() ==> (#[trigger] blocks@[i]).wf(),
            self.0@.len() > 0 ==> forall|i: int|
                0 <= i < blocks@.len() ==> (#[trigger] blocks@[i]).0@.len() > 0,
            self.0@.len() == 0 ==> blocks@.len() == 1 && blocks@[0].0@.len() == 0,
            forall|i: int|
                0 <= i < blocks@.len() && (#[trigger] blocks@[i]).0@.len() >= 2 ==> spec_span(
                    blocks@[i].0@,
                ) <= config.max_cnt_per_request,
            (forall|k: int|
                0 <= k < self.0@.len() ==> (#[trigger] self.0@[k]).ty.spec_word_size()
                    <= config.max_cnt_per_request) ==> forall|i: int|
                0 <= i < blocks@.len() ==> spec_span((#[trigger] blocks@[i]).0@)
                    <= config.max_cnt_per_request,
            !config.allow_register_gaps ==> forall|i: int|
                0 <= i < blocks@.len() ==> entries_contiguous((#[trigger] blocks@[i]).0@),
    {
        let ghost all = self.0@;
        let ghost small = forall|k: int|
            0 <= k < all.len() ==> (#[trigger] all[k]).ty.spec_word_size()
                <= config.max_cnt_per_request;
        let mut block_mappings: Vec<Mapping> = Vec::new();
        let mut entries: Vec<Entry> = Vec::new();
        let ghost mut start: int = 0;
        let n = self.0.len();
        let mut idx: usize = 0;
        while idx < n
            invariant
                n == all.len(),
                all == self.0@,
                entries_sorted_disjoint(all),
                entries_wf(all),
                small == (forall|k: int|
                    0 <= k < all.len() ==> (#[trigger] all[k]).ty.spec_word_size()
                        <= config.max_cnt_per_request),
                idx <= n,
                0 <= start <= idx,
                idx > 0 ==> start < idx,
                idx == 0 ==> start == 0 && block_mappings@.len() == 0,
                entries@ == all.subrange(start, idx as int),
                blocks_entries(block_mappings@) == all.subrange(0, start),
                forall|i: int| 0 <= i < block_mappings@.len() ==> (#[trigger] block_mappings@[i]).wf(),
                forall|i: int|
                    0 <= i < block_mappings@.len() ==> (#[trigger] block_mappings@[i]).0@.len() > 0,
                forall|i: int|
                    0 <= i < block_mappings@.len() && (#[trigger] block_mappings@[i]).0@.len() >= 2
                        ==> spec_span(block_mappings@[i].0@) <= config.max_cnt_per_request,
                small ==> forall|i: int|
                    0 <= i < block_mappings@.len() ==> spec_span(
                        (#[trigger] block_mappings@[i]).0@,
                    ) <= config.max_cnt_per_request,
                !config.allow_register_gaps ==> forall|i: int|
                    0 <= i < block_mappings@.len() ==> entries_contiguous(
                        (#[trigger] block_mappings@[i]).0@,
                    ),
                entries@.len() >= 2 ==> spec_span(entries@) <= config.max_cnt_per_request,
                small ==> spec_span(entries@) <= config.max_cnt_per_request,
                !config.allow_register_gaps ==> entries_contiguous(entries@),
            decreases n - idx,
        {
            let entry = self.0[idx].clone();
            if entries.len() == 0 {
                entries.push(entry);
                proof {
                    assert(entries@ =~= all.subrange(start, idx + 1));
                }
            } else {
                let first_addr: u16 = entries[0].addr;
                let last_idx = entries.len() - 1;
                let last_addr: u16 = entries[last_idx].addr;
                let last_size: Quantity = entries[last_idx].ty.word_size();
                let entry_size: Quantity = entry.ty.word_size();
                proof {
                    assert(entries@[0] == all[start]);
                    assert(entries@[last_idx as int] == all[idx - 1]);
                    lemma_addr_monotone(all, start, idx as int);
                    assert(first_addr <= entry.addr);
                }
                let max_cond = entry.addr as u32 + entry_size as u32 - first_addr as u32
                    <= config.max_cnt_per_request as u32;
                let gap_cond = last_addr as u32 + last_size as u32 == entry.addr as u32;
                if max_cond && (gap_cond || config.allow_register_gaps) {
                    entries.push(entry);
                    proof {
                        assert(entries@ =~= all.subrange(start, idx + 1));
                        assert(entries@.last() == all[idx as int]);
                        assert(entries@.first() == all[start]);
                    }
                } else {
                    let ghost prev_blocks = block_mappings@;
                    let ghost block_seq = entries@;
                    let mapping = Mapping(entries);
                    block_mappings.push(mapping);
                    entries = Vec::new();
                    entries.push(entry);
                    proof {
                        assert(block_mappings@.drop_last() =~= prev_blocks);
                        assert(block_mappings@.last().0@ == block_seq);
                        assert(blocks_entries(block_mappings@) == blocks_entries(prev_blocks)
                            + block_seq);
                        assert(blocks_entries(prev_blocks) + block_seq =~= all.subrange(
                            0,
                            idx as int,
                        ));
                        start = idx as int;
                        assert(entries@ =~= all.subrange(start, idx + 1));
                        if small {
                            assert(all[idx as int].ty.spec_word_size()
                                <= config.max_cnt_per_request);
                        }
                    }
                }
            }
            idx += 1;
        }
        let ghost prev_blocks = block_mappings@;
        let ghost block_seq = entries@;
        let mapping = Mapping(entries);
        block_mappings.push(mapping);
        proof {
            assert(block_mappings@.drop_last() =~= prev_blocks);
            assert(block_mappings@.last().0@ == block_seq);
            assert(blocks_entries(block_mappings@) == blocks_entries(prev_blocks) + block_seq);
            assert(blocks_entries(prev_blocks) + block_seq =~= all);
            if all.len() == 0 {
                assert(block_mappings@.len() == 1);
            }
        }
        block_mappings
    }
}

impl Clone for Mapping {
    /// A clone keeps every entry.
    fn clone(&self) -> (r: Mapping)
        ensures
            r.0@ == self.0@,
    {
        let mut entries: Vec<Entry> = Vec::new();
        let n = self.0.len();
        let mut i: usize = 0;
        while i < n
            invariant
                n == self.0@.len(),
                i <= n,
                entries@ == self.0@.take(i as int),
            decreases n - i,
        {
            entries.push(self.0[i].clone());
            proof {
                assert(entries@ =~= self.0@.take(i + 1));
            }
            i += 1;
        }
        proof {
            assert(self.0@.take(n as int) =~= self.0@);
        }
        Mapping(entries)
    }
}

} // verus!
