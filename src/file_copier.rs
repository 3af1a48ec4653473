//! The list of files to stage before a merge, with their total size.
use vstd::prelude::*;

verus! {

/// Sum of the sizes (third fields) of the entries.
pub open spec fn total_size(s: Seq<(String, String, u64)>) -> int
    decreases s.len(),
{
    if s.len() == 0 {
        0
    } else {
        total_size(s.drop_last()) + s.last().2
    }
}

/// Source path, destination path and size in bytes of each file to copy.
pub struct FileCopier {
    file_stack: Vec<(String, String, u64)>,
    total_data_size_bytes: u64,
}

impl FileCopier {
    pub closed spec fn entries(&self) -> Seq<(String, String, u64)> {
        self.file_stack@
    }

    pub closed spec fn wf(&self) -> bool {
        self.total_data_size_bytes == total_size(self.file_stack@)
    }

    /// A copier for `entries`; `None` when their total size does not fit
    /// in 64 bits.
    pub fn new(entries: Vec<(String, String, u64)>) -> (r: Option<Self>)
        ensures
            r is Some <==> total_size(entries@) <= u64::MAX,
            r matches Some(c) ==> c.wf() && c.entries() == entries@,
    {
        let mut total: u64 = 0;
        let mut i: usize = 0;
        while i < entries.len()
            invariant
                i <= entries@.len(),
                total == total_size(entries@.subrange(0, i as int)),
                forall|k: int| 0 <= k <= i ==> total_size(#[trigger] entries@.subrange(0, k)) <= u64::MAX,
            decreases entries@.len() - i,
        {
            assert(entries@.subrange(0, i + 1).drop_last() =~= entries@.subrange(0, i as int));
            let size = entries[i].2;
            if size > u64::MAX - total {
                proof {
                    lemma_total_size_prefix(entries@, i + 1);
                }
                return None;
            }
            total = total + size;
            i = i + 1;
        }
        assert(entries@.subrange(0, entries@.len() as int) =~= entries@);
        Some(FileCopier { file_stack: entries, total_data_size_bytes: total })
    }

    /// An empty copier, for runs that need no staging.
    pub fn empty() -> (r: Self)
        ensures
            r.wf(),
            r.entries().len() == 0,
    {
        FileCopier { file_stack: Vec::new(), total_data_size_bytes: 0 }
    }

    /// Total bytes to copy.
    pub fn get_total_data_size(&self) -> (r: u64)
        requires
            self.wf(),
        ensures
            r == total_size(self.entries()),
    {
        self.total_data_size_bytes
    }

    /// Source, destination and size of each file, in copy order.
    pub fn copy_meta(&self) -> (r: &Vec<(String, String, u64)>)
        ensures
            r@ == self.entries(),
    {
        &self.file_stack
    }
}

/// Totals only grow along the list.
proof fn lemma_total_size_prefix(s: Seq<(String, String, u64)>, k: int)
    requires
        0 <= k <= s.len(),
    ensures
        total_size(s.subrange(0, k)) <= total_size(s),
    decreases s.len() - k,
{
    if k < s.len() {
        lemma_total_size_prefix(s, k + 1);
        assert(s.subrange(0, k + 1).drop_last() =~= s.subrange(0, k));
    } else {
        assert(s.subrange(0, k) =~= s);
    }
}

} // verus!
