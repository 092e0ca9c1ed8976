//! Byte and count bookkeeping of the blocks that a pool creates and destroys.
use vstd::prelude::*;
use vstd::string::StringSliceAdditionalSpecFns;
use crate::text::{
    bytes_at_equal,
    decimal,
    decimal_at,
    first_word,
    is_space,
    is_space_byte,
    skip_spaces,
    skip_word,
    unsigned_digits,
};

verus! {

/// `v`, or `usize::MAX` where it does not fit.
pub open spec fn sat(v: int) -> usize {
    if v > usize::MAX {
        usize::MAX
    } else if v < 0 {
        0
    } else {
        v as usize
    }
}

/// Memory figures of the running process, in KiB.
#[derive(Debug, Clone, Copy, PartialEq, Eq, Structural)]
pub struct SystemMemoryStats {
    /// Peak virtual memory size.
    pub vm_peak: usize,
    /// Virtual memory size.
    pub vm_size: usize,
    /// Resident set size.
    pub vm_rss: usize,
    /// Peak resident set size.
    pub vm_hwm: usize,
    /// Size of the data segment.
    pub vm_data: usize,
    /// Size of the stack.
    pub vm_stk: usize,
    /// Size of the text segment.
    pub vm_exe: usize,
    /// Size of shared library code.
    pub vm_lib: usize,
}

impl SystemMemoryStats {
    /// All figures zero.
    pub fn zeroed() -> (r: Self)
        ensures
            r == Self::zeroed_spec(),
    {
        SystemMemoryStats {
            vm_peak: 0,
            vm_size: 0,
            vm_rss: 0,
            vm_hwm: 0,
            vm_data: 0,
            vm_stk: 0,
            vm_exe: 0,
            vm_lib: 0,
        }
    }

    /// Resident set size in bytes.
    pub fn vm_rss_bytes(&self) -> (r: usize)
        requires
            self.vm_rss * 1024 <= usize::MAX,
        ensures
            r == self.vm_rss * 1024,
    {
        self.vm_rss * 1024
    }

    /// Virtual memory size in bytes.
    pub fn vm_size_bytes(&self) -> (r: usize)
        requires
            self.vm_size * 1024 <= usize::MAX,
        ensures
            r == self.vm_size * 1024,
    {
        self.vm_size * 1024
    }

    /// Peak virtual memory size in bytes.
    pub fn vm_peak_bytes(&self) -> (r: usize)
        requires
            self.vm_peak * 1024 <= usize::MAX,
        ensures
            r == self.vm_peak * 1024,
    {
        self.vm_peak * 1024
    }

    /// Peak resident set size in bytes.
    pub fn vm_hwm_bytes(&self) -> (r: usize)
        requires
            self.vm_hwm * 1024 <= usize::MAX,
        ensures
            r == self.vm_hwm * 1024,
    {
        self.vm_hwm * 1024
    }
}

/// Cumulative counters of block creations and destructions. Every counter
/// saturates at `usize::MAX` instead of wrapping.
#[derive(Debug, Clone, Copy)]
pub struct Tracker {
    pub peak_size_allocated: usize,
    pub total_size_allocated: usize,
    pub total_number_of_allocations: usize,
    pub current_size_allocated: usize,
    pub current_number_of_allocations: usize,
    pub freed_allocation_size: usize,
    pub system_stats: SystemMemoryStats,
}

/// A copy of a tracker's counters.
#[derive(Debug, Clone, Copy)]
pub struct TrackerStats {
    pub peak_size_allocated: usize,
    pub total_size_allocated: usize,
    pub total_number_of_allocations: usize,
    pub current_size_allocated: usize,
    pub current_number_of_allocations: usize,
    pub freed_allocation_size: usize,
    pub system_stats: SystemMemoryStats,
}

impl Tracker {
    /// Every counter is zero.
    pub open spec fn counts_zero(self) -> bool {
        &&& self.peak_size_allocated == 0
        &&& self.total_size_allocated == 0
        &&& self.total_number_of_allocations == 0
        &&& self.current_size_allocated == 0
        &&& self.current_number_of_allocations == 0
        &&& self.freed_allocation_size == 0
    }

    /// The tracker after one more block of `size` bytes is created.
    pub open spec fn after_add(self, size: usize) -> Tracker {
        let cur = sat(self.current_size_allocated + size);
        Tracker {
            peak_size_allocated: if cur > self.peak_size_allocated {
                cur
            } else {
                self.peak_size_allocated
            },
            total_size_allocated: sat(self.total_size_allocated + size),
            total_number_of_allocations: sat(self.total_number_of_allocations + 1),
            current_size_allocated: cur,
            current_number_of_allocations: sat(self.current_number_of_allocations + 1),
            freed_allocation_size: self.freed_allocation_size,
            system_stats: self.system_stats,
        }
    }

    /// The tracker after a block of `size` bytes is destroyed.
    pub open spec fn after_remove(self, size: usize) -> Tracker {
        Tracker {
            peak_size_allocated: self.peak_size_allocated,
            total_size_allocated: self.total_size_allocated,
            total_number_of_allocations: self.total_number_of_allocations,
            current_size_allocated: sat(self.current_size_allocated - size),
            current_number_of_allocations: sat(self.current_number_of_allocations - 1),
            freed_allocation_size: sat(self.freed_allocation_size + size),
            system_stats: self.system_stats,
        }
    }

    /// A tracker with every counter and memory figure zero.
    pub fn new() -> (r: Self)
        ensures
            r.counts_zero(),
            r.system_stats == SystemMemoryStats::zeroed_spec(),
    {
        Tracker {
            peak_size_allocated: 0,
            total_size_allocated: 0,
            total_number_of_allocations: 0,
            current_size_allocated: 0,
            current_number_of_allocations: 0,
            freed_allocation_size: 0,
            system_stats: SystemMemoryStats::zeroed(),
        }
    }

    /// Resets every counter to zero; the memory figures are kept.
    pub fn init(&mut self)
        ensures
            final(self).counts_zero(),
            final(self).system_stats == old(self).system_stats,
    {
        self.peak_size_allocated = 0;
        self.total_size_allocated = 0;
        self.total_number_of_allocations = 0;
        self.current_size_allocated = 0;
        self.current_number_of_allocations = 0;
        self.freed_allocation_size = 0;
    }

    /// Replaces the memory figures with a fresh reading.
    pub fn set_system_stats(&mut self, stats: SystemMemoryStats)
        ensures
            *final(self) == (Tracker { system_stats: stats, ..*old(self) }),
    {
        self.system_stats = stats;
    }

    /// Records the creation of a block of `size` bytes.
    pub fn add_alloc(&mut self, size: usize)
        ensures
            *final(self) == old(self).after_add(size),
    {
        self.current_number_of_allocations = self.current_number_of_allocations.saturating_add(1);
        self.total_number_of_allocations = self.total_number_of_allocations.saturating_add(1);
        self.current_size_allocated = self.current_size_allocated.saturating_add(size);
        self.total_size_allocated = self.total_size_allocated.saturating_add(size);
        if self.current_size_allocated > self.peak_size_allocated {
            self.peak_size_allocated = self.current_size_allocated;
        }
    }

    /// Records the destruction of a block of `size` bytes.
    pub fn remove_alloc(&mut self, size: usize)
        ensures
            *final(self) == old(self).after_remove(size),
    {
        self.current_number_of_allocations = self.current_number_of_allocations.saturating_sub(1);
        self.current_size_allocated = self.current_size_allocated.saturating_sub(size);
        self.freed_allocation_size = self.freed_allocation_size.saturating_add(size);
    }

    /// A copy of the counters and memory figures.
    pub fn get_stats(&self) -> (r: TrackerStats)
        ensures
            r.peak_size_allocated == self.peak_size_allocated,
            r.total_size_allocated == self.total_size_allocated,
            r.total_number_of_allocations == self.total_number_of_allocations,
            r.current_size_allocated == self.current_size_allocated,
            r.current_number_of_allocations == self.current_number_of_allocations,
            r.freed_allocation_size == self.freed_allocation_size,
            r.system_stats == self.system_stats,
    {
        TrackerStats {
            peak_size_allocated: self.peak_size_allocated,
            total_size_allocated: self.total_size_allocated,
            total_number_of_allocations: self.total_number_of_allocations,
            current_size_allocated: self.current_size_allocated,
            current_number_of_allocations: self.current_number_of_allocations,
            freed_allocation_size: self.freed_allocation_size,
            system_stats: self.system_stats,
        }
    }

    /// Resident bytes beyond those held by live blocks; zero when the blocks
    /// account for more than is resident.
    pub fn memory_overhead_bytes(&self) -> (r: usize)
        requires
            self.system_stats.vm_rss * 1024 <= usize::MAX,
        ensures
            r == sat(self.system_stats.vm_rss * 1024 - self.current_size_allocated),
    {
        self.system_stats.vm_rss_bytes().saturating_sub(self.current_size_allocated)
    }
}

impl SystemMemoryStats {
    /// All figures zero.
    pub open spec fn zeroed_spec() -> SystemMemoryStats {
        SystemMemoryStats {
            vm_peak: 0,
            vm_size: 0,
            vm_rss: 0,
            vm_hwm: 0,
            vm_data: 0,
            vm_stk: 0,
            vm_exe: 0,
            vm_lib: 0,
        }
    }
}

/// The value of the leading figure of a status field: its first word read
/// as an unsigned decimal (an optional `+`, then one or more digits), or 0
/// where that word is missing, is not such a number or exceeds `usize::MAX`.
pub open spec fn kb_value(b: Seq<u8>) -> usize {
    match decimal(unsigned_digits(first_word(b))) {
        Some(v) => v,
        None => 0,
    }
}

/// `kb_value` of `b[from..]`.
fn decimal_field(b: &[u8], from: usize) -> (r: usize)
    requires
        from <= b@.len(),
    ensures
        r == kb_value(b@.subrange(from as int, b@.len() as int)),
{
    let ghost sub = b@.subrange(from as int, b@.len() as int);
    let mut i: usize = from;
    while i < b.len() && is_space_byte(b[i])
        invariant
            from <= i <= b@.len(),
            sub == b@.subrange(from as int, b@.len() as int),
            skip_spaces(sub, 0) == skip_spaces(sub, i - from),
        decreases b@.len() - i,
    {
        i = i + 1;
    }
    let start = i;
    while i < b.len() && !is_space_byte(b[i])
        invariant
            from <= start <= i <= b@.len(),
            sub == b@.subrange(from as int, b@.len() as int),
            start - from == skip_spaces(sub, 0),
            skip_word(sub, start - from) == skip_word(sub, i - from),
        decreases b@.len() - i,
    {
        assert(sub[i - from] == b@[i as int]);
        i = i + 1;
    }
    let ghost w = b@.subrange(start as int, i as int);
    assert(w =~= first_word(sub));
    if start < i && b[start] == 43 {
        assert(b@.subrange(start + 1, i as int) =~= w.drop_first());
        match decimal_at(b, start + 1, i) {
            Some(v) => v,
            None => 0,
        }
    } else {
        match decimal_at(b, start, i) {
            Some(v) => v,
            None => 0,
        }
    }
}

impl SystemMemoryStats {
    /// The figure at the start of a status field's value: the first word
    /// read as an unsigned decimal, or 0 when it is not one.
    pub fn parse_kb_value(value: &str) -> (r: usize)
        ensures
            r == kb_value(value.spec_bytes()),
    {
        let b = value.as_bytes();
        assert(b@.subrange(0, b@.len() as int) =~= b@);
        decimal_field(b, 0)
    }
}

/// The index of the first `:` at or after `i`, if any.
pub open spec fn colon_from(b: Seq<u8>, i: int) -> Option<int>
    decreases b.len() - i,
{
    if i < 0 || i >= b.len() {
        None
    } else if b[i] == 58 {
        Some(i)
    } else {
        colon_from(b, i + 1)
    }
}

/// The end of `b[lo..hi]` once trailing whitespace is cut.
pub open spec fn trim_back(b: Seq<u8>, lo: int, hi: int) -> int
    decreases hi - lo,
{
    if lo < hi && is_space(b[hi - 1]) {
        trim_back(b, lo, hi - 1)
    } else {
        hi
    }
}

/// The key of a status line `key: value`, without surrounding whitespace.
pub open spec fn status_key(b: Seq<u8>, colon: int) -> Seq<u8> {
    let lo = skip_spaces(b, 0);
    b.subrange(lo, trim_back(b, lo, colon))
}

/// The figures after reading one line of a process status file: a line
/// `key: value` whose key names one of the figures sets that figure to the
/// value's leading number; any other line changes nothing.
pub open spec fn status_applied(st: SystemMemoryStats, b: Seq<u8>) -> SystemMemoryStats {
    match colon_from(b, 0) {
        None => st,
        Some(c) => {
            let key = status_key(b, c);
            let v = kb_value(b.subrange(c + 1, b.len() as int));
            if key == "VmPeak".spec_bytes() {
                SystemMemoryStats { vm_peak: v, ..st }
            } else if key == "VmSize".spec_bytes() {
                SystemMemoryStats { vm_size: v, ..st }
            } else if key == "VmRSS".spec_bytes() {
                SystemMemoryStats { vm_rss: v, ..st }
            } else if key == "VmHWM".spec_bytes() {
                SystemMemoryStats { vm_hwm: v, ..st }
            } else if key == "VmData".spec_bytes() {
                SystemMemoryStats { vm_data: v, ..st }
            } else if key == "VmStk".spec_bytes() {
                SystemMemoryStats { vm_stk: v, ..st }
            } else if key == "VmExe".spec_bytes() {
                SystemMemoryStats { vm_exe: v, ..st }
            } else if key == "VmLib".spec_bytes() {
                SystemMemoryStats { vm_lib: v, ..st }
            } else {
                st
            }
        },
    }
}

impl SystemMemoryStats {
    /// Reads one line of a process status file (`/proc/self/status`).
    pub fn apply_status_line(&mut self, line: &str)
        ensures
            *final(self) == status_applied(*old(self), line.spec_bytes()),
    {
        let b = line.as_bytes();
        let mut c: usize = 0;
        while c < b.len() && b[c] != 58
            invariant
                0 <= c <= b@.len(),
                colon_from(b@, 0) == colon_from(b@, c as int),
            decreases b@.len() - c,
        {
            c = c + 1;
        }
        if c == b.len() {
            return;
        }
        let mut lo: usize = 0;
        while lo < c && is_space_byte(b[lo])
            invariant
                0 <= lo <= c < b@.len(),
                b@[c as int] == 58,
                skip_spaces(b@, 0) == skip_spaces(b@, lo as int),
            decreases c - lo,
        {
            lo = lo + 1;
        }
        let mut hi: usize = c;
        while hi > lo && is_space_byte(b[hi - 1])
            invariant
                lo <= hi <= c < b@.len(),
                trim_back(b@, lo as int, c as int) == trim_back(b@, lo as int, hi as int),
            decreases hi - lo,
        {
            hi = hi - 1;
        }
        let v = decimal_field(b, c + 1);
        if bytes_at_equal(b, lo, hi, "VmPeak") {
            self.vm_peak = v;
        } else if bytes_at_equal(b, lo, hi, "VmSize") {
            self.vm_size = v;
        } else if bytes_at_equal(b, lo, hi, "VmRSS") {
            self.vm_rss = v;
        } else if bytes_at_equal(b, lo, hi, "VmHWM") {
            self.vm_hwm = v;
        } else if bytes_at_equal(b, lo, hi, "VmData") {
            self.vm_data = v;
        } else if bytes_at_equal(b, lo, hi, "VmStk") {
            self.vm_stk = v;
        } else if bytes_at_equal(b, lo, hi, "VmExe") {
            self.vm_exe = v;
        } else if bytes_at_equal(b, lo, hi, "VmLib") {
            self.vm_lib = v;
        }
    }
}

} // verus!
