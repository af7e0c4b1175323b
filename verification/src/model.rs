//! Plain data records exchanged between the collectors and the application,
//! and the fixed-capacity history kept for the charts.
use vstd::prelude::*;
use std::collections::VecDeque;

verus! {

broadcast use vstd::std_specs::vecdeque::group_vec_dequeue_axioms;

// ---------------------------------------------------------------------------
// History ring buffer
// ---------------------------------------------------------------------------

/// The last at most `n` values of `s`.
pub open spec fn last_n<T>(s: Seq<T>, n: nat) -> Seq<T> {
    if s.len() > n {
        s.skip(s.len() - n)
    } else {
        s
    }
}

/// History after `value` is recorded into a history `s` of capacity `n`:
/// unchanged when the capacity is 0, else the last `n` values of `s` then
/// `value`.
pub open spec fn pushed<T>(s: Seq<T>, value: T, n: nat) -> Seq<T> {
    if n == 0 {
        s
    } else {
        last_n(s.push(value), n)
    }
}

/// History after each of `values` is recorded in order.
pub open spec fn pushed_all<T>(s: Seq<T>, values: Seq<T>, n: nat) -> Seq<T>
    decreases values.len(),
{
    if values.len() == 0 {
        s
    } else {
        pushed(pushed_all(s, values.drop_last(), n), values.last(), n)
    }
}

/// Circular history with a fixed maximum capacity `N`: once full, recording
/// a value drops the oldest one.
pub struct HistoryRingBuffer<T, const N: usize> {
    buffer: VecDeque<T>,
}

impl<T, const N: usize> View for HistoryRingBuffer<T, N> {
    type V = Seq<T>;

    /// The recorded values, oldest first.
    closed spec fn view(&self) -> Seq<T> {
        self.buffer@
    }
}

impl<T, const N: usize> HistoryRingBuffer<T, N> {
    #[verifier::type_invariant]
    spec fn within_capacity(self) -> bool {
        self.buffer@.len() <= N
    }
}

impl<T: Copy, const N: usize> HistoryRingBuffer<T, N> {
    /// An empty history.
    pub fn new() -> (r: Self)
        ensures
            r@ == Seq::<T>::empty(),
    {
        HistoryRingBuffer { buffer: VecDeque::with_capacity(N) }
    }

    /// A full history holding `N` copies of `initial_value`.
    pub fn with_initial(initial_value: T) -> (r: Self)
        ensures
            r@ == Seq::new(N as nat, |_i: int| initial_value),
    {
        let mut buffer: VecDeque<T> = VecDeque::with_capacity(N);
        let mut i: usize = 0;
        while i < N
            invariant
                i <= N,
                buffer@ == Seq::new(i as nat, |_j: int| initial_value),
            decreases N - i,
        {
            buffer.push_back(initial_value);
            assert(buffer@ =~= Seq::new((i + 1) as nat, |_j: int| initial_value));
            i += 1;
        }
        HistoryRingBuffer { buffer }
    }

    /// Records `value`, dropping the oldest value when the history is full.
    pub fn push(&mut self, value: T)
        ensures
            final(self)@ == pushed(old(self)@, value, N as nat),
    {
        proof {
            use_type_invariant(&*self);
        }
        if N == 0 {
            return;
        }
        let mut buffer = VecDeque::new();
        std::mem::swap(&mut buffer, &mut self.buffer);
        let ghost before = buffer@;
        if buffer.len() >= N {
            buffer.pop_front();
        }
        buffer.push_back(value);
        assert(buffer@ =~= last_n(before.push(value), N as nat));
        self.buffer = buffer;
    }

    /// Number of recorded values.
    pub fn len(&self) -> (n: usize)
        ensures
            n == self@.len(),
            n <= N,
    {
        proof {
            use_type_invariant(self);
        }
        self.buffer.len()
    }

    /// Nothing recorded.
    pub fn is_empty(&self) -> (b: bool)
        ensures
            b == (self@.len() == 0),
    {
        self.buffer.len() == 0
    }

    /// The most recently recorded value.
    pub fn latest(&self) -> (r: Option<T>)
        ensures
            r == if self@.len() > 0 {
                Some(self@.last())
            } else {
                None::<T>
            },
    {
        let n = self.buffer.len();
        if n == 0 {
            None
        } else {
            Some(self.buffer[n - 1])
        }
    }

    /// The recorded values, oldest first.
    pub fn as_vec(&self) -> (v: Vec<T>)
        ensures
            v@ == self@,
    {
        let mut v: Vec<T> = Vec::new();
        let n = self.buffer.len();
        let mut i: usize = 0;
        while i < n
            invariant
                i <= n,
                n == self.buffer@.len(),
                v@ == self.buffer@.take(i as int),
            decreases n - i,
        {
            v.push(self.buffer[i]);
            assert(v@ =~= self.buffer@.take(i + 1));
            i += 1;
        }
        assert(self.buffer@.take(n as int) =~= self.buffer@);
        v
    }

    /// Iterator over the recorded values, oldest first.
    pub fn iter(&self) -> (it: std::collections::vec_deque::Iter<'_, T>)
        ensures
            vstd::std_specs::iter::IteratorSpec::remaining(&it) == self@.as_ref(),
    {
        self.buffer.iter()
    }
}

/// Recording values keeps exactly the last `n` of everything recorded:
/// a history of capacity `n > 0` that held `s` (at most `n` values) holds,
/// after `values` are recorded, the last `n` values of `s` followed by `values`.
pub proof fn law_history_keeps_last_n<T>(s: Seq<T>, values: Seq<T>, n: nat)
    requires
        n > 0,
        s.len() <= n,
    ensures
        pushed_all(s, values, n) == last_n(s + values, n),
    decreases values.len(),
{
    if values.len() > 0 {
        law_history_keeps_last_n(s, values.drop_last(), n);
        let prev = s + values.drop_last();
        assert(s + values =~= prev.push(values.last()));
        let w = last_n(prev, n);
        assert(last_n(w.push(values.last()), n) =~= last_n(prev.push(values.last()), n));
    } else {
        assert(s + values =~= s);
    }
}

/// Recording a value into a history of capacity `n > 0` makes it the latest.
pub proof fn law_history_latest_is_last_pushed<T>(s: Seq<T>, value: T, n: nat)
    requires
        n > 0,
    ensures
        pushed(s, value, n).len() > 0,
        pushed(s, value, n).last() == value,
        pushed(s, value, n).len() <= n,
{
}

// ---------------------------------------------------------------------------
// Records
// ---------------------------------------------------------------------------

/// GPU vendor identification.
#[derive(Debug, Clone, Copy, PartialEq, Eq, Structural)]
pub enum GpuVendor {
    Amd,
    Nvidia,
    Intel,
    Unknown,
}

impl GpuVendor {
    /// Display label of the vendor.
    pub fn as_str(&self) -> (s: &'static str)
        ensures
            s@ == match *self {
                GpuVendor::Amd => "AMD"@,
                GpuVendor::Nvidia => "NVIDIA"@,
                GpuVendor::Intel => "Intel"@,
                GpuVendor::Unknown => "Generic"@,
            },
    {
        match self {
            GpuVendor::Amd => "AMD",
            GpuVendor::Nvidia => "NVIDIA",
            GpuVendor::Intel => "Intel",
            GpuVendor::Unknown => "Generic",
        }
    }
}

impl Default for GpuVendor {
    /// An unidentified vendor.
    fn default() -> (v: Self)
        ensures
            v == GpuVendor::Unknown,
    {
        GpuVendor::Unknown
    }
}

/// Segmented breakdown of VRAM usage, in bytes.
#[derive(Debug, Clone, Copy)]
pub struct VramBreakdown {
    /// Estimated memory occupied by model weights.
    pub weights_bytes: u64,
    /// Estimated memory occupied by the KV cache.
    pub kv_cache_bytes: u64,
    /// Driver and runtime context memory.
    pub context_bytes: u64,
    /// Free unallocated VRAM.
    pub free_bytes: u64,
}

impl VramBreakdown {
    /// The breakdown a collector that cannot tell weights from cache gives:
    /// all used memory counted as context, and the rest free.
    pub fn from_usage(total_bytes: u64, used_bytes: u64) -> (b: Self)
        ensures
            b.weights_bytes == 0,
            b.kv_cache_bytes == 0,
            b.context_bytes == used_bytes,
            b.free_bytes == if used_bytes <= total_bytes {
                (total_bytes - used_bytes) as u64
            } else {
                0
            },
    {
        VramBreakdown {
            weights_bytes: 0,
            kv_cache_bytes: 0,
            context_bytes: used_bytes,
            free_bytes: total_bytes.saturating_sub(used_bytes),
        }
    }
}

impl Default for VramBreakdown {
    /// Nothing allocated, nothing free.
    fn default() -> (b: Self)
        ensures
            b.weights_bytes == 0,
            b.kv_cache_bytes == 0,
            b.context_bytes == 0,
            b.free_bytes == 0,
    {
        VramBreakdown { weights_bytes: 0, kv_cache_bytes: 0, context_bytes: 0, free_bytes: 0 }
    }
}

} // verus!
