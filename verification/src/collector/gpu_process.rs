//! Per-process GPU memory accounting from DRM `fdinfo` files: the memory
//! figures of one file, the totals of one process with each DRM client
//! counted once, and the process list ordered by VRAM use.
use vstd::prelude::*;
use crate::text::{
    chars_of, decimal_digits, decimal_string, first_token, lines_exec, lines_spec, next_token_bounds,
    opt_view, parse_u32_spec, parse_u64_spec, parse_unsigned_exec, second_token, seq_eq,
    starts_with, starts_with_exec, string_from_chars, subvec, tail_of, trim, trim_chars, views,
};

verus! {

broadcast use vstd::string::group_string_axioms;

// ---------------------------------------------------------------------------
// One memory figure
// ---------------------------------------------------------------------------

/// `a * b`, or `u64::MAX` where the product does not fit.
pub open spec fn sat_mul_spec(a: u64, b: u64) -> u64 {
    if a * b > u64::MAX {
        u64::MAX
    } else {
        (a * b) as u64
    }
}

/// `a + b`, or `u64::MAX` where the sum does not fit.
pub open spec fn sat_add_spec(a: u64, b: u64) -> u64 {
    if a + b > u64::MAX {
        u64::MAX
    } else {
        (a + b) as u64
    }
}

/// The number of a memory figure: its first token as a `u64`, 0 when
/// missing or not a number.
pub open spec fn drm_value(text: Seq<char>) -> u64 {
    match first_token(text) {
        Some(t) => match parse_u64_spec(t) {
            Some(v) => v,
            None => 0,
        },
        None => 0,
    }
}

/// The unit of a memory figure: its second token, `KiB` when missing.
pub open spec fn drm_unit(text: Seq<char>) -> Seq<char> {
    match second_token(text) {
        Some(u) => u,
        None => "KiB"@,
    }
}

/// A DRM memory figure such as `1024 MiB` in KiB: bytes are divided by
/// 1024 (rounding down), MiB and GiB multiplied up (saturating), KiB and
/// unknown units taken as they are.
pub open spec fn drm_memory_kib_spec(text: Seq<char>) -> u64 {
    let v = drm_value(text);
    let u = drm_unit(text);
    if u == "B"@ {
        v / 1024
    } else if u == "KiB"@ {
        v
    } else if u == "MiB"@ {
        sat_mul_spec(v, 1024)
    } else if u == "GiB"@ {
        sat_mul_spec(v, 1048576)
    } else {
        v
    }
}

/// Saturating multiplication.
fn sat_mul(a: u64, b: u64) -> (r: u64)
    ensures
        r == sat_mul_spec(a, b),
{
    match a.checked_mul(b) {
        Some(v) => v,
        None => u64::MAX,
    }
}

/// Saturating addition.
fn sat_add(a: u64, b: u64) -> (r: u64)
    ensures
        r == sat_add_spec(a, b),
{
    a.saturating_add(b)
}

/// A DRM memory figure in KiB, from its characters.
fn drm_memory_kib_chars(s: &[char]) -> (r: u64)
    ensures
        r == drm_memory_kib_spec(s@),
{
    assert(s@.skip(0) =~= s@);
    let kib = chars_of("KiB");
    let (val, unit): (u64, Vec<char>) = match next_token_bounds(s, 0) {
        Some((lo, hi)) => {
            let t = subvec(s, lo, hi);
            let v: u64 = match parse_unsigned_exec(t.as_slice(), u64::MAX) {
                Some(v) => v,
                None => 0,
            };
            let u = match next_token_bounds(s, hi) {
                Some((lo2, hi2)) => subvec(s, lo2, hi2),
                None => kib,
            };
            (v, u)
        },
        None => (0, kib),
    };
    assert(val == drm_value(s@));
    assert(unit@ == drm_unit(s@));
    let b = chars_of("B");
    let kib2 = chars_of("KiB");
    let mib = chars_of("MiB");
    let gib = chars_of("GiB");
    if seq_eq(unit.as_slice(), b.as_slice()) {
        val / 1024
    } else if seq_eq(unit.as_slice(), kib2.as_slice()) {
        val
    } else if seq_eq(unit.as_slice(), mib.as_slice()) {
        sat_mul(val, 1024)
    } else if seq_eq(unit.as_slice(), gib.as_slice()) {
        sat_mul(val, 1024 * 1024)
    } else {
        val
    }
}

/// A DRM memory figure such as `1024 MiB` in KiB.
pub fn parse_drm_memory_kib(line: &str) -> (r: u64)
    ensures
        r == drm_memory_kib_spec(line@),
{
    let s = chars_of(line);
    drm_memory_kib_chars(s.as_slice())
}

/// The process id named by a `/proc` entry, when the name is a number.
pub fn parse_pid(name: &str) -> (r: Option<u32>)
    ensures
        r == parse_u32_spec(name@),
{
    let s = chars_of(name);
    match parse_unsigned_exec(s.as_slice(), u32::MAX as u64) {
        Some(v) => Some(v as u32),
        None => None,
    }
}

// ---------------------------------------------------------------------------
// One fdinfo file
// ---------------------------------------------------------------------------

/// What one `fdinfo` file says of DRM memory.
pub struct FdinfoUsage {
    /// The `drm-client-id` value, if the file has one.
    pub client_id: Option<String>,
    /// The `drm-memory-vram` figure in KiB.
    pub vram_kib: u64,
    /// The `drm-memory-gtt` figure in KiB.
    pub gtt_kib: u64,
    /// Whether the file carries a DRM memory figure at all.
    pub is_drm: bool,
}

/// Model of `FdinfoUsage`.
pub struct FdinfoView {
    pub client_id: Option<Seq<char>>,
    pub vram_kib: u64,
    pub gtt_kib: u64,
    pub is_drm: bool,
}

impl View for FdinfoUsage {
    type V = FdinfoView;

    open spec fn view(&self) -> FdinfoView {
        FdinfoView {
            client_id: opt_view(self.client_id),
            vram_kib: self.vram_kib,
            gtt_kib: self.gtt_kib,
            is_drm: self.is_drm,
        }
    }
}

/// A file with no DRM lines.
pub open spec fn no_fdinfo() -> FdinfoView {
    FdinfoView { client_id: None, vram_kib: 0, gtt_kib: 0, is_drm: false }
}

/// The effect of one line: `drm-client-id:` sets the client id (trimmed),
/// `drm-memory-vram:` and `drm-memory-gtt:` set their figure and mark the
/// file as DRM; other lines change nothing. A later line overrides an
/// earlier one of the same key.
pub open spec fn fdinfo_line(st: FdinfoView, line: Seq<char>) -> FdinfoView {
    if starts_with(line, "drm-client-id:"@) {
        FdinfoView { client_id: Some(trim(line.skip("drm-client-id:"@.len() as int))), ..st }
    } else if starts_with(line, "drm-memory-vram:"@) {
        FdinfoView {
            is_drm: true,
            vram_kib: drm_memory_kib_spec(trim(line.skip("drm-memory-vram:"@.len() as int))),
            ..st
        }
    } else if starts_with(line, "drm-memory-gtt:"@) {
        FdinfoView {
            is_drm: true,
            gtt_kib: drm_memory_kib_spec(trim(line.skip("drm-memory-gtt:"@.len() as int))),
            ..st
        }
    } else {
        st
    }
}

/// The effect of a sequence of lines, read in order.
pub open spec fn fdinfo_lines(lines: Seq<Seq<char>>) -> FdinfoView
    decreases lines.len(),
{
    if lines.len() == 0 {
        no_fdinfo()
    } else {
        fdinfo_line(fdinfo_lines(lines.drop_last()), lines.last())
    }
}

/// What the `fdinfo` file with contents `content` says.
pub open spec fn fdinfo_spec(content: Seq<char>) -> FdinfoView {
    fdinfo_lines(lines_spec(content))
}

/// Reads the DRM lines of one `fdinfo` file.
pub fn parse_fdinfo(content: &str) -> (r: FdinfoUsage)
    ensures
        r@ == fdinfo_spec(content@),
{
    let s = chars_of(content);
    let lines = lines_exec(s.as_slice());
    let client_key = chars_of("drm-client-id:");
    let vram_key = chars_of("drm-memory-vram:");
    let gtt_key = chars_of("drm-memory-gtt:");
    let mut r = FdinfoUsage { client_id: None, vram_kib: 0, gtt_kib: 0, is_drm: false };
    let ghost ls = views(lines@);
    assert(ls.take(0) =~= Seq::<Seq<char>>::empty());
    let mut i: usize = 0;
    while i < lines.len()
        invariant
            ls == views(lines@),
            ls == lines_spec(s@),
            s@ == content@,
            client_key@ == "drm-client-id:"@,
            vram_key@ == "drm-memory-vram:"@,
            gtt_key@ == "drm-memory-gtt:"@,
            i <= lines.len(),
            r@ == fdinfo_lines(ls.take(i as int)),
        decreases lines.len() - i,
    {
        let line = &lines[i];
        assert(line@ == ls[i as int]);
        assert(ls.take(i + 1).drop_last() =~= ls.take(i as int));
        if starts_with_exec(line.as_slice(), client_key.as_slice()) {
            let rest = tail_of(line.as_slice(), client_key.len());
            let t = trim_chars(rest.as_slice());
            r.client_id = Some(string_from_chars(t.as_slice()));
        } else if starts_with_exec(line.as_slice(), vram_key.as_slice()) {
            let rest = tail_of(line.as_slice(), vram_key.len());
            let t = trim_chars(rest.as_slice());
            r.is_drm = true;
            r.vram_kib = drm_memory_kib_chars(t.as_slice());
        } else if starts_with_exec(line.as_slice(), gtt_key.as_slice()) {
            let rest = tail_of(line.as_slice(), gtt_key.len());
            let t = trim_chars(rest.as_slice());
            r.is_drm = true;
            r.gtt_kib = drm_memory_kib_chars(t.as_slice());
        }
        i += 1;
    }
    assert(ls.take(lines.len() as int) =~= ls);
    r
}

// ---------------------------------------------------------------------------
// One process
// ---------------------------------------------------------------------------

/// The DRM memory totals of one process, in KiB.
#[derive(Clone, Copy, PartialEq, Eq, Structural)]
pub struct ProcessUsage {
    /// Whether any of its files carries a DRM memory figure.
    pub has_drm: bool,
    pub vram_kib: u64,
    pub gtt_kib: u64,
}

/// Running totals over a process's files, with the client ids counted so far.
pub struct CombineState {
    pub usage: ProcessUsage,
    pub seen: Seq<Seq<char>>,
}

/// The effect of one file on the totals: a DRM file marks the process as a
/// DRM user; its figures are added (saturating) unless its client id was
/// already counted, since several descriptors may share one client.
pub open spec fn combine_step(st: CombineState, f: FdinfoView) -> CombineState {
    if !f.is_drm {
        st
    } else {
        let marked = ProcessUsage { has_drm: true, ..st.usage };
        let added = ProcessUsage {
            has_drm: true,
            vram_kib: sat_add_spec(st.usage.vram_kib, f.vram_kib),
            gtt_kib: sat_add_spec(st.usage.gtt_kib, f.gtt_kib),
        };
        match f.client_id {
            Some(c) => if st.seen.contains(c) {
                CombineState { usage: marked, seen: st.seen }
            } else {
                CombineState { usage: added, seen: st.seen.push(c) }
            },
            None => CombineState { usage: added, seen: st.seen },
        }
    }
}

/// The totals after the files `fds`, read in order.
pub open spec fn combine_fold(fds: Seq<FdinfoView>) -> CombineState
    decreases fds.len(),
{
    if fds.len() == 0 {
        CombineState {
            usage: ProcessUsage { has_drm: false, vram_kib: 0, gtt_kib: 0 },
            seen: Seq::empty(),
        }
    } else {
        combine_step(combine_fold(fds.drop_last()), fds.last())
    }
}

/// The DRM memory totals of a process whose files say `fds`.
pub open spec fn process_usage_spec(fds: Seq<FdinfoView>) -> ProcessUsage {
    combine_fold(fds).usage
}

/// A process that counts as a GPU client: it has DRM files and some
/// memory in VRAM or GTT.
pub open spec fn is_gpu_client_spec(u: ProcessUsage) -> bool {
    u.has_drm && (u.vram_kib > 0 || u.gtt_kib > 0)
}

impl ProcessUsage {
    /// Whether the process counts as a GPU client.
    pub fn is_gpu_client(&self) -> (b: bool)
        ensures
            b == is_gpu_client_spec(*self),
    {
        self.has_drm && (self.vram_kib > 0 || self.gtt_kib > 0)
    }
}

/// Whether `c` is one of `list`.
fn listed(list: &Vec<Vec<char>>, c: &[char]) -> (b: bool)
    ensures
        b == views(list@).contains(c@),
{
    let mut j: usize = 0;
    while j < list.len()
        invariant
            j <= list.len(),
            forall|k: int| 0 <= k < j ==> views(list@)[k] != c@,
        decreases list.len() - j,
    {
        if seq_eq(list[j].as_slice(), c) {
            assert(views(list@)[j as int] == c@);
            return true;
        }
        j += 1;
    }
    false
}

/// Combines the readings of one process's `fdinfo` files.
pub fn combine_fdinfo(fds: &Vec<FdinfoUsage>) -> (r: ProcessUsage)
    ensures
        r == process_usage_spec(fds@.map_values(|f: FdinfoUsage| f@)),
{
    let ghost all = fds@.map_values(|f: FdinfoUsage| f@);
    let mut usage = ProcessUsage { has_drm: false, vram_kib: 0, gtt_kib: 0 };
    let mut seen: Vec<Vec<char>> = Vec::new();
    assert(all.take(0) =~= Seq::<FdinfoView>::empty());
    assert(views(seen@) =~= Seq::<Seq<char>>::empty());
    let mut i: usize = 0;
    while i < fds.len()
        invariant
            all == fds@.map_values(|f: FdinfoUsage| f@),
            i <= fds.len(),
            combine_fold(all.take(i as int)) == (CombineState { usage, seen: views(seen@) }),
        decreases fds.len() - i,
    {
        let f = &fds[i];
        assert(all[i as int] == f@);
        assert(all.take(i + 1).drop_last() =~= all.take(i as int));
        if f.is_drm {
            let fresh = match &f.client_id {
                Some(c) => {
                    let cv = chars_of(c.as_str());
                    if listed(&seen, cv.as_slice()) {
                        false
                    } else {
                        let ghost before = views(seen@);
                        seen.push(cv);
                        assert(views(seen@) =~= before.push(c@));
                        true
                    }
                },
                None => true,
            };
            if fresh {
                usage = ProcessUsage {
                    has_drm: true,
                    vram_kib: sat_add(usage.vram_kib, f.vram_kib),
                    gtt_kib: sat_add(usage.gtt_kib, f.gtt_kib),
                };
            } else {
                usage = ProcessUsage { has_drm: true, ..usage };
            }
        }
        i += 1;
    }
    assert(all.take(fds.len() as int) =~= all);
    usage
}

/// Reads and combines the `fdinfo` files of one process.
pub fn process_usage(contents: &Vec<String>) -> (r: ProcessUsage)
    ensures
        r == process_usage_spec(contents@.map_values(|c: String| fdinfo_spec(c@))),
{
    let mut fds: Vec<FdinfoUsage> = Vec::new();
    let mut i: usize = 0;
    while i < contents.len()
        invariant
            i <= contents.len(),
            fds@.map_values(|f: FdinfoUsage| f@) == contents@.take(i as int).map_values(
                |c: String| fdinfo_spec(c@),
            ),
        decreases contents.len() - i,
    {
        let f = parse_fdinfo(contents[i].as_str());
        let ghost before = fds@;
        let ghost fv = f@;
        fds.push(f);
        assert(fds@.map_values(|f: FdinfoUsage| f@) =~= before.map_values(|f: FdinfoUsage| f@).push(
            fv,
        ));
        assert(contents@.take(i + 1) =~= contents@.take(i as int).push(contents@[i as int]));
        assert(fds@.map_values(|f: FdinfoUsage| f@) =~= contents@.take(i + 1).map_values(
            |c: String| fdinfo_spec(c@),
        ));
        i += 1;
    }
    assert(contents@.take(contents.len() as int) =~= contents@);
    combine_fdinfo(&fds)
}

// ---------------------------------------------------------------------------
// The process list
// ---------------------------------------------------------------------------

/// A process using GPU memory.
pub struct GpuProcessEntry {
    pub pid: u32,
    pub name: String,
    pub vram_bytes: u64,
    pub gtt_bytes: u64,
}

/// The name shown for a process: its `comm` trimmed, or `PID <pid>` when
/// that could not be read.
pub open spec fn process_name(pid: u32, comm: Option<Seq<char>>) -> Seq<char> {
    match comm {
        Some(c) => trim(c),
        None => "PID "@ + decimal_digits(pid as nat),
    }
}

/// The list entry of process `pid` with totals `usage`; `comm` is the
/// contents of its `comm` file, if it could be read.
pub fn gpu_process_entry(pid: u32, usage: ProcessUsage, comm: Option<String>) -> (r: GpuProcessEntry)
    ensures
        r.pid == pid,
        r.name@ == process_name(pid, opt_view(comm)),
        r.vram_bytes == sat_mul_spec(usage.vram_kib, 1024),
        r.gtt_bytes == sat_mul_spec(usage.gtt_kib, 1024),
{
    let name = match comm {
        Some(c) => {
            let cs = chars_of(c.as_str());
            let t = trim_chars(cs.as_slice());
            string_from_chars(t.as_slice())
        },
        None => {
            let mut n = String::from_str("PID ");
            let digits = decimal_string(pid as u64);
            n.append(digits.as_str());
            n
        },
    };
    GpuProcessEntry {
        pid,
        name,
        vram_bytes: sat_mul(usage.vram_kib, 1024),
        gtt_bytes: sat_mul(usage.gtt_kib, 1024),
    }
}

/// Where an entry with `vram` bytes goes in a list ordered by decreasing
/// VRAM: after every entry with at least as much.
pub open spec fn insert_pos(s: Seq<GpuProcessEntry>, vram: u64) -> int
    decreases s.len(),
{
    if s.len() == 0 {
        0
    } else if s[0].vram_bytes < vram {
        0
    } else {
        1 + insert_pos(s.drop_first(), vram)
    }
}

/// `s` with `e` inserted after every entry with at least as much VRAM.
pub open spec fn insert_by_vram(s: Seq<GpuProcessEntry>, e: GpuProcessEntry) -> Seq<GpuProcessEntry> {
    s.insert(insert_pos(s, e.vram_bytes), e)
}

/// `s` ordered by decreasing VRAM, entries with equal VRAM in their
/// input order (a stable sort, as `sort_by_key` with `Reverse` does).
pub open spec fn sort_by_vram_spec(s: Seq<GpuProcessEntry>) -> Seq<GpuProcessEntry>
    decreases s.len(),
{
    if s.len() == 0 {
        s
    } else {
        insert_by_vram(sort_by_vram_spec(s.drop_last()), s.last())
    }
}

/// Ordered by decreasing VRAM.
pub open spec fn vram_descending(s: Seq<GpuProcessEntry>) -> bool {
    forall|i: int, j: int| 0 <= i < j < s.len() ==> s[i].vram_bytes >= s[j].vram_bytes
}

proof fn lemma_insert_pos_bounds(s: Seq<GpuProcessEntry>, vram: u64)
    ensures
        0 <= insert_pos(s, vram) <= s.len(),
        forall|k: int| 0 <= k < insert_pos(s, vram) ==> s[k].vram_bytes >= vram,
        insert_pos(s, vram) < s.len() ==> s[insert_pos(s, vram)].vram_bytes < vram,
    decreases s.len(),
{
    if s.len() > 0 && s[0].vram_bytes >= vram {
        lemma_insert_pos_bounds(s.drop_first(), vram);
        assert forall|k: int| 0 <= k < insert_pos(s, vram) implies s[k].vram_bytes >= vram by {
            if k > 0 {
                assert(s[k] == s.drop_first()[k - 1]);
            }
        }
    }
}

/// Places `e` in the ordered list `out`.
fn insert_entry(out: &mut Vec<GpuProcessEntry>, e: GpuProcessEntry)
    ensures
        final(out)@ == insert_by_vram(old(out)@, e),
{
    let ghost s = out@;
    assert(s.skip(0) =~= s);
    let mut p: usize = 0;
    while p < out.len() && out[p].vram_bytes >= e.vram_bytes
        invariant
            out@ == s,
            p <= out.len(),
            insert_pos(s, e.vram_bytes) == p + insert_pos(s.skip(p as int), e.vram_bytes),
        decreases out.len() - p,
    {
        assert(s.skip(p as int).drop_first() =~= s.skip(p + 1));
        p += 1;
    }
    if p < out.len() {
        assert(s.skip(p as int)[0] == s[p as int]);
    }
    assert(insert_pos(s.skip(p as int), e.vram_bytes) == 0);
    out.insert(p, e);
}

/// Orders the process list by decreasing VRAM use; processes with equal
/// VRAM keep their order.
pub fn sort_by_vram_desc(v: Vec<GpuProcessEntry>) -> (r: Vec<GpuProcessEntry>)
    ensures
        r@ == sort_by_vram_spec(v@),
{
    let ghost orig = v@;
    let n = v.len();
    let mut rest = v;
    let mut out: Vec<GpuProcessEntry> = Vec::new();
    let mut k: usize = 0;
    assert(orig.take(0) =~= Seq::<GpuProcessEntry>::empty());
    assert(orig.skip(0) =~= orig);
    while rest.len() > 0
        invariant
            k <= orig.len(),
            orig.len() == n,
            rest@ == orig.skip(k as int),
            out@ == sort_by_vram_spec(orig.take(k as int)),
        decreases rest.len(),
    {
        let e = rest.remove(0);
        assert(e == orig[k as int]);
        assert(rest@ =~= orig.skip(k + 1));
        assert(orig.take(k + 1).drop_last() =~= orig.take(k as int));
        insert_entry(&mut out, e);
        k += 1;
    }
    assert(orig.take(k as int) =~= orig);
    out
}

// ---------------------------------------------------------------------------
// Laws
// ---------------------------------------------------------------------------

proof fn lemma_insert_keeps_order(s: Seq<GpuProcessEntry>, e: GpuProcessEntry)
    requires
        vram_descending(s),
    ensures
        vram_descending(insert_by_vram(s, e)),
{
    lemma_insert_pos_bounds(s, e.vram_bytes);
    let p = insert_pos(s, e.vram_bytes);
    let r = insert_by_vram(s, e);
    assert forall|i: int, j: int| 0 <= i < j < r.len() implies r[i].vram_bytes
        >= r[j].vram_bytes by {
        if j < p {
        } else if j == p {
        } else if i < p {
        } else if i == p {
            assert(r[j] == s[j - 1]);
        } else {
        }
    }
}

/// The process list comes out ordered by decreasing VRAM.
pub proof fn law_sort_orders_by_vram(s: Seq<GpuProcessEntry>)
    ensures
        vram_descending(sort_by_vram_spec(s)),
    decreases s.len(),
{
    if s.len() > 0 {
        law_sort_orders_by_vram(s.drop_last());
        lemma_insert_keeps_order(sort_by_vram_spec(s.drop_last()), s.last());
    }
}

/// Ordering the process list neither drops nor adds nor duplicates an entry.
pub proof fn law_sort_is_permutation(s: Seq<GpuProcessEntry>)
    ensures
        sort_by_vram_spec(s).to_multiset() == s.to_multiset(),
    decreases s.len(),
{
    broadcast use vstd::seq_lib::group_to_multiset_ensures;

    if s.len() > 0 {
        let t = sort_by_vram_spec(s.drop_last());
        law_sort_is_permutation(s.drop_last());
        lemma_insert_pos_bounds(t, s.last().vram_bytes);
        assert(s.drop_last().push(s.last()) =~= s);
    }
}

/// Entries with the same VRAM use keep their relative order.
pub proof fn law_sort_is_stable(s: Seq<GpuProcessEntry>, vram: u64)
    ensures
        sort_by_vram_spec(s).filter(|e: GpuProcessEntry| e.vram_bytes == vram) == s.filter(
            |e: GpuProcessEntry| e.vram_bytes == vram,
        ),
    decreases s.len(),
{
    let pred = |e: GpuProcessEntry| e.vram_bytes == vram;
    if s.len() > 0 {
        let t = sort_by_vram_spec(s.drop_last());
        let x = s.last();
        law_sort_is_stable(s.drop_last(), vram);
        law_sort_orders_by_vram(s.drop_last());
        lemma_insert_pos_bounds(t, x.vram_bytes);
        let p = insert_pos(t, x.vram_bytes);
        assert(s.drop_last().push(x) =~= s);
        s.drop_last().lemma_filter_push(x, pred);
        let a = t.take(p);
        let b = t.skip(p);
        assert(t =~= a + b);
        assert(insert_by_vram(t, x) =~= a.push(x) + b);
        Seq::filter_distributes_over_add(a, b, pred);
        Seq::filter_distributes_over_add(a.push(x), b, pred);
        a.lemma_filter_push(x, pred);
        if pred(x) {
            assert forall|k: int| 0 <= k < b.len() implies !pred(b[k]) by {
                assert(b[k] == t[p + k]);
                assert(t[p].vram_bytes < x.vram_bytes);
            }
            lemma_filter_none(b, pred);
        }
    }
}

proof fn lemma_filter_none(s: Seq<GpuProcessEntry>, pred: spec_fn(GpuProcessEntry) -> bool)
    requires
        forall|k: int| 0 <= k < s.len() ==> !pred(s[k]),
    ensures
        s.filter(pred) =~= Seq::<GpuProcessEntry>::empty(),
    decreases s.len(),
{
    reveal(Seq::filter);
    if s.len() > 0 {
        lemma_filter_none(s.drop_last(), pred);
    }
}

/// Every file is a DRM file and no two share a client id.
pub open spec fn distinct_drm_clients(fds: Seq<FdinfoView>) -> bool {
    &&& forall|i: int| 0 <= i < fds.len() ==> #[trigger] fds[i].is_drm
    &&& forall|i: int, j: int|
        0 <= i < j < fds.len() && fds[i].client_id is Some ==> #[trigger] fds[i].client_id
            != #[trigger] fds[j].client_id
}

/// Sum of the VRAM figures of the files.
pub open spec fn vram_sum(fds: Seq<FdinfoView>) -> int
    decreases fds.len(),
{
    if fds.len() == 0 {
        0
    } else {
        vram_sum(fds.drop_last()) + fds.last().vram_kib
    }
}

/// Sum of the GTT figures of the files.
pub open spec fn gtt_sum(fds: Seq<FdinfoView>) -> int
    decreases fds.len(),
{
    if fds.len() == 0 {
        0
    } else {
        gtt_sum(fds.drop_last()) + fds.last().gtt_kib
    }
}

proof fn lemma_seen_come_from_files(fds: Seq<FdinfoView>)
    ensures
        forall|c: Seq<char>|
            #[trigger] combine_fold(fds).seen.contains(c) ==> exists|j: int|
                0 <= j < fds.len() && #[trigger] fds[j].client_id == Some(c),
    decreases fds.len(),
{
    if fds.len() > 0 {
        let pre = fds.drop_last();
        lemma_seen_come_from_files(pre);
        assert forall|c: Seq<char>| #[trigger] combine_fold(fds).seen.contains(c) implies exists|j: int|
            0 <= j < fds.len() && #[trigger] fds[j].client_id == Some(c) by {
            if combine_fold(pre).seen.contains(c) {
                let j = choose|j: int| 0 <= j < pre.len() && #[trigger] pre[j].client_id == Some(c);
                assert(fds[j] == pre[j]);
            } else {
                assert(fds[fds.len() - 1].client_id == Some(c));
            }
        }
    }
}

/// Files of distinct DRM clients all count: the totals of a process are the
/// sums of its files' figures, capped at `u64::MAX`.
pub proof fn law_distinct_clients_all_count(fds: Seq<FdinfoView>)
    requires
        distinct_drm_clients(fds),
    ensures
        process_usage_spec(fds).has_drm == (fds.len() > 0),
        process_usage_spec(fds).vram_kib == (if vram_sum(fds) > u64::MAX {
            u64::MAX as int
        } else {
            vram_sum(fds)
        }),
        process_usage_spec(fds).gtt_kib == (if gtt_sum(fds) > u64::MAX {
            u64::MAX as int
        } else {
            gtt_sum(fds)
        }),
    decreases fds.len(),
{
    if fds.len() > 0 {
        let pre = fds.drop_last();
        let f = fds.last();
        assert(distinct_drm_clients(pre)) by {
            assert forall|i: int| 0 <= i < pre.len() implies #[trigger] pre[i].is_drm by {
                assert(pre[i] == fds[i]);
            }
            assert forall|i: int, j: int|
                0 <= i < j < pre.len() && pre[i].client_id is Some implies #[trigger] pre[i].client_id
                    != #[trigger] pre[j].client_id by {
                assert(pre[i] == fds[i]);
                assert(pre[j] == fds[j]);
            }
        }
        law_distinct_clients_all_count(pre);
        lemma_seen_come_from_files(pre);
        assert(fds[fds.len() - 1].is_drm);
        if let Some(c) = f.client_id {
            if combine_fold(pre).seen.contains(c) {
                let j = choose|j: int| 0 <= j < pre.len() && #[trigger] pre[j].client_id == Some(c);
                assert(pre[j] == fds[j]);
                assert(fds[j].client_id != fds[fds.len() - 1].client_id);
            }
        }
    }
}

/// A descriptor whose DRM client was already counted adds nothing: reading
/// the same file twice gives the totals of reading it once.
pub proof fn law_shared_client_counted_once(fds: Seq<FdinfoView>, f: FdinfoView)
    requires
        f.client_id is Some,
    ensures
        process_usage_spec(fds.push(f).push(f)) == process_usage_spec(fds.push(f)),
{
    assert(fds.push(f).push(f).drop_last() =~= fds.push(f));
    assert(fds.push(f).drop_last() =~= fds);
    let st = combine_fold(fds);
    if f.is_drm {
        let c = f.client_id->0;
        let st1 = combine_step(st, f);
        assert(st1.seen.contains(c)) by {
            if !st.seen.contains(c) {
                assert(st1.seen.last() == c);
                assert(st1.seen[st1.seen.len() - 1] == c);
            }
        }
    }
}

} // verus!
