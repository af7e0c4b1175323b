//! Decisions of the GPU collectors: which DRM entries are cards, which
//! hwmon files hold which sensor, the model name of a card, and the values
//! read from sysfs files and `nvidia-smi` lines.
use vstd::prelude::*;
use crate::text::{
    chars_of, contains, contains_exec, ends_with, ends_with_exec, first_token, lines_exec,
    lines_spec, lowercase_of, next_token, next_token_bounds, opt_view, parse_i32_spec,
    parse_i32_trimmed, parse_u32_spec, parse_u32_trimmed, parse_u64_spec, parse_u64_trimmed,
    parse_unsigned_exec, seq_eq, split_on, split_on_exec, starts_with, starts_with_exec,
    strip_all_prefix, strip_all_prefix_exec, strip_all_suffix, strip_all_suffix_exec,
    string_from_chars, subvec, to_lowercase, trim, trim_chars, views, lemma_next_token_shorter,
};

verus! {

broadcast use vstd::string::group_string_axioms;

// ---------------------------------------------------------------------------
// Values read from sysfs files
// ---------------------------------------------------------------------------

/// A sysfs file holding a `u32`, such as `gpu_busy_percent`.
pub fn parse_u32_value(content: &str) -> (r: Option<u32>)
    ensures
        r == parse_u32_spec(trim(content@)),
{
    let s = chars_of(content);
    parse_u32_trimmed(s.as_slice())
}

/// A sysfs file holding a `u64`, such as `mem_info_vram_total`.
pub fn parse_u64_value(content: &str) -> (r: Option<u64>)
    ensures
        r == parse_u64_spec(trim(content@)),
{
    let s = chars_of(content);
    parse_u64_trimmed(s.as_slice())
}

/// A sysfs file holding an `i32`, such as a `temp1_input` in millidegrees.
pub fn parse_i32_value(content: &str) -> (r: Option<i32>)
    ensures
        match r {
            Some(v) => parse_i32_spec(trim(content@)) == Some(v as int),
            None => parse_i32_spec(trim(content@)) is None,
        },
{
    let s = chars_of(content);
    parse_i32_trimmed(s.as_slice())
}

// ---------------------------------------------------------------------------
// Cards
// ---------------------------------------------------------------------------

/// The card number of a `/sys/class/drm` entry: `None` for entries that
/// are not cards (no `card` prefix) or are connectors (a `-` in the name);
/// otherwise the number after the `card` prefixes, 0 when it is not one.
pub open spec fn card_index_spec(name: Seq<char>) -> Option<u32> {
    if !starts_with(name, "card"@) || contains(name, "-"@) {
        None
    } else {
        match parse_u32_spec(strip_all_prefix(name, "card"@)) {
            Some(v) => Some(v),
            None => Some(0),
        }
    }
}

/// The card number of a `/sys/class/drm` entry, if it is a card.
pub fn card_index(name: &str) -> (r: Option<u32>)
    ensures
        r == card_index_spec(name@),
{
    let s = chars_of(name);
    let card = chars_of("card");
    let dash = chars_of("-");
    if !starts_with_exec(s.as_slice(), card.as_slice()) || contains_exec(s.as_slice(), dash.as_slice()) {
        return None;
    }
    let digits = strip_all_prefix_exec(s.as_slice(), card.as_slice());
    match parse_unsigned_exec(digits.as_slice(), u32::MAX as u64) {
        Some(v) => Some(v as u32),
        None => Some(0),
    }
}

/// Whether a driver link target names the `amdgpu` driver.
pub fn is_amdgpu_driver(link_target: &str) -> (b: bool)
    ensures
        b == contains(link_target@, "amdgpu"@),
{
    let s = chars_of(link_target);
    let pat = chars_of("amdgpu");
    contains_exec(s.as_slice(), pat.as_slice())
}

/// Index of the first name that starts with `prefix`.
pub open spec fn first_with_prefix(names: Seq<Seq<char>>, prefix: Seq<char>) -> Option<int>
    decreases names.len(),
{
    if names.len() == 0 {
        None
    } else if starts_with(names[0], prefix) {
        Some(0)
    } else {
        match first_with_prefix(names.drop_first(), prefix) {
            Some(i) => Some(i + 1),
            None => None,
        }
    }
}

/// The hwmon directory of a card: the first entry of its `hwmon` directory,
/// in the order listed, whose name starts with `hwmon`.
pub fn first_hwmon_entry(names: &Vec<String>) -> (r: Option<usize>)
    ensures
        match r {
            Some(i) => first_with_prefix(names@.map_values(|n: String| n@), "hwmon"@) == Some(
                i as int,
            ),
            None => first_with_prefix(names@.map_values(|n: String| n@), "hwmon"@) is None,
        },
{
    let ghost all = names@.map_values(|n: String| n@);
    let prefix = chars_of("hwmon");
    let mut i: usize = 0;
    assert(all.skip(0) =~= all);
    while i < names.len()
        invariant
            all == names@.map_values(|n: String| n@),
            prefix@ == "hwmon"@,
            i <= names.len(),
            first_with_prefix(all, "hwmon"@) == (match first_with_prefix(all.skip(i as int), "hwmon"@) {
                Some(k) => Some(k + i),
                None => None,
            }),
        decreases names.len() - i,
    {
        let n = chars_of(names[i].as_str());
        assert(n@ == all.skip(i as int)[0]);
        if starts_with_exec(n.as_slice(), prefix.as_slice()) {
            return Some(i);
        }
        assert(all.skip(i as int).drop_first() =~= all.skip(i + 1));
        i += 1;
    }
    None
}

/// The PCI address segment of a path: the first `/`-separated segment
/// that starts with `0000:`.
pub open spec fn pci_segment(parts: Seq<Seq<char>>) -> Option<Seq<char>>
    decreases parts.len(),
{
    if parts.len() == 0 {
        None
    } else if starts_with(parts[0], "0000:"@) {
        Some(parts[0])
    } else {
        pci_segment(parts.drop_first())
    }
}

/// The PCI id of a card from the target of its `/sys/class/drm` link:
/// the PCI address segment, `0000:00:00.0` when there is none, and
/// `Unknown PCI` when the link could not be read.
pub open spec fn pci_id_spec(link: Option<Seq<char>>) -> Seq<char> {
    match link {
        Some(l) => match pci_segment(split_on(l, '/')) {
            Some(p) => p,
            None => "0000:00:00.0"@,
        },
        None => "Unknown PCI"@,
    }
}

/// The PCI id of a card from the target of its `/sys/class/drm` link.
pub fn pci_id_from_link(link: Option<String>) -> (r: String)
    ensures
        r@ == pci_id_spec(opt_view(link)),
{
    match link {
        None => String::from_str("Unknown PCI"),
        Some(l) => {
            let s = chars_of(l.as_str());
            let parts = split_on_exec(s.as_slice(), '/');
            let prefix = chars_of("0000:");
            let ghost ps = views(parts@);
            assert(ps.skip(0) =~= ps);
            let mut i: usize = 0;
            while i < parts.len() && !starts_with_exec(parts[i].as_slice(), prefix.as_slice())
                invariant
                    ps == views(parts@),
                    ps == split_on(l@, '/'),
                    prefix@ == "0000:"@,
                    i <= parts.len(),
                    pci_segment(ps) == pci_segment(ps.skip(i as int)),
                decreases parts.len() - i,
            {
                assert(ps.skip(i as int)[0] == parts[i as int]@);
                assert(ps.skip(i as int).drop_first() =~= ps.skip(i + 1));
                i += 1;
            }
            if i < parts.len() && starts_with_exec(parts[i].as_slice(), prefix.as_slice()) {
                assert(ps.skip(i as int)[0] == parts[i as int]@);
                string_from_chars(parts[i].as_slice())
            } else {
                String::from_str("0000:00:00.0")
            }
        },
    }
}

// ---------------------------------------------------------------------------
// Model names
// ---------------------------------------------------------------------------

/// Marketing names of the PCI device ids known by number.
pub open spec fn known_amd_model(device_id: Seq<char>) -> Option<Seq<char>> {
    if device_id == "0x744c"@ {
        Some("AMD Radeon RX 7900 XTX"@)
    } else if device_id == "0x7448"@ {
        Some("AMD Radeon RX 7900 XT"@)
    } else if device_id == "0x7449"@ {
        Some("AMD Radeon RX 7900 GRE"@)
    } else if device_id == "0x73bf"@ {
        Some("AMD Radeon RX 6900 XT / 6950 XT"@)
    } else if device_id == "0x73df"@ {
        Some("AMD Radeon RX 6700 XT / 6750 XT"@)
    } else if device_id == "0x743f"@ {
        Some("AMD Radeon RX 6400 / 6500 XT"@)
    } else {
        None
    }
}

/// The model name of an AMD card: the known name of its (lowercase) device
/// id, else its `product_name` trimmed when not empty, else
/// `AMD Radeon (<pci id>)`.
pub open spec fn amd_model_name_spec(
    device_id: Seq<char>,
    product_name: Option<Seq<char>>,
    pci_id: Seq<char>,
) -> Seq<char> {
    match known_amd_model(device_id) {
        Some(n) => n,
        None => match product_name {
            Some(p) if trim(p).len() > 0 => trim(p),
            _ => "AMD Radeon ("@ + pci_id + ")"@,
        },
    }
}

/// The model name of an AMD card from its lowercase device id, the
/// contents of its `product_name` file if readable, and its PCI id.
pub fn amd_model_name(device_id: &str, product_name: Option<String>, pci_id: &str) -> (r: String)
    ensures
        r@ == amd_model_name_spec(device_id@, opt_view(product_name), pci_id@),
{
    let d = chars_of(device_id);
    if seq_eq(d.as_slice(), chars_of("0x744c").as_slice()) {
        return String::from_str("AMD Radeon RX 7900 XTX");
    }
    if seq_eq(d.as_slice(), chars_of("0x7448").as_slice()) {
        return String::from_str("AMD Radeon RX 7900 XT");
    }
    if seq_eq(d.as_slice(), chars_of("0x7449").as_slice()) {
        return String::from_str("AMD Radeon RX 7900 GRE");
    }
    if seq_eq(d.as_slice(), chars_of("0x73bf").as_slice()) {
        return String::from_str("AMD Radeon RX 6900 XT / 6950 XT");
    }
    if seq_eq(d.as_slice(), chars_of("0x73df").as_slice()) {
        return String::from_str("AMD Radeon RX 6700 XT / 6750 XT");
    }
    if seq_eq(d.as_slice(), chars_of("0x743f").as_slice()) {
        return String::from_str("AMD Radeon RX 6400 / 6500 XT");
    }
    if let Some(p) = product_name {
        let ps = chars_of(p.as_str());
        let t = trim_chars(ps.as_slice());
        if t.len() > 0 {
            return string_from_chars(t.as_slice());
        }
    }
    let mut r = String::from_str("AMD Radeon (");
    r.append(pci_id);
    r.append(")");
    r
}

/// The model name of an AMD card from the contents of its `device` and
/// `product_name` files (each if readable) and its PCI id; the device id
/// is compared trimmed and lowercased.
pub fn detect_amd_model_name(
    device_file: Option<String>,
    product_name: Option<String>,
    pci_id: &str,
) -> (r: String)
    ensures
        r@ == amd_model_name_spec(
            match device_file {
                Some(d) => lowercase_of(trim(d@)),
                None => Seq::empty(),
            },
            opt_view(product_name),
            pci_id@,
        ),
{
    let device_id = match device_file {
        Some(d) => {
            let ds = chars_of(d.as_str());
            let t = string_from_chars(trim_chars(ds.as_slice()).as_slice());
            to_lowercase(t.as_str())
        },
        None => String::new(),
    };
    amd_model_name(device_id.as_str(), product_name, pci_id)
}

// ---------------------------------------------------------------------------
// hwmon sensors
// ---------------------------------------------------------------------------

/// What a temperature label names.
#[derive(Clone, Copy, PartialEq, Eq, Structural)]
pub enum TempLabelKind {
    Edge,
    Junction,
    Memory,
    Other,
}

/// The kind of a lowercase temperature label: `edge`; `junction` or
/// `hotspot`; `mem`; tried in that order.
pub open spec fn temp_label_kind_spec(lower: Seq<char>) -> TempLabelKind {
    if contains(lower, "edge"@) {
        TempLabelKind::Edge
    } else if contains(lower, "junction"@) || contains(lower, "hotspot"@) {
        TempLabelKind::Junction
    } else if contains(lower, "mem"@) {
        TempLabelKind::Memory
    } else {
        TempLabelKind::Other
    }
}

/// The kind of a lowercase temperature label.
pub fn temp_label_kind(lower: &str) -> (k: TempLabelKind)
    ensures
        k == temp_label_kind_spec(lower@),
{
    let s = chars_of(lower);
    if contains_exec(s.as_slice(), chars_of("edge").as_slice()) {
        TempLabelKind::Edge
    } else if contains_exec(s.as_slice(), chars_of("junction").as_slice()) || contains_exec(
        s.as_slice(),
        chars_of("hotspot").as_slice(),
    ) {
        TempLabelKind::Junction
    } else if contains_exec(s.as_slice(), chars_of("mem").as_slice()) {
        TempLabelKind::Memory
    } else {
        TempLabelKind::Other
    }
}

/// The hwmon temperature inputs (by number) of each sensor.
#[derive(Clone, Copy, PartialEq, Eq, Structural)]
pub struct TempSensors {
    pub edge: Option<u32>,
    pub junction: Option<u32>,
    pub memory: Option<u32>,
}

/// The effect of temperature input `i` with label `label` (if readable):
/// a labelled input becomes the sensor its trimmed, lowercased label
/// names, a later one replacing an earlier; an unlabelled first input is
/// taken as the edge sensor when it exists.
pub open spec fn temp_step(
    st: TempSensors,
    i: u32,
    label: Option<Seq<char>>,
    temp1_input_exists: bool,
) -> TempSensors {
    match label {
        Some(l) => match temp_label_kind_spec(lowercase_of(trim(l))) {
            TempLabelKind::Edge => TempSensors { edge: Some(i), ..st },
            TempLabelKind::Junction => TempSensors { junction: Some(i), ..st },
            TempLabelKind::Memory => TempSensors { memory: Some(i), ..st },
            TempLabelKind::Other => st,
        },
        None => if i == 1 && temp1_input_exists && st.edge is None {
            TempSensors { edge: Some(1), ..st }
        } else {
            st
        },
    }
}

/// The sensors after the labels of inputs `1..=labels.len()`.
pub open spec fn temp_sensors_spec(labels: Seq<Option<Seq<char>>>, temp1_input_exists: bool) -> TempSensors
    decreases labels.len(),
{
    if labels.len() == 0 {
        TempSensors { edge: None, junction: None, memory: None }
    } else {
        temp_step(
            temp_sensors_spec(labels.drop_last(), temp1_input_exists),
            labels.len() as u32,
            labels.last(),
            temp1_input_exists,
        )
    }
}

/// Where a card's power reading comes from.
#[derive(Clone, Copy, PartialEq, Eq, Structural)]
pub enum PowerSource {
    /// `power1_average`
    Average,
    /// `power1_input`
    Input,
}

/// The sensor files of a card's hwmon directory.
#[derive(Clone, Copy, PartialEq, Eq, Structural)]
pub struct HwmonFiles {
    pub temps: TempSensors,
    pub power: Option<PowerSource>,
    pub has_power_cap: bool,
    pub has_fan_pwm: bool,
}

/// The sensor files of a hwmon directory, from the contents of its
/// `temp<i>_label` files (`labels[i - 1]`, each if readable) and which of
/// its other files exist: power from `power1_average`, else from
/// `power1_input`.
pub open spec fn hwmon_files_spec(
    labels: Seq<Option<Seq<char>>>,
    temp1_input_exists: bool,
    power_average_exists: bool,
    power_input_exists: bool,
    power_cap_exists: bool,
    pwm_exists: bool,
) -> HwmonFiles {
    HwmonFiles {
        temps: temp_sensors_spec(labels, temp1_input_exists),
        power: if power_average_exists {
            Some(PowerSource::Average)
        } else if power_input_exists {
            Some(PowerSource::Input)
        } else {
            None
        },
        has_power_cap: power_cap_exists,
        has_fan_pwm: pwm_exists,
    }
}

/// Decides which hwmon files hold which sensor.
pub fn hwmon_files(
    labels: &Vec<Option<String>>,
    temp1_input_exists: bool,
    power_average_exists: bool,
    power_input_exists: bool,
    power_cap_exists: bool,
    pwm_exists: bool,
) -> (r: HwmonFiles)
    requires
        labels.len() < u32::MAX,
    ensures
        r == hwmon_files_spec(
            labels@.map_values(|l: Option<String>| opt_view(l)),
            temp1_input_exists,
            power_average_exists,
            power_input_exists,
            power_cap_exists,
            pwm_exists,
        ),
{
    let ghost ls = labels@.map_values(|l: Option<String>| opt_view(l));
    let mut temps = TempSensors { edge: None, junction: None, memory: None };
    let mut i: usize = 0;
    assert(ls.take(0) =~= Seq::<Option<Seq<char>>>::empty());
    while i < labels.len()
        invariant
            ls == labels@.map_values(|l: Option<String>| opt_view(l)),
            labels.len() < u32::MAX,
            i <= labels.len(),
            temps == temp_sensors_spec(ls.take(i as int), temp1_input_exists),
        decreases labels.len() - i,
    {
        let n: u32 = (i + 1) as u32;
        assert(ls[i as int] == opt_view(labels[i as int]));
        assert(ls.take(i + 1).drop_last() =~= ls.take(i as int));
        assert(ls.take(i + 1).len() == n);
        match &labels[i] {
            Some(l) => {
                let ls_chars = chars_of(l.as_str());
                let t = string_from_chars(trim_chars(ls_chars.as_slice()).as_slice());
                let lower = to_lowercase(t.as_str());
                match temp_label_kind(lower.as_str()) {
                    TempLabelKind::Edge => {
                        temps = TempSensors { edge: Some(n), ..temps };
                    },
                    TempLabelKind::Junction => {
                        temps = TempSensors { junction: Some(n), ..temps };
                    },
                    TempLabelKind::Memory => {
                        temps = TempSensors { memory: Some(n), ..temps };
                    },
                    TempLabelKind::Other => {},
                }
            },
            None => {
                if n == 1 && temp1_input_exists && temps.edge.is_none() {
                    temps = TempSensors { edge: Some(1), ..temps };
                }
            },
        }
        i += 1;
    }
    assert(ls.take(labels.len() as int) =~= ls);
    let power = if power_average_exists {
        Some(PowerSource::Average)
    } else if power_input_exists {
        Some(PowerSource::Input)
    } else {
        None
    };
    HwmonFiles { temps, power, has_power_cap: power_cap_exists, has_fan_pwm: pwm_exists }
}

// ---------------------------------------------------------------------------
// Memory clock
// ---------------------------------------------------------------------------

/// The first whitespace-separated token of `s` that ends in `Mhz` or `MHz`.
pub open spec fn first_mhz_token(s: Seq<char>) -> Option<Seq<char>>
    decreases s.len(),
{
    match next_token(s) {
        None => None,
        Some((t, rest)) => {
            proof {
                lemma_next_token_shorter(s);
            }
            if ends_with(t, "Mhz"@) || ends_with(t, "MHz"@) {
                Some(t)
            } else {
                first_mhz_token(rest)
            }
        },
    }
}

/// The clock of one `pp_dpm_mclk` line: for the active level (marked with
/// `*`), the number of its first MHz token, with the unit removed.
pub open spec fn mclk_of_line(line: Seq<char>) -> Option<u32> {
    if contains(line, "*"@) {
        match first_mhz_token(line) {
            Some(t) => parse_u32_spec(strip_all_suffix(strip_all_suffix(t, "Mhz"@), "MHz"@)),
            None => None,
        }
    } else {
        None
    }
}

/// The clock of the first line that yields one.
pub open spec fn mclk_of_lines(lines: Seq<Seq<char>>) -> Option<u32>
    decreases lines.len(),
{
    if lines.len() == 0 {
        None
    } else {
        match mclk_of_line(lines[0]) {
            Some(v) => Some(v),
            None => mclk_of_lines(lines.drop_first()),
        }
    }
}

/// The current memory clock in MHz from a `pp_dpm_mclk` file.
pub open spec fn dpm_mclk_spec(content: Seq<char>) -> Option<u32> {
    mclk_of_lines(lines_spec(content))
}

/// The first MHz token of `s`.
fn first_mhz_token_exec(s: &[char]) -> (r: Option<Vec<char>>)
    ensures
        match r {
            Some(v) => first_mhz_token(s@) == Some(v@),
            None => first_mhz_token(s@) is None,
        },
{
    let mhz1 = chars_of("Mhz");
    let mhz2 = chars_of("MHz");
    let mut pos: usize = 0;
    assert(s@.skip(0) =~= s@);
    loop
        invariant
            pos <= s.len(),
            mhz1@ == "Mhz"@,
            mhz2@ == "MHz"@,
            first_mhz_token(s@) == first_mhz_token(s@.skip(pos as int)),
        decreases s.len() - pos,
    {
        match next_token_bounds(s, pos) {
            None => {
                return None;
            },
            Some((lo, hi)) => {
                let t = subvec(s, lo, hi);
                if ends_with_exec(t.as_slice(), mhz1.as_slice()) || ends_with_exec(
                    t.as_slice(),
                    mhz2.as_slice(),
                ) {
                    return Some(t);
                }
                pos = hi;
            },
        }
    }
}

/// The current memory clock in MHz from the contents of a `pp_dpm_mclk`
/// file: the first line marked active (`*`) whose MHz figure reads as a
/// number.
pub fn parse_amd_dpm_mclk(content: &str) -> (r: Option<u32>)
    ensures
        r == dpm_mclk_spec(content@),
{
    let s = chars_of(content);
    let lines = lines_exec(s.as_slice());
    let star = chars_of("*");
    let mhz1 = chars_of("Mhz");
    let mhz2 = chars_of("MHz");
    let ghost ls = views(lines@);
    assert(ls.skip(0) =~= ls);
    let mut i: usize = 0;
    while i < lines.len()
        invariant
            ls == views(lines@),
            ls == lines_spec(content@),
            star@ == "*"@,
            mhz1@ == "Mhz"@,
            mhz2@ == "MHz"@,
            i <= lines.len(),
            mclk_of_lines(ls) == mclk_of_lines(ls.skip(i as int)),
        decreases lines.len() - i,
    {
        let line = &lines[i];
        assert(ls.skip(i as int)[0] == line@);
        assert(ls.skip(i as int).drop_first() =~= ls.skip(i + 1));
        if contains_exec(line.as_slice(), star.as_slice()) {
            if let Some(t) = first_mhz_token_exec(line.as_slice()) {
                let a = strip_all_suffix_exec(t.as_slice(), mhz1.as_slice());
                let b = strip_all_suffix_exec(a.as_slice(), mhz2.as_slice());
                match parse_unsigned_exec(b.as_slice(), u32::MAX as u64) {
                    Some(v) => {
                        return Some(v as u32);
                    },
                    None => {},
                }
            }
        }
        i += 1;
    }
    None
}

// ---------------------------------------------------------------------------
// nvidia-smi
// ---------------------------------------------------------------------------

/// The fields of one line of `nvidia-smi --query-gpu=... --format=csv`
/// output. The utilisation, temperature and power fields stay text: they
/// are decimal fractions.
pub struct NvidiaFields {
    pub index: u32,
    pub name: String,
    pub driver_version: String,
    pub utilization_gpu: String,
    pub utilization_memory: String,
    pub memory_total_mib: u64,
    pub memory_used_mib: u64,
    pub temperature: String,
    pub power_draw: String,
    pub power_limit: String,
}

/// A `u64` field, 0 when it is not a number.
pub open spec fn u64_or_zero(s: Seq<char>) -> u64 {
    match parse_u64_spec(s) {
        Some(v) => v,
        None => 0,
    }
}

/// The comma-separated fields of a line, each trimmed.
pub open spec fn csv_fields(line: Seq<char>) -> Seq<Seq<char>> {
    split_on(line, ',').map_values(|f: Seq<char>| trim(f))
}

/// Whether `f` holds the fields of `line`: `None` for a line with fewer
/// than ten fields; else the index (0 when not a number), name, driver,
/// the two memory sizes in MiB (0 when not a number) and the text of the
/// other fields.
pub open spec fn nvidia_fields_ok(f: Option<NvidiaFields>, line: Seq<char>) -> bool {
    let p = csv_fields(line);
    if p.len() < 10 {
        f is None
    } else {
        f matches Some(x) && {
            &&& x.index == (match parse_u32_spec(p[0]) {
                Some(v) => v,
                None => 0,
            })
            &&& x.name@ == p[1]
            &&& x.driver_version@ == p[2]
            &&& x.utilization_gpu@ == p[3]
            &&& x.utilization_memory@ == p[4]
            &&& x.memory_total_mib == u64_or_zero(p[5])
            &&& x.memory_used_mib == u64_or_zero(p[6])
            &&& x.temperature@ == p[7]
            &&& x.power_draw@ == p[8]
            &&& x.power_limit@ == p[9]
        }
    }
}

/// Splits one line of `nvidia-smi` CSV output into its fields.
pub fn parse_nvidia_csv_line(line: &str) -> (r: Option<NvidiaFields>)
    ensures
        nvidia_fields_ok(r, line@),
{
    let s = chars_of(line);
    let raw = split_on_exec(s.as_slice(), ',');
    let ghost p = csv_fields(line@);
    if raw.len() < 10 {
        return None;
    }
    let mut parts: Vec<String> = Vec::new();
    let mut i: usize = 0;
    while i < raw.len()
        invariant
            views(raw@) == split_on(line@, ','),
            p == csv_fields(line@),
            i <= raw.len(),
            parts.len() == i,
            forall|k: int| 0 <= k < i ==> #[trigger] parts@[k]@ == p[k],
        decreases raw.len() - i,
    {
        assert(views(raw@)[i as int] == raw@[i as int]@);
        let t = trim_chars(raw[i].as_slice());
        parts.push(string_from_chars(t.as_slice()));
        i += 1;
    }
    let index: u32 = match parse_unsigned_exec(chars_of(parts[0].as_str()).as_slice(), u32::MAX as u64) {
        Some(v) => v as u32,
        None => 0,
    };
    let total: u64 = match parse_unsigned_exec(chars_of(parts[5].as_str()).as_slice(), u64::MAX) {
        Some(v) => v,
        None => 0,
    };
    let used: u64 = match parse_unsigned_exec(chars_of(parts[6].as_str()).as_slice(), u64::MAX) {
        Some(v) => v,
        None => 0,
    };
    assert(parts@[0]@ == p[0]);
    assert(parts@[5]@ == p[5]);
    assert(parts@[6]@ == p[6]);
    Some(
        NvidiaFields {
            index,
            name: parts[1].clone(),
            driver_version: parts[2].clone(),
            utilization_gpu: parts[3].clone(),
            utilization_memory: parts[4].clone(),
            memory_total_mib: total,
            memory_used_mib: used,
            temperature: parts[7].clone(),
            power_draw: parts[8].clone(),
            power_limit: parts[9].clone(),
        },
    )
}

/// The columns asked of `nvidia-smi --query-gpu`, in the order it prints
/// them: `index,name,driver_version,utilization.gpu,utilization.memory,
/// memory.total,memory.used,temperature.gpu,power.draw,power.limit`.
pub open spec fn nvidia_query_columns() -> Seq<Seq<char>> {
    seq![
        "index"@,
        "name"@,
        "driver_version"@,
        "utilization.gpu"@,
        "utilization.memory"@,
        "memory.total"@,
        "memory.used"@,
        "temperature.gpu"@,
        "power.draw"@,
        "power.limit"@,
    ]
}

/// The text of the column named `name` of a CSV line: holds when `v` is
/// the trimmed field at the position of `name` in the query.
pub open spec fn is_column(line: Seq<char>, name: Seq<char>, v: Seq<char>) -> bool {
    forall|k: int|
        0 <= k < nvidia_query_columns().len() && #[trigger] nvidia_query_columns()[k] == name
            ==> v == csv_fields(line)[k]
}

proof fn lemma_query_columns_distinct()
    ensures
        forall|i: int, j: int|
            0 <= i < j < 10 ==> #[trigger] nvidia_query_columns()[i] != #[trigger] nvidia_query_columns()[j],
{
    reveal_strlit("index");
    reveal_strlit("name");
    reveal_strlit("driver_version");
    reveal_strlit("utilization.gpu");
    reveal_strlit("utilization.memory");
    reveal_strlit("memory.total");
    reveal_strlit("memory.used");
    reveal_strlit("temperature.gpu");
    reveal_strlit("power.draw");
    reveal_strlit("power.limit");
    let c = nvidia_query_columns();
    assert forall|i: int, j: int| 0 <= i < j < 10 implies #[trigger] c[i] != #[trigger] c[j] by {
        if c[i].len() == c[j].len() {
            assert(c[i][0] != c[j][0]);
        }
    }
}

/// Each field of a parsed `nvidia-smi` line is the column of the query
/// that names it: the index, name and driver version, the two
/// utilisation figures, the temperature (`temperature.gpu`), the power draw
/// (`power.draw`) and limit (`power.limit`) are the trimmed fields at the
/// positions of those names in the query; the memory sizes are the numbers
/// in the `memory.total` and `memory.used` columns (0 when not numbers).
pub proof fn law_nvidia_fields_follow_query(line: Seq<char>, x: NvidiaFields)
    requires
        nvidia_fields_ok(Some(x), line),
    ensures
        is_column(line, "name"@, x.name@),
        is_column(line, "driver_version"@, x.driver_version@),
        is_column(line, "utilization.gpu"@, x.utilization_gpu@),
        is_column(line, "utilization.memory"@, x.utilization_memory@),
        is_column(line, "temperature.gpu"@, x.temperature@),
        is_column(line, "power.draw"@, x.power_draw@),
        is_column(line, "power.limit"@, x.power_limit@),
        forall|k: int|
            0 <= k < 10 && #[trigger] nvidia_query_columns()[k] == "memory.total"@
                ==> x.memory_total_mib == u64_or_zero(csv_fields(line)[k]),
        forall|k: int|
            0 <= k < 10 && #[trigger] nvidia_query_columns()[k] == "memory.used"@
                ==> x.memory_used_mib == u64_or_zero(csv_fields(line)[k]),
        forall|k: int|
            0 <= k < 10 && #[trigger] nvidia_query_columns()[k] == "index"@ ==> x.index == (match parse_u32_spec(
                csv_fields(line)[k],
            ) {
                Some(v) => v,
                None => 0,
            }),
{
    lemma_query_columns_distinct();
    let c = nvidia_query_columns();
    assert(c.len() == 10);
    assert forall|k: int, n: int| 0 <= k < 10 && 0 <= n < 10 && c[k] == c[n] implies k == n by {
        if k < n {
            assert(c[k] != c[n]);
        } else if n < k {
            assert(c[n] != c[k]);
        }
    }
    assert(c[0] == "index"@);
    assert(c[1] == "name"@);
    assert(c[2] == "driver_version"@);
    assert(c[3] == "utilization.gpu"@);
    assert(c[4] == "utilization.memory"@);
    assert(c[5] == "memory.total"@);
    assert(c[6] == "memory.used"@);
    assert(c[7] == "temperature.gpu"@);
    assert(c[8] == "power.draw"@);
    assert(c[9] == "power.limit"@);
}

/// Bytes in a MiB.
pub const MIB: u64 = 1048576;

/// The VRAM figures in bytes of an `nvidia-smi` report in MiB: total, used
/// and free (total minus used, 0 when used exceeds total).
pub fn nvidia_vram_bytes(total_mib: u64, used_mib: u64) -> (r: (u64, u64, u64))
    requires
        total_mib * MIB <= u64::MAX,
        used_mib * MIB <= u64::MAX,
    ensures
        r.0 == total_mib * MIB,
        r.1 == used_mib * MIB,
        r.2 == (if used_mib <= total_mib {
            (total_mib - used_mib) * MIB
        } else {
            0
        }),
{
    let total = total_mib * MIB;
    let used = used_mib * MIB;
    let free = total.saturating_sub(used);
    assert(used_mib <= total_mib ==> total - used == (total_mib - used_mib) * MIB) by (nonlinear_arith)
        requires
            total == total_mib * MIB,
            used == used_mib * MIB,
    ;
    assert(used_mib > total_mib ==> used > total) by (nonlinear_arith)
        requires
            total == total_mib * MIB,
            used == used_mib * MIB,
            MIB > 0,
    ;
    (total, used, free)
}

} // verus!
