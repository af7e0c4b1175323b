//! The arithmetic and wording of the terminal views: uptime text, process
//! roles, Braille history cells, gauge rows, table scrolling and popup
//! placement.
use vstd::prelude::*;
use crate::text::{
    chars_of, contains, contains_exec, decimal_digits, decimal_string, lowercase_of, to_lowercase,
};

verus! {

broadcast use vstd::string::group_string_axioms;

// ---------------------------------------------------------------------------
// Uptime
// ---------------------------------------------------------------------------

/// Uptime as the dashboard shows it: `<d>d <h>h` from a day on,
/// `<h>h <m>m` from an hour on, else `<m>m`.
pub open spec fn uptime_text(seconds: u64) -> Seq<char> {
    let days = seconds / 86400;
    let hours = (seconds % 86400) / 3600;
    let mins = (seconds % 3600) / 60;
    if days > 0 {
        decimal_digits(days as nat) + "d "@ + decimal_digits(hours as nat) + "h"@
    } else if hours > 0 {
        decimal_digits(hours as nat) + "h "@ + decimal_digits(mins as nat) + "m"@
    } else {
        decimal_digits(mins as nat) + "m"@
    }
}

/// Formats an uptime given in seconds.
pub fn format_uptime(seconds: u64) -> (r: String)
    ensures
        r@ == uptime_text(seconds),
{
    let days = seconds / 86400;
    let hours = (seconds % 86400) / 3600;
    let mins = (seconds % 3600) / 60;
    if days > 0 {
        let mut r = decimal_string(days);
        r.append("d ");
        r.append(decimal_string(hours).as_str());
        r.append("h");
        r
    } else if hours > 0 {
        let mut r = decimal_string(hours);
        r.append("h ");
        r.append(decimal_string(mins).as_str());
        r.append("m");
        r
    } else {
        let mut r = decimal_string(mins);
        r.append("m");
        r
    }
}

// ---------------------------------------------------------------------------
// Process roles
// ---------------------------------------------------------------------------

/// The role of a GPU client from its lowercase name, by the first group of
/// name fragments it contains.
pub open spec fn process_role_spec(lower: Seq<char>) -> Seq<char> {
    if contains(lower, "llama"@) || contains(lower, "vllm"@) || contains(lower, "ollama"@) {
        "LLM Inference Engine"@
    } else if contains(lower, "xwayland"@) || contains(lower, "wayland"@) || contains(lower, "xorg"@) {
        "Display Server (Wayland/X11)"@
    } else if contains(lower, "plasma"@) || contains(lower, "kwin"@) || contains(lower, "gnome"@) {
        "Desktop Compositor / Shell"@
    } else if contains(lower, "steam"@) || contains(lower, "game"@) {
        "Gaming / Steam Client"@
    } else if contains(lower, "discord"@) {
        "Chat / Communication"@
    } else if contains(lower, "chrome"@) || contains(lower, "firefox"@) || contains(lower, "brave"@) {
        "Web Browser"@
    } else if contains(lower, "antigravity"@) {
        "AI Coding Agent"@
    } else {
        "GPU Client"@
    }
}

/// Whether `s` contains the literal `pat`.
fn has(s: &[char], pat: &str) -> (b: bool)
    ensures
        b == contains(s@, pat@),
{
    let p = chars_of(pat);
    contains_exec(s, p.as_slice())
}

/// The role of a GPU client from its lowercase name.
pub fn process_role(lower: &str) -> (r: &'static str)
    ensures
        r@ == process_role_spec(lower@),
{
    let s = chars_of(lower);
    let s = s.as_slice();
    if has(s, "llama") || has(s, "vllm") || has(s, "ollama") {
        "LLM Inference Engine"
    } else if has(s, "xwayland") || has(s, "wayland") || has(s, "xorg") {
        "Display Server (Wayland/X11)"
    } else if has(s, "plasma") || has(s, "kwin") || has(s, "gnome") {
        "Desktop Compositor / Shell"
    } else if has(s, "steam") || has(s, "game") {
        "Gaming / Steam Client"
    } else if has(s, "discord") {
        "Chat / Communication"
    } else if has(s, "chrome") || has(s, "firefox") || has(s, "brave") {
        "Web Browser"
    } else if has(s, "antigravity") {
        "AI Coding Agent"
    } else {
        "GPU Client"
    }
}

/// The role of a GPU client from its process name, matched lowercased.
pub fn classify_process(name: &str) -> (r: &'static str)
    ensures
        r@ == process_role_spec(lowercase_of(name@)),
{
    let lower = to_lowercase(name);
    process_role(lower.as_str())
}

/// Whether a process name, lowercased, names a llama.cpp process (such
/// rows are highlighted).
pub fn is_llama_process(name: &str) -> (b: bool)
    ensures
        b == contains(lowercase_of(name@), "llama"@),
{
    let lower = to_lowercase(name);
    let s = chars_of(lower.as_str());
    has(s.as_slice(), "llama")
}

// ---------------------------------------------------------------------------
// Tables and popups
// ---------------------------------------------------------------------------

/// The selected row of a list of `len` rows: `index`, or the last row when
/// it lies past the end (0 for an empty list).
pub open spec fn clamp_row_spec(index: usize, len: usize) -> usize {
    if len == 0 {
        0
    } else if index < len {
        index
    } else {
        (len - 1) as usize
    }
}

/// The selected row of a list of `len` rows.
pub fn clamp_row(index: usize, len: usize) -> (r: usize)
    ensures
        r == clamp_row_spec(index, len),
{
    let last = len.saturating_sub(1);
    if index < last {
        index
    } else {
        last
    }
}

/// The first row shown of a table with `visible` rows so that row
/// `selected` is shown: 0 while it fits, else the window that ends at it.
pub open spec fn scroll_offset_spec(selected: usize, visible: usize) -> usize {
    if selected >= visible {
        if visible == 0 {
            selected
        } else {
            (selected - (visible - 1)) as usize
        }
    } else {
        0
    }
}

/// The first row shown of a table with `visible` rows.
pub fn scroll_offset(selected: usize, visible: usize) -> (r: usize)
    ensures
        r == scroll_offset_spec(selected, visible),
{
    if selected >= visible {
        selected.saturating_sub(visible.saturating_sub(1))
    } else {
        0
    }
}

/// The selected row is among the rows shown.
pub proof fn law_scroll_shows_selection(selected: usize, visible: usize)
    requires
        visible > 0,
    ensures
        scroll_offset_spec(selected, visible) <= selected,
        selected < scroll_offset_spec(selected, visible) + visible,
{
}

/// A rectangle on the terminal.
#[derive(Clone, Copy, PartialEq, Eq, Structural)]
pub struct Area {
    pub x: u16,
    pub y: u16,
    pub width: u16,
    pub height: u16,
}

/// A popup side: `cap` cells, or the available length less `margin` when
/// that is smaller (0 when the margin does not fit).
pub open spec fn popup_side(avail: u16, margin: u16, cap: u16) -> u16 {
    let room = if avail >= margin {
        (avail - margin) as u16
    } else {
        0
    };
    if room < cap {
        room
    } else {
        cap
    }
}

/// The options popup within `area`: at most 64 columns (4 fewer than the
/// area) by 15 rows (2 fewer than the area), centred.
pub open spec fn options_popup_spec(area: Area) -> Area {
    let width = popup_side(area.width, 4, 64);
    let height = popup_side(area.height, 2, 15);
    Area {
        x: (area.x + (area.width - width) / 2) as u16,
        y: (area.y + (area.height - height) / 2) as u16,
        width,
        height,
    }
}

/// Places the options popup within `area`.
pub fn options_popup(area: Area) -> (r: Area)
    requires
        area.x + (area.width - popup_side(area.width, 4, 64)) / 2 <= u16::MAX,
        area.y + (area.height - popup_side(area.height, 2, 15)) / 2 <= u16::MAX,
    ensures
        r == options_popup_spec(area),
        r.x + r.width <= area.x + area.width,
        r.y + r.height <= area.y + area.height,
{
    let width = if 64 < area.width.saturating_sub(4) {
        64
    } else {
        area.width.saturating_sub(4)
    };
    let height = if 15 < area.height.saturating_sub(2) {
        15
    } else {
        area.height.saturating_sub(2)
    };
    let x = area.x + (area.width - width) / 2;
    let y = area.y + (area.height - height) / 2;
    Area { x, y, width, height }
}

/// Column and bar widths of the per-core histogram: each core gets an
/// equal share of the plot width (at least 1), and bars leave a gap of one
/// column when the share is 3 or more.
pub open spec fn histogram_columns_spec(plot_width: usize, cores: usize) -> (usize, usize) {
    let share = plot_width / cores;
    let col = if share >= 1 { share } else { 1 };
    let bar = if col >= 3 { (col - 1) as usize } else { col };
    (col as usize, bar)
}

/// Column and bar widths of the per-core histogram.
pub fn histogram_columns(plot_width: usize, cores: usize) -> (r: (usize, usize))
    requires
        cores > 0,
    ensures
        r == histogram_columns_spec(plot_width, cores),
{
    let share = plot_width / cores;
    let col = if share >= 1 {
        share
    } else {
        1
    };
    let bar = if col >= 3 {
        col - 1
    } else {
        col
    };
    (col, bar)
}

// ---------------------------------------------------------------------------
// Braille history canvas
// ---------------------------------------------------------------------------

/// The bit of the Braille dot in column `sub_col` (0 or 1) and row
/// `sub_row` (0 at the top to 3) of a cell, in the Unicode dot numbering;
/// 0 outside the cell.
pub open spec fn braille_bit_spec(sub_col: int, sub_row: int) -> u8 {
    if sub_col == 0 && sub_row == 0 {
        0x01
    } else if sub_col == 0 && sub_row == 1 {
        0x02
    } else if sub_col == 0 && sub_row == 2 {
        0x04
    } else if sub_col == 1 && sub_row == 0 {
        0x08
    } else if sub_col == 1 && sub_row == 1 {
        0x10
    } else if sub_col == 1 && sub_row == 2 {
        0x20
    } else if sub_col == 0 && sub_row == 3 {
        0x40
    } else if sub_col == 1 && sub_row == 3 {
        0x80
    } else {
        0
    }
}

/// The bit of a Braille dot within its cell.
pub fn braille_dot_bit(sub_col: usize, sub_row: usize) -> (b: u8)
    ensures
        b == braille_bit_spec(sub_col as int, sub_row as int),
{
    match (sub_col, sub_row) {
        (0, 0) => 0x01,
        (0, 1) => 0x02,
        (0, 2) => 0x04,
        (1, 0) => 0x08,
        (1, 1) => 0x10,
        (1, 2) => 0x20,
        (0, 3) => 0x40,
        (1, 3) => 0x80,
        _ => 0,
    }
}

/// The eight dots of a cell have eight different bits, which together
/// make up the whole byte.
pub proof fn law_braille_bits_cover_byte()
    ensures
        forall|c1: int, r1: int, c2: int, r2: int|
            0 <= c1 < 2 && 0 <= r1 < 4 && 0 <= c2 < 2 && 0 <= r2 < 4 && (c1 != c2 || r1 != r2)
                ==> #[trigger] braille_bit_spec(c1, r1) != #[trigger] braille_bit_spec(c2, r2),
        braille_bit_spec(0, 0) + braille_bit_spec(0, 1) + braille_bit_spec(0, 2) + braille_bit_spec(0, 3)
            + braille_bit_spec(1, 0) + braille_bit_spec(1, 1) + braille_bit_spec(1, 2)
            + braille_bit_spec(1, 3) == 0xff,
{
}

/// The sample shown in dot column `col` of `cols`, with the `len` samples
/// right-aligned (newest in the last column); `None` left of them.
pub open spec fn history_index_spec(col: usize, cols: usize, len: usize) -> Option<usize> {
    let first = if cols >= len { cols - len } else { 0 };
    if col >= first {
        let from_end = cols - 1 - col;
        if from_end < len {
            Some((len - 1 - from_end) as usize)
        } else {
            Some(0)
        }
    } else {
        None
    }
}

/// The sample shown in dot column `col` of `cols`.
pub fn history_index(col: usize, cols: usize, len: usize) -> (r: Option<usize>)
    requires
        col < cols,
    ensures
        r == history_index_spec(col, cols, len),
{
    if col >= cols.saturating_sub(len) {
        let from_end = cols - 1 - col;
        if from_end < len {
            Some(len - 1 - from_end)
        } else {
            Some(0)
        }
    } else {
        None
    }
}

/// Right alignment: column `col` shows the sample `len - cols + col`, so
/// the newest sample is in the last column and older ones follow leftward.
pub proof fn law_history_right_aligned(col: usize, cols: usize, len: usize)
    requires
        col < cols,
    ensures
        cols - len <= col ==> history_index_spec(col, cols, len) == Some((len - cols + col) as usize),
        col < cols - len ==> history_index_spec(col, cols, len) is None,
{
}

/// Whether dot row `sub_row` of cell row `cell_y` is lit in a dot column
/// filled `filled` dots high, on a canvas `height` cells high: an empty
/// column shows a baseline dot on the bottom row; a filled column shows its
/// lowest `filled` dots.
pub open spec fn dot_lit(filled: usize, cell_y: usize, sub_row: int, height: usize) -> bool {
    if filled == 0 {
        cell_y == height - 1 && sub_row == 3
    } else {
        let from_top = cell_y * 4 + sub_row;
        let from_bottom = if height * 4 - 1 >= from_top {
            height * 4 - 1 - from_top
        } else {
            0
        };
        from_bottom < filled
    }
}

/// The bits of the lit dots of one dot column of a cell.
pub open spec fn column_mask(sub_col: int, filled: usize, cell_y: usize, height: usize) -> int {
    (if dot_lit(filled, cell_y, 0, height) {
        braille_bit_spec(sub_col, 0) as int
    } else {
        0
    }) + (if dot_lit(filled, cell_y, 1, height) {
        braille_bit_spec(sub_col, 1) as int
    } else {
        0
    }) + (if dot_lit(filled, cell_y, 2, height) {
        braille_bit_spec(sub_col, 2) as int
    } else {
        0
    }) + (if dot_lit(filled, cell_y, 3, height) {
        braille_bit_spec(sub_col, 3) as int
    } else {
        0
    })
}

/// Whether a filled (not baseline) dot is lit in the column.
pub open spec fn column_has_fill(filled: usize, cell_y: usize, height: usize) -> bool {
    filled > 0 && (dot_lit(filled, cell_y, 0, height) || dot_lit(filled, cell_y, 1, height)
        || dot_lit(filled, cell_y, 2, height) || dot_lit(filled, cell_y, 3, height))
}

/// What one canvas cell shows.
#[derive(Clone, Copy, PartialEq, Eq, Structural)]
pub struct BrailleCell {
    /// Bits of the lit dots; the glyph is `U+2800 + mask`, none when 0.
    pub mask: u8,
    /// Whether any lit dot belongs to a filled column (else only baseline).
    pub has_fill: bool,
    /// The greatest fill height among the columns with a lit filled dot
    /// (0 when none), which picks the cell's colour.
    pub max_filled: usize,
}

/// The cell at row `cell_y` whose left and right dot columns are filled
/// `left` and `right` dots high.
pub open spec fn braille_cell_spec(left: usize, right: usize, cell_y: usize, height: usize) -> BrailleCell {
    let l = column_has_fill(left, cell_y, height);
    let r = column_has_fill(right, cell_y, height);
    BrailleCell {
        mask: (column_mask(0, left, cell_y, height) + column_mask(1, right, cell_y, height)) as u8,
        has_fill: l || r,
        max_filled: if l && r {
            if left >= right {
                left
            } else {
                right
            }
        } else if l {
            left
        } else if r {
            right
        } else {
            0
        },
    }
}

/// Whether dot row `sub_row` of cell row `cell_y` is lit.
fn dot_lit_exec(filled: usize, cell_y: usize, sub_row: usize, height: usize) -> (b: bool)
    requires
        cell_y < height,
        height * 4 <= usize::MAX,
        sub_row < 4,
    ensures
        b == dot_lit(filled, cell_y, sub_row as int, height),
{
    if filled == 0 {
        cell_y == height - 1 && sub_row == 3
    } else {
        let from_top = cell_y * 4 + sub_row;
        let from_bottom = (height * 4 - 1).saturating_sub(from_top);
        from_bottom < filled
    }
}

/// The bits of the lit dots of one dot column of a cell.
fn column_mask_exec(sub_col: usize, filled: usize, cell_y: usize, height: usize) -> (m: u8)
    requires
        sub_col < 2,
        cell_y < height,
        height * 4 <= usize::MAX,
    ensures
        m == column_mask(sub_col as int, filled, cell_y, height),
        m <= (if sub_col == 0 {
            0x47int
        } else {
            0xb8int
        }),
{
    let mut m: u8 = 0;
    if dot_lit_exec(filled, cell_y, 0, height) {
        m = m + braille_dot_bit(sub_col, 0);
    }
    if dot_lit_exec(filled, cell_y, 1, height) {
        m = m + braille_dot_bit(sub_col, 1);
    }
    if dot_lit_exec(filled, cell_y, 2, height) {
        m = m + braille_dot_bit(sub_col, 2);
    }
    if dot_lit_exec(filled, cell_y, 3, height) {
        m = m + braille_dot_bit(sub_col, 3);
    }
    m
}

/// The cell at row `cell_y` (0 at the top) of a canvas `height` cells high
/// whose dot columns are filled `left` and `right` dots high.
pub fn braille_cell(left: usize, right: usize, cell_y: usize, height: usize) -> (c: BrailleCell)
    requires
        cell_y < height,
        height * 4 <= usize::MAX,
    ensures
        c == braille_cell_spec(left, right, cell_y, height),
{
    let lm = column_mask_exec(0, left, cell_y, height);
    let rm = column_mask_exec(1, right, cell_y, height);
    let l = left > 0 && (dot_lit_exec(left, cell_y, 0, height) || dot_lit_exec(left, cell_y, 1, height)
        || dot_lit_exec(left, cell_y, 2, height) || dot_lit_exec(left, cell_y, 3, height));
    let r = right > 0 && (dot_lit_exec(right, cell_y, 0, height) || dot_lit_exec(
        right,
        cell_y,
        1,
        height,
    ) || dot_lit_exec(right, cell_y, 2, height) || dot_lit_exec(right, cell_y, 3, height));
    let max_filled = if l && r {
        if left >= right {
            left
        } else {
            right
        }
    } else if l {
        left
    } else if r {
        right
    } else {
        0
    };
    BrailleCell { mask: lm + rm, has_fill: l || r, max_filled }
}

// ---------------------------------------------------------------------------
// Vertical gauge
// ---------------------------------------------------------------------------

/// The partial-block glyphs of a gauge row, by eighths filled.
pub open spec fn gauge_block(i: int) -> char {
    if i == 1 {
        '▂'
    } else if i == 2 {
        '▃'
    } else if i == 3 {
        '▄'
    } else if i == 4 {
        '▅'
    } else if i == 5 {
        '▆'
    } else if i == 6 {
        '▇'
    } else if i == 7 {
        '█'
    } else {
        ' '
    }
}

/// The glyph of gauge row `row` (counted from the bottom) when `steps`
/// eighths of the column are filled, and whether it shows fill: a full
/// block when the row is covered, a partial block when it is partly
/// covered, a track dot otherwise.
pub open spec fn gauge_row_spec(steps: usize, row: usize) -> (char, bool) {
    let floor = row * 8;
    if steps >= floor + 8 {
        ('█', true)
    } else if steps > floor {
        (gauge_block(if steps - floor < 7 {
            steps - floor
        } else {
            7
        }), true)
    } else {
        ('·', false)
    }
}

/// The glyph of a gauge row.
pub fn gauge_row(steps: usize, row: usize) -> (r: (char, bool))
    requires
        row * 8 + 8 <= usize::MAX,
    ensures
        r == gauge_row_spec(steps, row),
{
    let floor = row * 8;
    if steps >= floor + 8 {
        ('█', true)
    } else if steps > floor {
        let i = if steps - floor < 7 {
            steps - floor
        } else {
            7
        };
        let c = if i == 1 {
            '▂'
        } else if i == 2 {
            '▃'
        } else if i == 3 {
            '▄'
        } else if i == 4 {
            '▅'
        } else if i == 5 {
            '▆'
        } else if i == 6 {
            '▇'
        } else if i == 7 {
            '█'
        } else {
            ' '
        };
        (c, true)
    } else {
        ('·', false)
    }
}

// ---------------------------------------------------------------------------
// Header
// ---------------------------------------------------------------------------

/// The backend status shown in the header: online, offline, or still
/// connecting before the first report.
pub open spec fn connection_label_spec(connected: Option<bool>) -> Seq<char> {
    match connected {
        Some(true) => "● ONLINE"@,
        Some(false) => "○ OFFLINE"@,
        None => "○ CONNECTING"@,
    }
}

/// The backend status shown in the header.
pub fn connection_label(connected: Option<bool>) -> (r: &'static str)
    ensures
        r@ == connection_label_spec(connected),
{
    match connected {
        Some(true) => "● ONLINE",
        Some(false) => "○ OFFLINE",
        None => "○ CONNECTING",
    }
}

} // verus!
