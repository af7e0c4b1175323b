use tfl::ui::{
    braille_cell, braille_dot_bit, clamp_row, classify_process, connection_label, format_uptime,
    gauge_row, histogram_columns, history_index, is_llama_process, options_popup, process_role,
    scroll_offset, Area,
};

#[test]
fn uptime_text() {
    assert_eq!(format_uptime(0), "0m");
    assert_eq!(format_uptime(59), "0m");
    assert_eq!(format_uptime(61), "1m");
    assert_eq!(format_uptime(3600), "1h 0m");
    assert_eq!(format_uptime(3661), "1h 1m");
    assert_eq!(format_uptime(90061), "1d 1h");
    assert_eq!(format_uptime(86400 * 12 + 3600 * 23 + 59 * 60), "12d 23h");
}

#[test]
fn process_roles() {
    assert_eq!(classify_process("llama-server"), "LLM Inference Engine");
    assert_eq!(classify_process("Xwayland"), "Display Server (Wayland/X11)");
    assert_eq!(classify_process("kwin_wayland"), "Display Server (Wayland/X11)");
    assert_eq!(classify_process("plasmashell"), "Desktop Compositor / Shell");
    assert_eq!(classify_process("steamwebhelper"), "Gaming / Steam Client");
    assert_eq!(classify_process("Discord"), "Chat / Communication");
    assert_eq!(classify_process("Firefox"), "Web Browser");
    assert_eq!(classify_process("antigravity"), "AI Coding Agent");
    assert_eq!(classify_process("blender"), "GPU Client");
    assert_eq!(process_role("OLLAMA"), "GPU Client");
    assert!(is_llama_process("Llama-Server"));
    assert!(!is_llama_process("vllm"));
}

#[test]
fn braille_dots() {
    assert_eq!(braille_dot_bit(0, 0), 0x01);
    assert_eq!(braille_dot_bit(0, 3), 0x40);
    assert_eq!(braille_dot_bit(1, 2), 0x20);
    assert_eq!(braille_dot_bit(1, 3), 0x80);
    assert_eq!(braille_dot_bit(2, 0), 0);
    let mut all = 0u8;
    for c in 0..2 {
        for r in 0..4 {
            all |= braille_dot_bit(c, r);
        }
    }
    assert_eq!(all, 0xff);
}

#[test]
fn history_is_right_aligned() {
    assert_eq!(history_index(19, 20, 5), Some(4));
    assert_eq!(history_index(15, 20, 5), Some(0));
    assert_eq!(history_index(14, 20, 5), None);
    assert_eq!(history_index(0, 4, 10), Some(6));
    assert_eq!(history_index(3, 4, 10), Some(9));
}

#[test]
fn braille_cells() {
    let baseline = braille_cell(0, 0, 2, 3);
    assert_eq!(baseline.mask, 0xC0);
    assert!(!baseline.has_fill);
    assert_eq!(baseline.max_filled, 0);
    assert_eq!(braille_cell(0, 0, 0, 3).mask, 0);
    let full = braille_cell(12, 12, 0, 3);
    assert_eq!(full.mask, 0xff);
    assert!(full.has_fill);
    assert_eq!(full.max_filled, 12);
    let partial = braille_cell(5, 0, 1, 3);
    assert_eq!(partial.mask, 0x40);
    assert!(partial.has_fill);
    assert_eq!(partial.max_filled, 5);
    let mixed = braille_cell(1, 0, 2, 3);
    assert_eq!(mixed.mask, 0xC0);
    assert!(mixed.has_fill);
    assert_eq!(mixed.max_filled, 1);
}

#[test]
fn gauge_rows() {
    assert_eq!(gauge_row(20, 0), ('█', true));
    assert_eq!(gauge_row(20, 1), ('█', true));
    assert_eq!(gauge_row(20, 2), ('▅', true));
    assert_eq!(gauge_row(20, 3), ('·', false));
    assert_eq!(gauge_row(15, 1), ('█', true));
    assert_eq!(gauge_row(9, 1), ('▂', true));
}

#[test]
fn tables_scroll_to_the_selection() {
    assert_eq!(scroll_offset(2, 10), 0);
    assert_eq!(scroll_offset(12, 10), 3);
    assert_eq!(scroll_offset(10, 10), 1);
    assert_eq!(clamp_row(5, 3), 2);
    assert_eq!(clamp_row(1, 3), 1);
    assert_eq!(clamp_row(5, 0), 0);
}

#[test]
fn options_popup_is_centred() {
    let big = options_popup(Area { x: 0, y: 0, width: 100, height: 40 });
    assert!(big == Area { x: 18, y: 12, width: 64, height: 15 });
    let small = options_popup(Area { x: 2, y: 1, width: 50, height: 10 });
    assert!(small == Area { x: 4, y: 2, width: 46, height: 8 });
    let tiny = options_popup(Area { x: 0, y: 0, width: 3, height: 1 });
    assert!(tiny == Area { x: 1, y: 0, width: 0, height: 0 });
}

#[test]
fn histogram_column_widths() {
    assert_eq!(histogram_columns(60, 12), (5, 4));
    assert_eq!(histogram_columns(10, 20), (1, 1));
    assert_eq!(histogram_columns(20, 10), (2, 2));
}

#[test]
fn connection_labels() {
    assert_eq!(connection_label(Some(true)), "● ONLINE");
    assert_eq!(connection_label(Some(false)), "○ OFFLINE");
    assert_eq!(connection_label(None), "○ CONNECTING");
}
