use tfl::app::{ActiveTab, App, Key, KeyInput, MetricEvent, OPTIONS_COUNT};
use tfl::theme::ThemeId;

fn press(app: &mut App, key: Key) {
    app.handle_key(KeyInput { key, ctrl: false, release: false });
}

#[test]
fn tabs_cycle_in_order() {
    assert_eq!(ActiveTab::Dashboard.next(), ActiveTab::GpuDetails);
    assert_eq!(ActiveTab::GpuDetails.next(), ActiveTab::SlotsDetails);
    assert_eq!(ActiveTab::SlotsDetails.next(), ActiveTab::GpuTop);
    assert_eq!(ActiveTab::GpuTop.next(), ActiveTab::Help);
    assert_eq!(ActiveTab::Help.next(), ActiveTab::Dashboard);
    assert_eq!(ActiveTab::Dashboard.prev(), ActiveTab::Help);
    for t in [ActiveTab::Dashboard, ActiveTab::GpuDetails, ActiveTab::SlotsDetails, ActiveTab::GpuTop, ActiveTab::Help] {
        assert_eq!(t.next().prev(), t);
        assert_eq!(t.prev().next(), t);
    }
}

#[test]
fn initial_state() {
    let app = App::new();
    assert_eq!(app.active_tab(), ActiveTab::Dashboard);
    assert!(!app.is_paused());
    assert!(!app.should_quit());
    assert_eq!(app.theme_id(), ThemeId::BtopNeon);
    assert!(!app.solid_background());
    assert!(app.theme().bg.is_none());
    assert!(!app.options_menu_open());
    assert_eq!(app.poll_interval_ms(), 1000);
    assert_eq!(App::with_poll_interval(250).poll_interval_ms(), 250);
    assert_eq!(App::default().poll_interval_ms(), 1000);
}

#[test]
fn keys_switch_views_and_quit() {
    let mut app = App::new();
    press(&mut app, Key::Char('2'));
    assert_eq!(app.active_tab(), ActiveTab::GpuDetails);
    press(&mut app, Key::Char('?'));
    assert_eq!(app.active_tab(), ActiveTab::Help);
    press(&mut app, Key::Tab);
    assert_eq!(app.active_tab(), ActiveTab::Dashboard);
    press(&mut app, Key::BackTab);
    assert_eq!(app.active_tab(), ActiveTab::Help);
    press(&mut app, Key::Left);
    assert_eq!(app.active_tab(), ActiveTab::GpuTop);
    press(&mut app, Key::Char('5'));
    assert_eq!(app.active_tab(), ActiveTab::GpuTop);
    press(&mut app, Key::Char('p'));
    assert!(app.is_paused());
    app.handle_key(KeyInput { key: Key::Char('q'), ctrl: false, release: true });
    assert!(!app.should_quit());
    press(&mut app, Key::Char('q'));
    assert!(app.should_quit());

    let mut other = App::new();
    other.handle_key(KeyInput { key: Key::Char('c'), ctrl: true, release: false });
    assert!(other.should_quit());
}

#[test]
fn options_menu_keys() {
    let mut app = App::new();
    press(&mut app, Key::Char('o'));
    assert!(app.options_menu_open());
    // 'q' closes the menu instead of quitting.
    press(&mut app, Key::Char('q'));
    assert!(!app.options_menu_open());
    assert!(!app.should_quit());

    press(&mut app, Key::Esc);
    press(&mut app, Key::Right);
    assert_eq!(app.theme_id(), ThemeId::CyberMatrix);
    press(&mut app, Key::Left);
    assert_eq!(app.theme_id(), ThemeId::BtopNeon);
    press(&mut app, Key::Left);
    assert_eq!(app.theme_id(), ThemeId::LightPaper);
    assert!(app.theme().bg.is_some());

    press(&mut app, Key::Down);
    assert_eq!(app.options_menu_index(), 1);
    press(&mut app, Key::Enter);
    assert!(app.solid_background());

    press(&mut app, Key::Char('j'));
    assert_eq!(app.options_menu_index(), 2);
    press(&mut app, Key::Char('l'));
    assert_eq!(app.poll_interval_ms(), 2000);
    press(&mut app, Key::Char('l'));
    assert_eq!(app.poll_interval_ms(), 250);
    press(&mut app, Key::Backspace);
    assert_eq!(app.poll_interval_ms(), 2000);

    press(&mut app, Key::Down);
    press(&mut app, Key::Char(' '));
    assert_eq!(app.active_tab(), ActiveTab::GpuDetails);

    press(&mut app, Key::Down);
    assert_eq!(app.options_menu_index(), 0);
    press(&mut app, Key::Up);
    assert_eq!(app.options_menu_index(), OPTIONS_COUNT - 1);
}

#[test]
fn selections_follow_the_lists() {
    let mut app = App::new();
    assert!(app.handle_metric_update(MetricEvent::Llm { slot_count: 3 }));
    press(&mut app, Key::Down);
    press(&mut app, Key::Down);
    assert_eq!(app.selected_slot_index(), 2);
    press(&mut app, Key::Char('j'));
    assert_eq!(app.selected_slot_index(), 0);
    press(&mut app, Key::Up);
    assert_eq!(app.selected_slot_index(), 2);
    app.handle_metric_update(MetricEvent::Llm { slot_count: 2 });
    assert_eq!(app.selected_slot_index(), 1);

    press(&mut app, Key::Char('2'));
    app.handle_metric_update(MetricEvent::Gpu { count: 2 });
    press(&mut app, Key::Down);
    assert_eq!(app.selected_gpu_index(), 1);
    app.handle_metric_update(MetricEvent::Gpu { count: 0 });
    assert_eq!(app.selected_gpu_index(), 0);
    press(&mut app, Key::Down);
    assert_eq!(app.selected_gpu_index(), 0);
}

#[test]
fn paused_display_ignores_updates() {
    let mut app = App::new();
    app.toggle_pause();
    assert!(!app.handle_metric_update(MetricEvent::Gpu { count: 4 }));
    press(&mut app, Key::Char('2'));
    press(&mut app, Key::Down);
    assert_eq!(app.selected_gpu_index(), 0);
    app.toggle_pause();
    assert!(app.handle_metric_update(MetricEvent::Cpu));
}

#[test]
fn theme_and_background_settings() {
    let mut app = App::new();
    app.set_theme(ThemeId::NordFrost);
    assert_eq!(app.theme().name, "Nord Frost [Transparent]");
    assert!(app.theme().bg.is_none());
    app.toggle_solid_background();
    assert!(app.theme().bg.is_some());
    app.cycle_theme_prev();
    assert_eq!(app.theme_id(), ThemeId::Synthwave);
    app.cycle_theme_next();
    assert_eq!(app.theme_id(), ThemeId::NordFrost);
    app.select_tab(ActiveTab::GpuTop);
    assert_eq!(app.active_tab(), ActiveTab::GpuTop);
    app.set_poll_interval(500);
    assert_eq!(app.poll_interval_ms(), 500);
}
