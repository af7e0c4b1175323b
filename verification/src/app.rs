//! The interactive state of the monitor: the active view, selections, the
//! options menu, theme, pause and quit, and how each key action and each
//! metric update changes it.
use vstd::prelude::*;
use crate::theme::{Theme, ThemeId, theme_ok, theme_at, theme_index, THEME_COUNT};

verus! {

/// The views, in tab order.
#[derive(Debug, Clone, Copy, PartialEq, Eq, Structural)]
pub enum ActiveTab {
    Dashboard,
    GpuDetails,
    SlotsDetails,
    GpuTop,
    Help,
}

/// Number of views.
pub const TAB_COUNT: usize = 5;

/// Position of a view in tab order.
pub open spec fn tab_index(t: ActiveTab) -> int {
    match t {
        ActiveTab::Dashboard => 0,
        ActiveTab::GpuDetails => 1,
        ActiveTab::SlotsDetails => 2,
        ActiveTab::GpuTop => 3,
        ActiveTab::Help => 4,
    }
}

/// The view at a position of the tab order (taken modulo the count).
pub open spec fn tab_at(i: int) -> ActiveTab {
    let k = i % (TAB_COUNT as int);
    if k == 0 {
        ActiveTab::Dashboard
    } else if k == 1 {
        ActiveTab::GpuDetails
    } else if k == 2 {
        ActiveTab::SlotsDetails
    } else if k == 3 {
        ActiveTab::GpuTop
    } else {
        ActiveTab::Help
    }
}

impl ActiveTab {
    /// The following view (the last wraps to the first).
    pub fn next(&self) -> (t: ActiveTab)
        ensures
            t == tab_at(tab_index(*self) + 1),
    {
        match self {
            ActiveTab::Dashboard => ActiveTab::GpuDetails,
            ActiveTab::GpuDetails => ActiveTab::SlotsDetails,
            ActiveTab::SlotsDetails => ActiveTab::GpuTop,
            ActiveTab::GpuTop => ActiveTab::Help,
            ActiveTab::Help => ActiveTab::Dashboard,
        }
    }

    /// The preceding view (the first wraps to the last).
    pub fn prev(&self) -> (t: ActiveTab)
        ensures
            t == tab_at(tab_index(*self) + TAB_COUNT - 1),
    {
        match self {
            ActiveTab::Dashboard => ActiveTab::Help,
            ActiveTab::GpuDetails => ActiveTab::Dashboard,
            ActiveTab::SlotsDetails => ActiveTab::GpuDetails,
            ActiveTab::GpuTop => ActiveTab::SlotsDetails,
            ActiveTab::Help => ActiveTab::GpuTop,
        }
    }
}

/// Moving to the next view and back returns to the same view, and so does
/// moving back and then forward.
pub proof fn law_tab_next_prev_inverse(t: ActiveTab)
    ensures
        tab_at(tab_index(tab_at(tab_index(t) + 1)) + TAB_COUNT - 1) == t,
        tab_at(tab_index(tab_at(tab_index(t) + TAB_COUNT - 1)) + 1) == t,
{
}

/// Moving to the next view `TAB_COUNT` times visits every view once and
/// returns to the start.
pub proof fn law_tab_cycle(t: ActiveTab, k: int)
    requires
        0 <= k,
    ensures
        tab_at(tab_index(t) + k) == tab_at(tab_index(t) + k + TAB_COUNT),
        tab_at(tab_index(t) + TAB_COUNT) == t,
        0 < k < TAB_COUNT ==> tab_at(tab_index(t) + k) != t,
{
}

/// Entries of the options menu: theme, background, poll interval, view.
pub const OPTIONS_COUNT: usize = 4;

/// Poll interval after "decrease" in the options menu:
/// 2000 -> 1000 -> 500 -> 250, anything else -> 2000.
pub open spec fn poll_interval_down(ms: u64) -> u64 {
    if ms == 2000 {
        1000
    } else if ms == 1000 {
        500
    } else if ms == 500 {
        250
    } else {
        2000
    }
}

/// Poll interval after "increase" in the options menu:
/// 250 -> 500 -> 1000 -> 2000, anything else -> 250.
pub open spec fn poll_interval_up(ms: u64) -> u64 {
    if ms == 250 {
        500
    } else if ms == 500 {
        1000
    } else if ms == 1000 {
        2000
    } else {
        250
    }
}

/// A metric update, as far as the interactive state is concerned.
pub enum MetricEvent {
    /// New CPU figures.
    Cpu,
    /// New GPU list with `count` devices.
    Gpu { count: usize },
    /// New inference-server figures listing `slot_count` slots.
    Llm { slot_count: usize },
}

/// Mathematical form of the interactive state.
pub struct AppView {
    pub active_tab: ActiveTab,
    pub is_paused: bool,
    pub should_quit: bool,
    pub selected_gpu_index: usize,
    pub selected_slot_index: usize,
    pub selected_process_index: usize,
    pub theme_id: ThemeId,
    pub solid_background: bool,
    pub options_menu_open: bool,
    pub options_menu_index: usize,
    pub poll_interval_ms: u64,
    /// Devices in the latest GPU list.
    pub gpu_count: usize,
    /// Slots in the latest inference-server figures (0 before any).
    pub slot_count: usize,
}

/// A selection within a list of `count` items: in range, or 0 for an empty list.
pub open spec fn selection_ok(index: usize, count: usize) -> bool {
    index < count || index == 0
}

/// A selection after the list changed to `count` items: 0 for an empty
/// list, the last item when it fell off the end, unchanged otherwise.
pub open spec fn clamp_selection(index: usize, count: usize) -> usize {
    if count == 0 {
        0
    } else if index >= count {
        (count - 1) as usize
    } else {
        index
    }
}

/// Next item of a list of `count` items, wrapping; unchanged when empty.
pub open spec fn select_next(index: usize, count: usize) -> usize {
    if count > 0 {
        ((index + 1) % (count as int)) as usize
    } else {
        index
    }
}

/// Previous item of a list of `count` items, wrapping; unchanged when empty.
pub open spec fn select_prev(index: usize, count: usize) -> usize {
    if count > 0 {
        if index == 0 {
            (count - 1) as usize
        } else {
            (index - 1) as usize
        }
    } else {
        index
    }
}

/// Options-menu entry above (wrapping).
pub open spec fn menu_up(index: usize) -> usize {
    if index == 0 {
        (OPTIONS_COUNT - 1) as usize
    } else {
        (index - 1) as usize
    }
}

/// Options-menu entry below (wrapping).
pub open spec fn menu_down(index: usize) -> usize {
    ((index + 1) % (OPTIONS_COUNT as int)) as usize
}

/// State after "next item": the menu entry below when the menu is open,
/// else the next slot (dashboard and slots views) or GPU (GPU view).
pub open spec fn next_item_spec(a: AppView) -> AppView {
    if a.options_menu_open {
        AppView { options_menu_index: menu_down(a.options_menu_index), ..a }
    } else {
        match a.active_tab {
            ActiveTab::Dashboard | ActiveTab::SlotsDetails => AppView {
                selected_slot_index: select_next(a.selected_slot_index, a.slot_count),
                ..a
            },
            ActiveTab::GpuDetails => AppView {
                selected_gpu_index: select_next(a.selected_gpu_index, a.gpu_count),
                ..a
            },
            _ => a,
        }
    }
}

/// State after "previous item", mirroring `next_item_spec`.
pub open spec fn prev_item_spec(a: AppView) -> AppView {
    if a.options_menu_open {
        AppView { options_menu_index: menu_up(a.options_menu_index), ..a }
    } else {
        match a.active_tab {
            ActiveTab::Dashboard | ActiveTab::SlotsDetails => AppView {
                selected_slot_index: select_prev(a.selected_slot_index, a.slot_count),
                ..a
            },
            ActiveTab::GpuDetails => AppView {
                selected_gpu_index: select_prev(a.selected_gpu_index, a.gpu_count),
                ..a
            },
            _ => a,
        }
    }
}

/// State after "decrease" on the selected options-menu entry.
pub open spec fn menu_left_spec(a: AppView) -> AppView {
    if a.options_menu_index == 0 {
        AppView { theme_id: theme_at(theme_index(a.theme_id) + THEME_COUNT - 1), ..a }
    } else if a.options_menu_index == 1 {
        AppView { solid_background: !a.solid_background, ..a }
    } else if a.options_menu_index == 2 {
        AppView { poll_interval_ms: poll_interval_down(a.poll_interval_ms), ..a }
    } else if a.options_menu_index == 3 {
        AppView { active_tab: tab_at(tab_index(a.active_tab) + TAB_COUNT - 1), ..a }
    } else {
        a
    }
}

/// State after "increase" or Enter on the selected options-menu entry.
pub open spec fn menu_right_spec(a: AppView) -> AppView {
    if a.options_menu_index == 0 {
        AppView { theme_id: theme_at(theme_index(a.theme_id) + 1), ..a }
    } else if a.options_menu_index == 1 {
        AppView { solid_background: !a.solid_background, ..a }
    } else if a.options_menu_index == 2 {
        AppView { poll_interval_ms: poll_interval_up(a.poll_interval_ms), ..a }
    } else if a.options_menu_index == 3 {
        AppView { active_tab: tab_at(tab_index(a.active_tab) + 1), ..a }
    } else {
        a
    }
}

/// State after a metric update: nothing changes while paused; a GPU list or
/// slot list update records the new count and keeps the selection in range.
pub open spec fn metric_update_spec(a: AppView, e: MetricEvent) -> AppView {
    if a.is_paused {
        a
    } else {
        match e {
            MetricEvent::Cpu => a,
            MetricEvent::Gpu { count } => AppView {
                gpu_count: count,
                selected_gpu_index: clamp_selection(a.selected_gpu_index, count),
                ..a
            },
            MetricEvent::Llm { slot_count } => AppView {
                slot_count,
                selected_slot_index: clamp_selection(a.selected_slot_index, slot_count),
                ..a
            },
        }
    }
}

/// A key of the terminal, as far as the monitor reacts to it.
#[derive(Debug, Clone, Copy, PartialEq, Eq, Structural)]
pub enum Key {
    Char(char),
    Esc,
    Up,
    Down,
    Left,
    Right,
    Enter,
    Backspace,
    Tab,
    BackTab,
    /// Any other key.
    Other,
}

/// A key event: the key, whether Ctrl was held, and whether it is a
/// release (releases are ignored).
#[derive(Debug, Clone, Copy, PartialEq, Eq, Structural)]
pub struct KeyInput {
    pub key: Key,
    pub ctrl: bool,
    pub release: bool,
}

/// State after a key event. Ctrl+C quits everywhere. With the options menu
/// open: Esc or `q` closes it, Up/`k` and Down/`j` move through it,
/// Left/`h`/Backspace decreases and Right/`l`/Enter/Space increases the
/// entry. Otherwise: `q` quits, Esc or `o` opens the menu, Tab/Right/`l`
/// and BackTab/Left/`h` change view, `p` pauses, `1`..`3` pick the
/// dashboard, GPU and slots views and `4` or `?` the help, Down/`j` and
/// Up/`k` move the selection. Other keys change nothing.
pub open spec fn key_spec(a: AppView, k: KeyInput) -> AppView {
    let next_tab = AppView { active_tab: tab_at(tab_index(a.active_tab) + 1), ..a };
    let prev_tab = AppView { active_tab: tab_at(tab_index(a.active_tab) + TAB_COUNT - 1), ..a };
    let toggle_menu = AppView { options_menu_open: !a.options_menu_open, ..a };
    let quit = AppView { should_quit: true, ..a };
    if k.release {
        a
    } else if k.ctrl && k.key == Key::Char('c') {
        quit
    } else if a.options_menu_open {
        match k.key {
            Key::Esc | Key::Char('q') => toggle_menu,
            Key::Up | Key::Char('k') => AppView { options_menu_index: menu_up(a.options_menu_index), ..a },
            Key::Down | Key::Char('j') => AppView {
                options_menu_index: menu_down(a.options_menu_index),
                ..a
            },
            Key::Left | Key::Char('h') | Key::Backspace => menu_left_spec(a),
            Key::Right | Key::Char('l') | Key::Enter | Key::Char(' ') => menu_right_spec(a),
            _ => a,
        }
    } else {
        match k.key {
            Key::Char('q') => quit,
            Key::Esc | Key::Char('o') => toggle_menu,
            Key::Tab | Key::Right | Key::Char('l') => next_tab,
            Key::BackTab | Key::Left | Key::Char('h') => prev_tab,
            Key::Char('p') => AppView { is_paused: !a.is_paused, ..a },
            Key::Char('1') => AppView { active_tab: ActiveTab::Dashboard, ..a },
            Key::Char('2') => AppView { active_tab: ActiveTab::GpuDetails, ..a },
            Key::Char('3') => AppView { active_tab: ActiveTab::SlotsDetails, ..a },
            Key::Char('4') | Key::Char('?') => AppView { active_tab: ActiveTab::Help, ..a },
            Key::Down | Key::Char('j') => next_item_spec(a),
            Key::Up | Key::Char('k') => prev_item_spec(a),
            _ => a,
        }
    }
}

/// The interactive state of the monitor.
#[derive(Clone, Copy)]
pub struct App {
    active_tab: ActiveTab,
    is_paused: bool,
    should_quit: bool,
    selected_gpu_index: usize,
    selected_slot_index: usize,
    selected_process_index: usize,
    theme_id: ThemeId,
    theme: Theme,
    solid_background: bool,
    options_menu_open: bool,
    options_menu_index: usize,
    poll_interval_ms: u64,
    gpu_count: usize,
    slot_count: usize,
}

impl View for App {
    type V = AppView;

    closed spec fn view(&self) -> AppView {
        AppView {
            active_tab: self.active_tab,
            is_paused: self.is_paused,
            should_quit: self.should_quit,
            selected_gpu_index: self.selected_gpu_index,
            selected_slot_index: self.selected_slot_index,
            selected_process_index: self.selected_process_index,
            theme_id: self.theme_id,
            solid_background: self.solid_background,
            options_menu_open: self.options_menu_open,
            options_menu_index: self.options_menu_index,
            poll_interval_ms: self.poll_interval_ms,
            gpu_count: self.gpu_count,
            slot_count: self.slot_count,
        }
    }
}

/// What holds of every reachable state: the menu entry exists, the
/// selections are in range, and the theme is the one the theme id and
/// background setting name.
pub open spec fn app_wf(a: AppView) -> bool {
    &&& a.options_menu_index < OPTIONS_COUNT
    &&& selection_ok(a.selected_gpu_index, a.gpu_count)
    &&& selection_ok(a.selected_slot_index, a.slot_count)
}

impl App {
    #[verifier::type_invariant]
    spec fn inv(self) -> bool {
        &&& app_wf(self@)
        &&& theme_ok(self.theme, self.theme_id, self.solid_background)
    }

    /// The initial state with a 1000 ms poll interval.
    pub fn new() -> (app: Self)
        ensures
            app@ == initial_state(1000),
    {
        Self::with_poll_interval(1000)
    }

    /// The initial state: dashboard view, first theme on the terminal's own
    /// background, menu closed, nothing selected, nothing listed.
    pub fn with_poll_interval(poll_interval_ms: u64) -> (app: Self)
        ensures
            app@ == initial_state(poll_interval_ms),
    {
        let theme_id = ThemeId::BtopNeon;
        let solid_background = false;
        App {
            active_tab: ActiveTab::Dashboard,
            is_paused: false,
            should_quit: false,
            selected_gpu_index: 0,
            selected_slot_index: 0,
            selected_process_index: 0,
            theme_id,
            theme: Theme::get(theme_id, solid_background),
            solid_background,
            options_menu_open: false,
            options_menu_index: 0,
            poll_interval_ms,
            gpu_count: 0,
            slot_count: 0,
        }
    }

    /// Every state satisfies `app_wf`.
    pub fn check_wf(&self)
        ensures
            app_wf(self@),
    {
        proof {
            use_type_invariant(self);
        }
    }

    pub fn active_tab(&self) -> (t: ActiveTab)
        ensures
            t == self@.active_tab,
    {
        self.active_tab
    }

    pub fn is_paused(&self) -> (b: bool)
        ensures
            b == self@.is_paused,
    {
        self.is_paused
    }

    pub fn should_quit(&self) -> (b: bool)
        ensures
            b == self@.should_quit,
    {
        self.should_quit
    }

    pub fn selected_gpu_index(&self) -> (i: usize)
        ensures
            i == self@.selected_gpu_index,
    {
        self.selected_gpu_index
    }

    pub fn selected_slot_index(&self) -> (i: usize)
        ensures
            i == self@.selected_slot_index,
    {
        self.selected_slot_index
    }

    pub fn selected_process_index(&self) -> (i: usize)
        ensures
            i == self@.selected_process_index,
    {
        self.selected_process_index
    }

    pub fn theme_id(&self) -> (t: ThemeId)
        ensures
            t == self@.theme_id,
    {
        self.theme_id
    }

    /// The theme to draw with.
    pub fn theme(&self) -> (t: Theme)
        ensures
            theme_ok(t, self@.theme_id, self@.solid_background),
    {
        proof {
            use_type_invariant(self);
        }
        self.theme
    }

    pub fn solid_background(&self) -> (b: bool)
        ensures
            b == self@.solid_background,
    {
        self.solid_background
    }

    pub fn options_menu_open(&self) -> (b: bool)
        ensures
            b == self@.options_menu_open,
    {
        self.options_menu_open
    }

    pub fn options_menu_index(&self) -> (i: usize)
        ensures
            i == self@.options_menu_index,
    {
        self.options_menu_index
    }

    pub fn poll_interval_ms(&self) -> (ms: u64)
        ensures
            ms == self@.poll_interval_ms,
    {
        self.poll_interval_ms
    }

    pub fn set_poll_interval(&mut self, ms: u64)
        ensures
            final(self)@ == (AppView { poll_interval_ms: ms, ..old(self)@ }),
    {
        proof {
            use_type_invariant(&*self);
        }
        self.poll_interval_ms = ms;
    }

    /// Applies a metric update (see `metric_update_spec`); reports whether
    /// it was taken, which it is unless the display is paused.
    pub fn handle_metric_update(&mut self, event: MetricEvent) -> (taken: bool)
        ensures
            taken == !old(self)@.is_paused,
            final(self)@ == metric_update_spec(old(self)@, event),
    {
        proof {
            use_type_invariant(&*self);
        }
        if self.is_paused {
            return false;
        }
        match event {
            MetricEvent::Cpu => {},
            MetricEvent::Gpu { count } => {
                let selected = if count == 0 {
                    0
                } else if self.selected_gpu_index >= count {
                    count - 1
                } else {
                    self.selected_gpu_index
                };
                *self = App { gpu_count: count, selected_gpu_index: selected, ..*self };
            },
            MetricEvent::Llm { slot_count } => {
                let selected = if slot_count == 0 {
                    0
                } else if self.selected_slot_index >= slot_count {
                    slot_count - 1
                } else {
                    self.selected_slot_index
                };
                *self = App { slot_count, selected_slot_index: selected, ..*self };
            },
        }
        true
    }

    /// Switches to theme `id`.
    pub fn set_theme(&mut self, id: ThemeId)
        ensures
            final(self)@ == (AppView { theme_id: id, ..old(self)@ }),
    {
        proof {
            use_type_invariant(&*self);
        }
        let theme = Theme::get(id, self.solid_background);
        *self = App { theme_id: id, theme, ..*self };
    }

    /// Switches to the next theme.
    pub fn cycle_theme_next(&mut self)
        ensures
            final(self)@ == (AppView {
                theme_id: theme_at(theme_index(old(self)@.theme_id) + 1),
                ..old(self)@
            }),
    {
        proof {
            use_type_invariant(&*self);
        }
        let id = self.theme_id.next();
        self.set_theme(id);
    }

    /// Switches to the previous theme.
    pub fn cycle_theme_prev(&mut self)
        ensures
            final(self)@ == (AppView {
                theme_id: theme_at(theme_index(old(self)@.theme_id) + THEME_COUNT - 1),
                ..old(self)@
            }),
    {
        proof {
            use_type_invariant(&*self);
        }
        let id = self.theme_id.prev();
        self.set_theme(id);
    }

    /// Forces a solid background on or off.
    pub fn toggle_solid_background(&mut self)
        ensures
            final(self)@ == (AppView { solid_background: !old(self)@.solid_background, ..old(self)@ }),
    {
        proof {
            use_type_invariant(&*self);
        }
        let solid = !self.solid_background;
        let theme = Theme::get(self.theme_id, solid);
        *self = App { solid_background: solid, theme, ..*self };
    }

    /// Opens or closes the options menu.
    pub fn toggle_options_menu(&mut self)
        ensures
            final(self)@ == (AppView { options_menu_open: !old(self)@.options_menu_open, ..old(self)@ }),
    {
        proof {
            use_type_invariant(&*self);
        }
        self.options_menu_open = !self.options_menu_open;
    }

    /// Selects the options-menu entry above (wrapping).
    pub fn on_menu_up(&mut self)
        ensures
            final(self)@ == (AppView {
                options_menu_index: menu_up(old(self)@.options_menu_index),
                ..old(self)@
            }),
    {
        proof {
            use_type_invariant(&*self);
        }
        if self.options_menu_index == 0 {
            self.options_menu_index = OPTIONS_COUNT - 1;
        } else {
            self.options_menu_index -= 1;
        }
    }

    /// Selects the options-menu entry below (wrapping).
    pub fn on_menu_down(&mut self)
        ensures
            final(self)@ == (AppView {
                options_menu_index: menu_down(old(self)@.options_menu_index),
                ..old(self)@
            }),
    {
        proof {
            use_type_invariant(&*self);
        }
        self.options_menu_index = (self.options_menu_index + 1) % OPTIONS_COUNT;
    }

    /// Decreases the value of the selected options-menu entry.
    pub fn on_menu_left(&mut self)
        ensures
            final(self)@ == menu_left_spec(old(self)@),
    {
        proof {
            use_type_invariant(&*self);
        }
        match self.options_menu_index {
            0 => self.cycle_theme_prev(),
            1 => self.toggle_solid_background(),
            2 => {
                let current = self.poll_interval_ms();
                let next = match current {
                    2000 => 1000,
                    1000 => 500,
                    500 => 250,
                    _ => 2000,
                };
                self.set_poll_interval(next);
            },
            3 => self.active_tab = self.active_tab.prev(),
            _ => {},
        }
    }

    /// Increases the value of the selected options-menu entry.
    pub fn on_menu_right_or_enter(&mut self)
        ensures
            final(self)@ == menu_right_spec(old(self)@),
    {
        proof {
            use_type_invariant(&*self);
        }
        match self.options_menu_index {
            0 => self.cycle_theme_next(),
            1 => self.toggle_solid_background(),
            2 => {
                let current = self.poll_interval_ms();
                let next = match current {
                    250 => 500,
                    500 => 1000,
                    1000 => 2000,
                    _ => 250,
                };
                self.set_poll_interval(next);
            },
            3 => self.active_tab = self.active_tab.next(),
            _ => {},
        }
    }

    /// Switches to the next view.
    pub fn on_tab_pressed(&mut self)
        ensures
            final(self)@ == (AppView {
                active_tab: tab_at(tab_index(old(self)@.active_tab) + 1),
                ..old(self)@
            }),
    {
        proof {
            use_type_invariant(&*self);
        }
        self.active_tab = self.active_tab.next();
    }

    /// Switches to the previous view.
    pub fn on_backtab_pressed(&mut self)
        ensures
            final(self)@ == (AppView {
                active_tab: tab_at(tab_index(old(self)@.active_tab) + TAB_COUNT - 1),
                ..old(self)@
            }),
    {
        proof {
            use_type_invariant(&*self);
        }
        self.active_tab = self.active_tab.prev();
    }

    /// Switches directly to view `tab`.
    pub fn select_tab(&mut self, tab: ActiveTab)
        ensures
            final(self)@ == (AppView { active_tab: tab, ..old(self)@ }),
    {
        proof {
            use_type_invariant(&*self);
        }
        self.active_tab = tab;
    }

    /// Pauses or resumes metric updates.
    pub fn toggle_pause(&mut self)
        ensures
            final(self)@ == (AppView { is_paused: !old(self)@.is_paused, ..old(self)@ }),
    {
        proof {
            use_type_invariant(&*self);
        }
        self.is_paused = !self.is_paused;
    }

    /// Asks the monitor to stop.
    pub fn quit(&mut self)
        ensures
            final(self)@ == (AppView { should_quit: true, ..old(self)@ }),
    {
        proof {
            use_type_invariant(&*self);
        }
        self.should_quit = true;
    }

    /// Reacts to a key event (see `key_spec`).
    pub fn handle_key(&mut self, input: KeyInput)
        ensures
            final(self)@ == key_spec(old(self)@, input),
    {
        proof {
            use_type_invariant(&*self);
        }
        if input.release {
            return;
        }
        if input.ctrl && input.key == Key::Char('c') {
            self.quit();
            return;
        }
        if self.options_menu_open {
            match input.key {
                Key::Esc | Key::Char('q') => self.toggle_options_menu(),
                Key::Up | Key::Char('k') => self.on_menu_up(),
                Key::Down | Key::Char('j') => self.on_menu_down(),
                Key::Left | Key::Char('h') | Key::Backspace => self.on_menu_left(),
                Key::Right | Key::Char('l') | Key::Enter | Key::Char(' ') => self.on_menu_right_or_enter(),
                _ => {},
            }
        } else {
            match input.key {
                Key::Char('q') => self.quit(),
                Key::Esc | Key::Char('o') => self.toggle_options_menu(),
                Key::Tab | Key::Right | Key::Char('l') => self.on_tab_pressed(),
                Key::BackTab | Key::Left | Key::Char('h') => self.on_backtab_pressed(),
                Key::Char('p') => self.toggle_pause(),
                Key::Char('1') => self.select_tab(ActiveTab::Dashboard),
                Key::Char('2') => self.select_tab(ActiveTab::GpuDetails),
                Key::Char('3') => self.select_tab(ActiveTab::SlotsDetails),
                Key::Char('4') | Key::Char('?') => self.select_tab(ActiveTab::Help),
                Key::Down | Key::Char('j') => self.next_item(),
                Key::Up | Key::Char('k') => self.prev_item(),
                _ => {},
            }
        }
    }

    /// Moves the selection forward (see `next_item_spec`).
    pub fn next_item(&mut self)
        ensures
            final(self)@ == next_item_spec(old(self)@),
    {
        proof {
            use_type_invariant(&*self);
        }
        if self.options_menu_open {
            self.on_menu_down();
            return;
        }
        match self.active_tab {
            ActiveTab::Dashboard | ActiveTab::SlotsDetails => {
                if self.slot_count > 0 {
                    self.selected_slot_index = (self.selected_slot_index + 1) % self.slot_count;
                }
            },
            ActiveTab::GpuDetails => {
                if self.gpu_count > 0 {
                    self.selected_gpu_index = (self.selected_gpu_index + 1) % self.gpu_count;
                }
            },
            _ => {},
        }
    }

    /// Moves the selection back (see `prev_item_spec`).
    pub fn prev_item(&mut self)
        ensures
            final(self)@ == prev_item_spec(old(self)@),
    {
        proof {
            use_type_invariant(&*self);
        }
        if self.options_menu_open {
            self.on_menu_up();
            return;
        }
        match self.active_tab {
            ActiveTab::Dashboard | ActiveTab::SlotsDetails => {
                if self.slot_count > 0 {
                    if self.selected_slot_index == 0 {
                        self.selected_slot_index = self.slot_count - 1;
                    } else {
                        self.selected_slot_index -= 1;
                    }
                }
            },
            ActiveTab::GpuDetails => {
                if self.gpu_count > 0 {
                    if self.selected_gpu_index == 0 {
                        self.selected_gpu_index = self.gpu_count - 1;
                    } else {
                        self.selected_gpu_index -= 1;
                    }
                }
            },
            _ => {},
        }
    }
}

impl Default for App {
    /// The initial state with a 1000 ms poll interval.
    fn default() -> (app: Self)
        ensures
            app@ == initial_state(1000),
    {
        Self::new()
    }
}

/// The initial state for a poll interval.
pub open spec fn initial_state(poll_interval_ms: u64) -> AppView {
    AppView {
        active_tab: ActiveTab::Dashboard,
        is_paused: false,
        should_quit: false,
        selected_gpu_index: 0,
        selected_slot_index: 0,
        selected_process_index: 0,
        theme_id: ThemeId::BtopNeon,
        solid_background: false,
        options_menu_open: false,
        options_menu_index: 0,
        poll_interval_ms,
        gpu_count: 0,
        slot_count: 0,
    }
}

/// While paused, metric updates change nothing.
pub proof fn law_paused_ignores_updates(a: AppView, e: MetricEvent)
    requires
        a.is_paused,
    ensures
        metric_update_spec(a, e) == a,
{
}

/// Metric updates, selection moves and key events keep every state well
/// formed: the menu entry exists and the GPU and slot selections stay
/// within their lists.
pub proof fn law_transitions_keep_wf(a: AppView, e: MetricEvent, k: KeyInput)
    requires
        app_wf(a),
    ensures
        app_wf(metric_update_spec(a, e)),
        app_wf(next_item_spec(a)),
        app_wf(prev_item_spec(a)),
        app_wf(menu_left_spec(a)),
        app_wf(menu_right_spec(a)),
        app_wf(key_spec(a, k)),
{
}

/// With the options menu closed, the digit keys pick views directly: `1`,
/// `2` and `3` the first three views in tab order (dashboard, GPU, slots),
/// `4` the help; nothing else changes.
pub proof fn law_digit_keys_select_views(a: AppView, k: KeyInput)
    requires
        !a.options_menu_open,
        !k.release,
    ensures
        k.key == Key::Char('1') ==> key_spec(a, k) == (AppView { active_tab: tab_at(0), ..a }),
        k.key == Key::Char('2') ==> key_spec(a, k) == (AppView { active_tab: tab_at(1), ..a }),
        k.key == Key::Char('3') ==> key_spec(a, k) == (AppView { active_tab: tab_at(2), ..a }),
        k.key == Key::Char('4') ==> key_spec(a, k) == (AppView { active_tab: ActiveTab::Help, ..a }),
        k.key == Key::Char('1') ==> key_spec(a, k).active_tab == ActiveTab::Dashboard,
        k.key == Key::Char('2') ==> key_spec(a, k).active_tab == ActiveTab::GpuDetails,
        k.key == Key::Char('3') ==> key_spec(a, k).active_tab == ActiveTab::SlotsDetails,
{
}

/// A key release changes nothing, and Ctrl+C quits from every state.
pub proof fn law_key_release_and_ctrl_c(a: AppView, k: KeyInput)
    ensures
        k.release ==> key_spec(a, k) == a,
        !k.release && k.ctrl && k.key == Key::Char('c') ==> key_spec(a, k).should_quit,
{
}

/// Stepping forward and back in a non-empty list returns to the same item.
proof fn lemma_select_roundtrip(index: usize, count: usize)
    requires
        index < count,
    ensures
        select_prev(select_next(index, count), count) == index,
        select_next(select_prev(index, count), count) == index,
{
    if index + 1 < count {
        vstd::arithmetic::div_mod::lemma_small_mod((index + 1) as nat, count as nat);
    } else {
        vstd::arithmetic::div_mod::lemma_mod_self_0(count as int);
    }
    if index > 0 {
        vstd::arithmetic::div_mod::lemma_small_mod(index as nat, count as nat);
    } else {
        vstd::arithmetic::div_mod::lemma_mod_self_0(count as int);
    }
}

/// "Next item" and "previous item" undo each other.
pub proof fn law_next_prev_item_inverse(a: AppView)
    requires
        app_wf(a),
    ensures
        prev_item_spec(next_item_spec(a)) == a,
        next_item_spec(prev_item_spec(a)) == a,
{
    if !a.options_menu_open {
        if a.slot_count > 0 {
            lemma_select_roundtrip(a.selected_slot_index, a.slot_count);
        }
        if a.gpu_count > 0 {
            lemma_select_roundtrip(a.selected_gpu_index, a.gpu_count);
        }
    }
}

/// "Increase" then "decrease" on an options-menu entry restores the state,
/// for the poll interval when it is one of the offered values.
pub proof fn law_menu_right_left_inverse(a: AppView)
    requires
        app_wf(a),
        a.options_menu_index == 2 ==> (a.poll_interval_ms == 250 || a.poll_interval_ms == 500
            || a.poll_interval_ms == 1000 || a.poll_interval_ms == 2000),
    ensures
        menu_left_spec(menu_right_spec(a)) == a,
        menu_right_spec(menu_left_spec(a)) == a,
{
    crate::theme::law_theme_next_prev_inverse(a.theme_id);
    law_tab_next_prev_inverse(a.active_tab);
}

/// Increasing the poll interval cycles through 250, 500, 1000 and 2000 ms;
/// any other value is first brought to 250 ms.
pub proof fn law_poll_interval_cycle(ms: u64)
    ensures
        poll_interval_up(poll_interval_up(poll_interval_up(poll_interval_up(poll_interval_up(
            ms,
        ))))) == poll_interval_up(ms),
        poll_interval_up(ms) == 250 || poll_interval_up(ms) == 500 || poll_interval_up(ms)
            == 1000 || poll_interval_up(ms) == 2000,
{
}

} // verus!
