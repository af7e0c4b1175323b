//! Colour themes: the theme identifiers, their cycling order, and the
//! palette of each theme.
use vstd::prelude::*;

verus! {

/// A 24-bit colour.
#[derive(Debug, Clone, Copy, PartialEq, Eq, Structural)]
pub struct Rgb {
    pub r: u8,
    pub g: u8,
    pub b: u8,
}

/// Identifier of a colour theme. The first five keep the terminal's own
/// background (unless a solid background is forced); the last two always
/// paint their own.
#[derive(Debug, Clone, Copy, PartialEq, Eq, Structural)]
pub enum ThemeId {
    /// Vivid cyan and violet.
    BtopNeon,
    /// Emerald green and laser amber.
    CyberMatrix,
    /// Hot magenta and electric cyan.
    Synthwave,
    /// Glacier ice and aurora gold.
    NordFrost,
    /// Solarized teal and amber gold.
    SolarizedGlow,
    /// Deep opaque midnight black.
    MidnightOled,
    /// Pure opaque light paper.
    LightPaper,
}

/// Number of themes.
pub const THEME_COUNT: usize = 7;

/// Position of a theme in the cycling order.
pub open spec fn theme_index(id: ThemeId) -> int {
    match id {
        ThemeId::BtopNeon => 0,
        ThemeId::CyberMatrix => 1,
        ThemeId::Synthwave => 2,
        ThemeId::NordFrost => 3,
        ThemeId::SolarizedGlow => 4,
        ThemeId::MidnightOled => 5,
        ThemeId::LightPaper => 6,
    }
}

/// The theme at a position of the cycling order (taken modulo the count).
pub open spec fn theme_at(i: int) -> ThemeId {
    let k = i % (THEME_COUNT as int);
    if k == 0 {
        ThemeId::BtopNeon
    } else if k == 1 {
        ThemeId::CyberMatrix
    } else if k == 2 {
        ThemeId::Synthwave
    } else if k == 3 {
        ThemeId::NordFrost
    } else if k == 4 {
        ThemeId::SolarizedGlow
    } else if k == 5 {
        ThemeId::MidnightOled
    } else {
        ThemeId::LightPaper
    }
}

/// Display name of a theme.
pub open spec fn theme_name(id: ThemeId) -> Seq<char> {
    match id {
        ThemeId::BtopNeon => "Btop Neon [Transparent]"@,
        ThemeId::CyberMatrix => "Cyber Matrix [Transparent]"@,
        ThemeId::Synthwave => "Synthwave 80s [Transparent]"@,
        ThemeId::NordFrost => "Nord Frost [Transparent]"@,
        ThemeId::SolarizedGlow => "Solarized Glow [Transparent]"@,
        ThemeId::MidnightOled => "Midnight OLED [Solid Fill 1]"@,
        ThemeId::LightPaper => "Light Paper [Solid Fill 2]"@,
    }
}

/// Themes that always paint their own background.
pub open spec fn theme_is_solid(id: ThemeId) -> bool {
    id == ThemeId::MidnightOled || id == ThemeId::LightPaper
}

impl ThemeId {
    /// All themes, in cycling order.
    pub fn all() -> (r: &'static [ThemeId])
        ensures
            r@ == Seq::new(THEME_COUNT as nat, |i: int| theme_at(i)),
    {
        let r: &'static [ThemeId] = &[
            ThemeId::BtopNeon,
            ThemeId::CyberMatrix,
            ThemeId::Synthwave,
            ThemeId::NordFrost,
            ThemeId::SolarizedGlow,
            ThemeId::MidnightOled,
            ThemeId::LightPaper,
        ];
        assert(r@ =~= Seq::new(THEME_COUNT as nat, |i: int| theme_at(i)));
        r
    }

    /// Display name.
    pub fn name(&self) -> (s: &'static str)
        ensures
            s@ == theme_name(*self),
    {
        match self {
            ThemeId::BtopNeon => "Btop Neon [Transparent]",
            ThemeId::CyberMatrix => "Cyber Matrix [Transparent]",
            ThemeId::Synthwave => "Synthwave 80s [Transparent]",
            ThemeId::NordFrost => "Nord Frost [Transparent]",
            ThemeId::SolarizedGlow => "Solarized Glow [Transparent]",
            ThemeId::MidnightOled => "Midnight OLED [Solid Fill 1]",
            ThemeId::LightPaper => "Light Paper [Solid Fill 2]",
        }
    }

    /// Whether the theme always paints its own background.
    pub fn is_solid(&self) -> (b: bool)
        ensures
            b == theme_is_solid(*self),
    {
        match self {
            ThemeId::MidnightOled | ThemeId::LightPaper => true,
            _ => false,
        }
    }

    /// The following theme in cycling order (the last wraps to the first).
    pub fn next(&self) -> (t: ThemeId)
        ensures
            t == theme_at(theme_index(*self) + 1),
    {
        match self {
            ThemeId::BtopNeon => ThemeId::CyberMatrix,
            ThemeId::CyberMatrix => ThemeId::Synthwave,
            ThemeId::Synthwave => ThemeId::NordFrost,
            ThemeId::NordFrost => ThemeId::SolarizedGlow,
            ThemeId::SolarizedGlow => ThemeId::MidnightOled,
            ThemeId::MidnightOled => ThemeId::LightPaper,
            ThemeId::LightPaper => ThemeId::BtopNeon,
        }
    }

    /// The preceding theme in cycling order (the first wraps to the last).
    pub fn prev(&self) -> (t: ThemeId)
        ensures
            t == theme_at(theme_index(*self) + THEME_COUNT - 1),
    {
        match self {
            ThemeId::BtopNeon => ThemeId::LightPaper,
            ThemeId::CyberMatrix => ThemeId::BtopNeon,
            ThemeId::Synthwave => ThemeId::CyberMatrix,
            ThemeId::NordFrost => ThemeId::Synthwave,
            ThemeId::SolarizedGlow => ThemeId::NordFrost,
            ThemeId::MidnightOled => ThemeId::SolarizedGlow,
            ThemeId::LightPaper => ThemeId::MidnightOled,
        }
    }
}

impl Default for ThemeId {
    /// The default theme.
    fn default() -> (t: Self)
        ensures
            t == ThemeId::BtopNeon,
    {
        ThemeId::BtopNeon
    }
}

/// Going to the next theme and back returns to the same theme, and so does
/// going back and then forward.
pub proof fn law_theme_next_prev_inverse(id: ThemeId)
    ensures
        theme_at(theme_index(theme_at(theme_index(id) + 1)) + THEME_COUNT - 1) == id,
        theme_at(theme_index(theme_at(theme_index(id) + THEME_COUNT - 1)) + 1) == id,
{
}

/// Positions and themes correspond one to one.
pub proof fn law_theme_index_roundtrip(id: ThemeId, i: int)
    ensures
        theme_at(theme_index(id)) == id,
        0 <= theme_index(id) < THEME_COUNT,
        0 <= i < THEME_COUNT ==> theme_index(theme_at(i)) == i,
{
}

/// The colours of a theme other than its background.
#[derive(Debug, Clone, Copy, PartialEq, Eq, Structural)]
pub struct Palette {
    pub fg: Rgb,
    pub fg_dim: Rgb,
    pub fg_highlight: Rgb,
    pub border_normal: Rgb,
    pub border_active: Rgb,
    pub box_cpu: Rgb,
    pub box_gpu: Rgb,
    pub box_llm: Rgb,
    pub box_queue: Rgb,
    pub bar_track: Rgb,
    pub bar_fill: Rgb,
    pub spark_tps: Rgb,
    pub spark_compute: Rgb,
    pub spark_mem: Rgb,
    pub temp_cool: Rgb,
    pub temp_warm: Rgb,
    pub temp_hot: Rgb,
    pub status_online: Rgb,
    pub status_offline: Rgb,
    pub selected_bg: Rgb,
    pub selected_fg: Rgb,
}

/// The background a theme paints when it paints one.
pub open spec fn solid_background(id: ThemeId) -> Rgb {
    match id {
        ThemeId::BtopNeon => Rgb { r: 15, g: 17, b: 26 },
        ThemeId::CyberMatrix => Rgb { r: 10, g: 20, b: 15 },
        ThemeId::Synthwave => Rgb { r: 20, g: 12, b: 28 },
        ThemeId::NordFrost => Rgb { r: 46, g: 52, b: 64 },
        ThemeId::SolarizedGlow => Rgb { r: 0, g: 43, b: 54 },
        ThemeId::MidnightOled => Rgb { r: 12, g: 14, b: 20 },
        ThemeId::LightPaper => Rgb { r: 246, g: 248, b: 252 },
    }
}

/// The colours of each theme.
pub open spec fn palette(id: ThemeId) -> Palette {
    match id {
        ThemeId::BtopNeon => Palette {
            fg: Rgb { r: 245, g: 248, b: 255 },
            fg_dim: Rgb { r: 175, g: 190, b: 215 },
            fg_highlight: Rgb { r: 255, g: 225, b: 90 },
            border_normal: Rgb { r: 160, g: 110, b: 235 },
            border_active: Rgb { r: 70, g: 230, b: 250 },
            box_cpu: Rgb { r: 190, g: 120, b: 255 },
            box_gpu: Rgb { r: 140, g: 110, b: 250 },
            box_llm: Rgb { r: 70, g: 235, b: 200 },
            box_queue: Rgb { r: 255, g: 165, b: 70 },
            bar_track: Rgb { r: 75, g: 85, b: 110 },
            bar_fill: Rgb { r: 80, g: 235, b: 150 },
            spark_tps: Rgb { r: 255, g: 180, b: 60 },
            spark_compute: Rgb { r: 255, g: 95, b: 170 },
            spark_mem: Rgb { r: 70, g: 220, b: 250 },
            temp_cool: Rgb { r: 90, g: 235, b: 150 },
            temp_warm: Rgb { r: 255, g: 180, b: 60 },
            temp_hot: Rgb { r: 255, g: 85, b: 85 },
            status_online: Rgb { r: 80, g: 245, b: 130 },
            status_offline: Rgb { r: 255, g: 80, b: 80 },
            selected_bg: Rgb { r: 60, g: 50, b: 95 },
            selected_fg: Rgb { r: 255, g: 255, b: 255 },
        },
        ThemeId::CyberMatrix => Palette {
            fg: Rgb { r: 240, g: 255, b: 245 },
            fg_dim: Rgb { r: 160, g: 215, b: 180 },
            fg_highlight: Rgb { r: 255, g: 230, b: 75 },
            border_normal: Rgb { r: 50, g: 180, b: 100 },
            border_active: Rgb { r: 70, g: 255, b: 140 },
            box_cpu: Rgb { r: 60, g: 235, b: 120 },
            box_gpu: Rgb { r: 100, g: 215, b: 255 },
            box_llm: Rgb { r: 255, g: 215, b: 60 },
            box_queue: Rgb { r: 255, g: 140, b: 50 },
            bar_track: Rgb { r: 45, g: 85, b: 65 },
            bar_fill: Rgb { r: 70, g: 255, b: 140 },
            spark_tps: Rgb { r: 255, g: 225, b: 70 },
            spark_compute: Rgb { r: 70, g: 255, b: 140 },
            spark_mem: Rgb { r: 90, g: 220, b: 255 },
            temp_cool: Rgb { r: 70, g: 255, b: 140 },
            temp_warm: Rgb { r: 255, g: 215, b: 60 },
            temp_hot: Rgb { r: 255, g: 80, b: 80 },
            status_online: Rgb { r: 70, g: 255, b: 140 },
            status_offline: Rgb { r: 255, g: 80, b: 80 },
            selected_bg: Rgb { r: 30, g: 80, b: 50 },
            selected_fg: Rgb { r: 240, g: 255, b: 245 },
        },
        ThemeId::Synthwave => Palette {
            fg: Rgb { r: 255, g: 245, b: 255 },
            fg_dim: Rgb { r: 210, g: 180, b: 225 },
            fg_highlight: Rgb { r: 255, g: 235, b: 85 },
            border_normal: Rgb { r: 220, g: 60, b: 160 },
            border_active: Rgb { r: 50, g: 230, b: 255 },
            box_cpu: Rgb { r: 255, g: 75, b: 175 },
            box_gpu: Rgb { r: 175, g: 85, b: 255 },
            box_llm: Rgb { r: 50, g: 230, b: 255 },
            box_queue: Rgb { r: 255, g: 150, b: 50 },
            bar_track: Rgb { r: 95, g: 60, b: 100 },
            bar_fill: Rgb { r: 255, g: 75, b: 175 },
            spark_tps: Rgb { r: 255, g: 150, b: 50 },
            spark_compute: Rgb { r: 255, g: 75, b: 175 },
            spark_mem: Rgb { r: 50, g: 230, b: 255 },
            temp_cool: Rgb { r: 50, g: 230, b: 255 },
            temp_warm: Rgb { r: 255, g: 160, b: 60 },
            temp_hot: Rgb { r: 255, g: 60, b: 100 },
            status_online: Rgb { r: 70, g: 240, b: 180 },
            status_offline: Rgb { r: 255, g: 60, b: 100 },
            selected_bg: Rgb { r: 95, g: 40, b: 95 },
            selected_fg: Rgb { r: 255, g: 245, b: 255 },
        },
        ThemeId::NordFrost => Palette {
            fg: Rgb { r: 240, g: 244, b: 250 },
            fg_dim: Rgb { r: 180, g: 195, b: 215 },
            fg_highlight: Rgb { r: 235, g: 203, b: 139 },
            border_normal: Rgb { r: 110, g: 140, b: 180 },
            border_active: Rgb { r: 136, g: 192, b: 208 },
            box_cpu: Rgb { r: 129, g: 161, b: 193 },
            box_gpu: Rgb { r: 180, g: 142, b: 173 },
            box_llm: Rgb { r: 143, g: 188, b: 187 },
            box_queue: Rgb { r: 235, g: 203, b: 139 },
            bar_track: Rgb { r: 80, g: 95, b: 120 },
            bar_fill: Rgb { r: 163, g: 190, b: 140 },
            spark_tps: Rgb { r: 235, g: 203, b: 139 },
            spark_compute: Rgb { r: 180, g: 142, b: 173 },
            spark_mem: Rgb { r: 136, g: 192, b: 208 },
            temp_cool: Rgb { r: 163, g: 190, b: 140 },
            temp_warm: Rgb { r: 235, g: 203, b: 139 },
            temp_hot: Rgb { r: 191, g: 97, b: 106 },
            status_online: Rgb { r: 163, g: 190, b: 140 },
            status_offline: Rgb { r: 191, g: 97, b: 106 },
            selected_bg: Rgb { r: 67, g: 85, b: 110 },
            selected_fg: Rgb { r: 240, g: 244, b: 250 },
        },
        ThemeId::SolarizedGlow => Palette {
            fg: Rgb { r: 253, g: 246, b: 227 },
            fg_dim: Rgb { r: 180, g: 195, b: 195 },
            fg_highlight: Rgb { r: 215, g: 165, b: 20 },
            border_normal: Rgb { r: 100, g: 140, b: 150 },
            border_active: Rgb { r: 42, g: 185, b: 175 },
            box_cpu: Rgb { r: 45, g: 160, b: 235 },
            box_gpu: Rgb { r: 130, g: 135, b: 220 },
            box_llm: Rgb { r: 42, g: 185, b: 175 },
            box_queue: Rgb { r: 230, g: 100, b: 40 },
            bar_track: Rgb { r: 70, g: 95, b: 100 },
            bar_fill: Rgb { r: 150, g: 180, b: 20 },
            spark_tps: Rgb { r: 215, g: 165, b: 20 },
            spark_compute: Rgb { r: 230, g: 70, b: 150 },
            spark_mem: Rgb { r: 42, g: 185, b: 175 },
            temp_cool: Rgb { r: 150, g: 180, b: 20 },
            temp_warm: Rgb { r: 215, g: 165, b: 20 },
            temp_hot: Rgb { r: 220, g: 50, b: 47 },
            status_online: Rgb { r: 150, g: 180, b: 20 },
            status_offline: Rgb { r: 220, g: 50, b: 47 },
            selected_bg: Rgb { r: 40, g: 80, b: 85 },
            selected_fg: Rgb { r: 253, g: 246, b: 227 },
        },
        ThemeId::MidnightOled => Palette {
            fg: Rgb { r: 245, g: 248, b: 255 },
            fg_dim: Rgb { r: 160, g: 175, b: 200 },
            fg_highlight: Rgb { r: 255, g: 220, b: 85 },
            border_normal: Rgb { r: 130, g: 90, b: 200 },
            border_active: Rgb { r: 60, g: 220, b: 240 },
            box_cpu: Rgb { r: 175, g: 105, b: 255 },
            box_gpu: Rgb { r: 130, g: 95, b: 235 },
            box_llm: Rgb { r: 70, g: 225, b: 190 },
            box_queue: Rgb { r: 255, g: 155, b: 60 },
            bar_track: Rgb { r: 40, g: 45, b: 60 },
            bar_fill: Rgb { r: 75, g: 225, b: 140 },
            spark_tps: Rgb { r: 255, g: 170, b: 50 },
            spark_compute: Rgb { r: 255, g: 85, b: 160 },
            spark_mem: Rgb { r: 60, g: 210, b: 240 },
            temp_cool: Rgb { r: 90, g: 225, b: 140 },
            temp_warm: Rgb { r: 255, g: 170, b: 50 },
            temp_hot: Rgb { r: 255, g: 75, b: 75 },
            status_online: Rgb { r: 75, g: 235, b: 120 },
            status_offline: Rgb { r: 255, g: 70, b: 70 },
            selected_bg: Rgb { r: 50, g: 45, b: 80 },
            selected_fg: Rgb { r: 255, g: 255, b: 255 },
        },
        ThemeId::LightPaper => Palette {
            fg: Rgb { r: 20, g: 24, b: 35 },
            fg_dim: Rgb { r: 95, g: 105, b: 125 },
            fg_highlight: Rgb { r: 180, g: 70, b: 0 },
            border_normal: Rgb { r: 170, g: 180, b: 200 },
            border_active: Rgb { r: 30, g: 100, b: 220 },
            box_cpu: Rgb { r: 40, g: 80, b: 190 },
            box_gpu: Rgb { r: 120, g: 40, b: 180 },
            box_llm: Rgb { r: 20, g: 130, b: 90 },
            box_queue: Rgb { r: 190, g: 80, b: 20 },
            bar_track: Rgb { r: 220, g: 225, b: 235 },
            bar_fill: Rgb { r: 30, g: 140, b: 80 },
            spark_tps: Rgb { r: 190, g: 80, b: 20 },
            spark_compute: Rgb { r: 130, g: 40, b: 170 },
            spark_mem: Rgb { r: 20, g: 110, b: 180 },
            temp_cool: Rgb { r: 30, g: 140, b: 80 },
            temp_warm: Rgb { r: 190, g: 110, b: 20 },
            temp_hot: Rgb { r: 200, g: 30, b: 40 },
            status_online: Rgb { r: 30, g: 140, b: 80 },
            status_offline: Rgb { r: 200, g: 30, b: 40 },
            selected_bg: Rgb { r: 215, g: 228, b: 250 },
            selected_fg: Rgb { r: 15, g: 25, b: 60 },
        },
    }
}

/// A colour theme ready for drawing.
#[derive(Debug, Clone, Copy)]
pub struct Theme {
    pub id: ThemeId,
    pub name: &'static str,
    /// Background to paint; `None` keeps the terminal's own.
    pub bg: Option<Rgb>,
    pub colors: Palette,
}

/// The background a theme paints: its own when it is solid or a solid
/// background is forced, none otherwise.
pub open spec fn theme_background(id: ThemeId, force_solid_bg: bool) -> Option<Rgb> {
    if theme_is_solid(id) || force_solid_bg {
        Some(solid_background(id))
    } else {
        None
    }
}

/// Theme `id` with a solid background forced or not.
pub open spec fn theme_ok(t: Theme, id: ThemeId, force_solid_bg: bool) -> bool {
    &&& t.id == id
    &&& t.name@ == theme_name(id)
    &&& t.bg == theme_background(id, force_solid_bg)
    &&& t.colors == palette(id)
}

impl Theme {
    /// Theme `id`, painting its background when `force_solid_bg` is set or
    /// the theme is solid.
    pub fn get(id: ThemeId, force_solid_bg: bool) -> (t: Self)
        ensures
            theme_ok(t, id, force_solid_bg),
    {
        let colors = match id {
            ThemeId::BtopNeon => Palette {
                fg: Rgb { r: 245, g: 248, b: 255 },
                fg_dim: Rgb { r: 175, g: 190, b: 215 },
                fg_highlight: Rgb { r: 255, g: 225, b: 90 },
                border_normal: Rgb { r: 160, g: 110, b: 235 },
                border_active: Rgb { r: 70, g: 230, b: 250 },
                box_cpu: Rgb { r: 190, g: 120, b: 255 },
                box_gpu: Rgb { r: 140, g: 110, b: 250 },
                box_llm: Rgb { r: 70, g: 235, b: 200 },
                box_queue: Rgb { r: 255, g: 165, b: 70 },
                bar_track: Rgb { r: 75, g: 85, b: 110 },
                bar_fill: Rgb { r: 80, g: 235, b: 150 },
                spark_tps: Rgb { r: 255, g: 180, b: 60 },
                spark_compute: Rgb { r: 255, g: 95, b: 170 },
                spark_mem: Rgb { r: 70, g: 220, b: 250 },
                temp_cool: Rgb { r: 90, g: 235, b: 150 },
                temp_warm: Rgb { r: 255, g: 180, b: 60 },
                temp_hot: Rgb { r: 255, g: 85, b: 85 },
                status_online: Rgb { r: 80, g: 245, b: 130 },
                status_offline: Rgb { r: 255, g: 80, b: 80 },
                selected_bg: Rgb { r: 60, g: 50, b: 95 },
                selected_fg: Rgb { r: 255, g: 255, b: 255 },
            },
            ThemeId::CyberMatrix => Palette {
                fg: Rgb { r: 240, g: 255, b: 245 },
                fg_dim: Rgb { r: 160, g: 215, b: 180 },
                fg_highlight: Rgb { r: 255, g: 230, b: 75 },
                border_normal: Rgb { r: 50, g: 180, b: 100 },
                border_active: Rgb { r: 70, g: 255, b: 140 },
                box_cpu: Rgb { r: 60, g: 235, b: 120 },
                box_gpu: Rgb { r: 100, g: 215, b: 255 },
                box_llm: Rgb { r: 255, g: 215, b: 60 },
                box_queue: Rgb { r: 255, g: 140, b: 50 },
                bar_track: Rgb { r: 45, g: 85, b: 65 },
                bar_fill: Rgb { r: 70, g: 255, b: 140 },
                spark_tps: Rgb { r: 255, g: 225, b: 70 },
                spark_compute: Rgb { r: 70, g: 255, b: 140 },
                spark_mem: Rgb { r: 90, g: 220, b: 255 },
                temp_cool: Rgb { r: 70, g: 255, b: 140 },
                temp_warm: Rgb { r: 255, g: 215, b: 60 },
                temp_hot: Rgb { r: 255, g: 80, b: 80 },
                status_online: Rgb { r: 70, g: 255, b: 140 },
                status_offline: Rgb { r: 255, g: 80, b: 80 },
                selected_bg: Rgb { r: 30, g: 80, b: 50 },
                selected_fg: Rgb { r: 240, g: 255, b: 245 },
            },
            ThemeId::Synthwave => Palette {
                fg: Rgb { r: 255, g: 245, b: 255 },
                fg_dim: Rgb { r: 210, g: 180, b: 225 },
                fg_highlight: Rgb { r: 255, g: 235, b: 85 },
                border_normal: Rgb { r: 220, g: 60, b: 160 },
                border_active: Rgb { r: 50, g: 230, b: 255 },
                box_cpu: Rgb { r: 255, g: 75, b: 175 },
                box_gpu: Rgb { r: 175, g: 85, b: 255 },
                box_llm: Rgb { r: 50, g: 230, b: 255 },
                box_queue: Rgb { r: 255, g: 150, b: 50 },
                bar_track: Rgb { r: 95, g: 60, b: 100 },
                bar_fill: Rgb { r: 255, g: 75, b: 175 },
                spark_tps: Rgb { r: 255, g: 150, b: 50 },
                spark_compute: Rgb { r: 255, g: 75, b: 175 },
                spark_mem: Rgb { r: 50, g: 230, b: 255 },
                temp_cool: Rgb { r: 50, g: 230, b: 255 },
                temp_warm: Rgb { r: 255, g: 160, b: 60 },
                temp_hot: Rgb { r: 255, g: 60, b: 100 },
                status_online: Rgb { r: 70, g: 240, b: 180 },
                status_offline: Rgb { r: 255, g: 60, b: 100 },
                selected_bg: Rgb { r: 95, g: 40, b: 95 },
                selected_fg: Rgb { r: 255, g: 245, b: 255 },
            },
            ThemeId::NordFrost => Palette {
                fg: Rgb { r: 240, g: 244, b: 250 },
                fg_dim: Rgb { r: 180, g: 195, b: 215 },
                fg_highlight: Rgb { r: 235, g: 203, b: 139 },
                border_normal: Rgb { r: 110, g: 140, b: 180 },
                border_active: Rgb { r: 136, g: 192, b: 208 },
                box_cpu: Rgb { r: 129, g: 161, b: 193 },
                box_gpu: Rgb { r: 180, g: 142, b: 173 },
                box_llm: Rgb { r: 143, g: 188, b: 187 },
                box_queue: Rgb { r: 235, g: 203, b: 139 },
                bar_track: Rgb { r: 80, g: 95, b: 120 },
                bar_fill: Rgb { r: 163, g: 190, b: 140 },
                spark_tps: Rgb { r: 235, g: 203, b: 139 },
                spark_compute: Rgb { r: 180, g: 142, b: 173 },
                spark_mem: Rgb { r: 136, g: 192, b: 208 },
                temp_cool: Rgb { r: 163, g: 190, b: 140 },
                temp_warm: Rgb { r: 235, g: 203, b: 139 },
                temp_hot: Rgb { r: 191, g: 97, b: 106 },
                status_online: Rgb { r: 163, g: 190, b: 140 },
                status_offline: Rgb { r: 191, g: 97, b: 106 },
                selected_bg: Rgb { r: 67, g: 85, b: 110 },
                selected_fg: Rgb { r: 240, g: 244, b: 250 },
            },
            ThemeId::SolarizedGlow => Palette {
                fg: Rgb { r: 253, g: 246, b: 227 },
                fg_dim: Rgb { r: 180, g: 195, b: 195 },
                fg_highlight: Rgb { r: 215, g: 165, b: 20 },
                border_normal: Rgb { r: 100, g: 140, b: 150 },
                border_active: Rgb { r: 42, g: 185, b: 175 },
                box_cpu: Rgb { r: 45, g: 160, b: 235 },
                box_gpu: Rgb { r: 130, g: 135, b: 220 },
                box_llm: Rgb { r: 42, g: 185, b: 175 },
                box_queue: Rgb { r: 230, g: 100, b: 40 },
                bar_track: Rgb { r: 70, g: 95, b: 100 },
                bar_fill: Rgb { r: 150, g: 180, b: 20 },
                spark_tps: Rgb { r: 215, g: 165, b: 20 },
                spark_compute: Rgb { r: 230, g: 70, b: 150 },
                spark_mem: Rgb { r: 42, g: 185, b: 175 },
                temp_cool: Rgb { r: 150, g: 180, b: 20 },
                temp_warm: Rgb { r: 215, g: 165, b: 20 },
                temp_hot: Rgb { r: 220, g: 50, b: 47 },
                status_online: Rgb { r: 150, g: 180, b: 20 },
                status_offline: Rgb { r: 220, g: 50, b: 47 },
                selected_bg: Rgb { r: 40, g: 80, b: 85 },
                selected_fg: Rgb { r: 253, g: 246, b: 227 },
            },
            ThemeId::MidnightOled => Palette {
                fg: Rgb { r: 245, g: 248, b: 255 },
                fg_dim: Rgb { r: 160, g: 175, b: 200 },
                fg_highlight: Rgb { r: 255, g: 220, b: 85 },
                border_normal: Rgb { r: 130, g: 90, b: 200 },
                border_active: Rgb { r: 60, g: 220, b: 240 },
                box_cpu: Rgb { r: 175, g: 105, b: 255 },
                box_gpu: Rgb { r: 130, g: 95, b: 235 },
                box_llm: Rgb { r: 70, g: 225, b: 190 },
                box_queue: Rgb { r: 255, g: 155, b: 60 },
                bar_track: Rgb { r: 40, g: 45, b: 60 },
                bar_fill: Rgb { r: 75, g: 225, b: 140 },
                spark_tps: Rgb { r: 255, g: 170, b: 50 },
                spark_compute: Rgb { r: 255, g: 85, b: 160 },
                spark_mem: Rgb { r: 60, g: 210, b: 240 },
                temp_cool: Rgb { r: 90, g: 225, b: 140 },
                temp_warm: Rgb { r: 255, g: 170, b: 50 },
                temp_hot: Rgb { r: 255, g: 75, b: 75 },
                status_online: Rgb { r: 75, g: 235, b: 120 },
                status_offline: Rgb { r: 255, g: 70, b: 70 },
                selected_bg: Rgb { r: 50, g: 45, b: 80 },
                selected_fg: Rgb { r: 255, g: 255, b: 255 },
            },
            ThemeId::LightPaper => Palette {
                fg: Rgb { r: 20, g: 24, b: 35 },
                fg_dim: Rgb { r: 95, g: 105, b: 125 },
                fg_highlight: Rgb { r: 180, g: 70, b: 0 },
                border_normal: Rgb { r: 170, g: 180, b: 200 },
                border_active: Rgb { r: 30, g: 100, b: 220 },
                box_cpu: Rgb { r: 40, g: 80, b: 190 },
                box_gpu: Rgb { r: 120, g: 40, b: 180 },
                box_llm: Rgb { r: 20, g: 130, b: 90 },
                box_queue: Rgb { r: 190, g: 80, b: 20 },
                bar_track: Rgb { r: 220, g: 225, b: 235 },
                bar_fill: Rgb { r: 30, g: 140, b: 80 },
                spark_tps: Rgb { r: 190, g: 80, b: 20 },
                spark_compute: Rgb { r: 130, g: 40, b: 170 },
                spark_mem: Rgb { r: 20, g: 110, b: 180 },
                temp_cool: Rgb { r: 30, g: 140, b: 80 },
                temp_warm: Rgb { r: 190, g: 110, b: 20 },
                temp_hot: Rgb { r: 200, g: 30, b: 40 },
                status_online: Rgb { r: 30, g: 140, b: 80 },
                status_offline: Rgb { r: 200, g: 30, b: 40 },
                selected_bg: Rgb { r: 215, g: 228, b: 250 },
                selected_fg: Rgb { r: 15, g: 25, b: 60 },
            },
        };
        let own_bg = match id {
            ThemeId::BtopNeon => Rgb { r: 15, g: 17, b: 26 },
            ThemeId::CyberMatrix => Rgb { r: 10, g: 20, b: 15 },
            ThemeId::Synthwave => Rgb { r: 20, g: 12, b: 28 },
            ThemeId::NordFrost => Rgb { r: 46, g: 52, b: 64 },
            ThemeId::SolarizedGlow => Rgb { r: 0, g: 43, b: 54 },
            ThemeId::MidnightOled => Rgb { r: 12, g: 14, b: 20 },
            ThemeId::LightPaper => Rgb { r: 246, g: 248, b: 252 },
        };
        let bg = if id.is_solid() || force_solid_bg {
            Some(own_bg)
        } else {
            None
        };
        Theme { id, name: id.name(), bg, colors }
    }
}

/// Forcing a solid background changes nothing but the background of a
/// transparent theme, and nothing at all of a solid one.
pub proof fn law_theme_force_only_changes_background(
    a: Theme,
    b: Theme,
    id: ThemeId,
)
    requires
        theme_ok(a, id, false),
        theme_ok(b, id, true),
    ensures
        a.id == b.id,
        a.name@ == b.name@,
        a.colors == b.colors,
        b.bg == Some(solid_background(id)),
        theme_is_solid(id) ==> a.bg == b.bg,
        !theme_is_solid(id) ==> a.bg is None,
{
}

} // verus!
