use crate::buffer::{ClearAuto, ClearColor, ColorBuffer, Drawable};
use crate::buffer::{color_bytes, in_rect, on_grid, sample_on};
use crate::vector::Scalar;
use crate::utils::NumOption;
use vstd::prelude::*;

verus! {

/// Which primitives a frame is drawn with.
#[derive(Clone, Copy, Debug, PartialEq, Eq, Structural)]
pub enum RenderMode {
    VerticesWireframe,
    Wireframe,
    Solid,
    SolidWireframe,
}

impl RenderMode {
    /// Whether the vertices of each triangle are marked.
    pub fn marks_vertices(&self) -> (marks: bool)
        ensures
            marks == (*self == RenderMode::VerticesWireframe),
    {
        match self {
            RenderMode::VerticesWireframe => true,
            _ => false,
        }
    }

    /// Whether the interior of each triangle is filled.
    pub fn fills(&self) -> (fills: bool)
        ensures
            fills == (*self == RenderMode::Solid || *self == RenderMode::SolidWireframe),
    {
        match self {
            RenderMode::Solid | RenderMode::SolidWireframe => true,
            _ => false,
        }
    }

    /// Whether the three edges of each triangle are stroked; where the
    /// triangle is filled too, the edges come after the fill.
    pub fn strokes_edges(&self) -> (strokes: bool)
        ensures
            strokes == (*self != RenderMode::Solid),
    {
        match self {
            RenderMode::Solid => false,
            _ => true,
        }
    }
}

/// The settings a caller may choose; what is left out takes its default.
pub struct EngineConfigParams {
    pub window_title: Option<String>,
    pub width: Option<usize>,
    pub height: Option<usize>,
    pub clear_color: Option<u32>,
    pub fps: Option<u32>,
    pub render_mode: Option<RenderMode>,
    pub backface_culling_enabled: Option<bool>,
}

impl Default for EngineConfigParams {
    /// Nothing chosen.
    fn default() -> (params: Self)
        ensures
            params.window_title is None,
            params.width is None,
            params.height is None,
            params.clear_color is None,
            params.fps is None,
            params.render_mode is None,
            params.backface_culling_enabled is None,
    {
        EngineConfigParams {
            window_title: None,
            width: None,
            height: None,
            clear_color: None,
            fps: None,
            render_mode: None,
            backface_culling_enabled: None,
        }
    }
}

/// The settings of a running engine.
pub struct EngineConfig {
    window_title: String,
    width: usize,
    height: usize,
    clear_color: u32,
    fps: u32,
    render_mode: RenderMode,
    backface_culling_enabled: bool,
}

/// What an `EngineConfig` holds.
pub struct Settings {
    pub window_title: Seq<char>,
    pub width: usize,
    pub height: usize,
    pub clear_color: u32,
    pub fps: u32,
    pub render_mode: RenderMode,
    pub backface_culling_enabled: bool,
}

/// The settings of an engine for which nothing was chosen: an 800 by 600
/// window named "3D renderer", cleared to opaque black sixty times a second,
/// drawn solid with back faces culled.
pub open spec fn default_settings() -> Settings {
    Settings {
        window_title: "3D renderer"@,
        width: 800,
        height: 600,
        clear_color: 0xFF000000,
        fps: 60,
        render_mode: RenderMode::Solid,
        backface_culling_enabled: true,
    }
}

/// The settings that `params` choose: each field is the chosen value, or the
/// default where none was chosen; a width, height or frame rate of zero
/// counts as not chosen.
pub open spec fn chosen_settings(params: EngineConfigParams) -> Settings {
    let default = default_settings();
    Settings {
        window_title: match params.window_title {
            Some(title) => title@,
            None => default.window_title,
        },
        width: match params.width {
            Some(width) => if width > 0 {
                width
            } else {
                default.width
            },
            None => default.width,
        },
        height: match params.height {
            Some(height) => if height > 0 {
                height
            } else {
                default.height
            },
            None => default.height,
        },
        clear_color: match params.clear_color {
            Some(color) => color,
            None => default.clear_color,
        },
        fps: match params.fps {
            Some(fps) => if fps > 0 {
                fps
            } else {
                default.fps
            },
            None => default.fps,
        },
        render_mode: match params.render_mode {
            Some(mode) => mode,
            None => default.render_mode,
        },
        backface_culling_enabled: match params.backface_culling_enabled {
            Some(enabled) => enabled,
            None => default.backface_culling_enabled,
        },
    }
}

impl View for EngineConfig {
    type V = Settings;

    closed spec fn view(&self) -> Settings {
        Settings {
            window_title: self.window_title@,
            width: self.width,
            height: self.height,
            clear_color: self.clear_color,
            fps: self.fps,
            render_mode: self.render_mode,
            backface_culling_enabled: self.backface_culling_enabled,
        }
    }
}

impl Default for EngineConfig {
    fn default() -> (config: Self)
        ensures
            config@ == default_settings(),
    {
        let width: usize = 800;
        let height: usize = 600;
        EngineConfig {
            window_title: "3D renderer".to_string(),
            width,
            height,
            clear_color: 0xFF000000,
            fps: 60,
            render_mode: RenderMode::Solid,
            backface_culling_enabled: true,
        }
    }
}

impl EngineConfig {
    pub fn new(params: EngineConfigParams) -> (config: Self)
        ensures
            config@ == chosen_settings(params),
            config@.width > 0,
            config@.height > 0,
            config@.fps > 0,
    {
        let default = EngineConfig::default();

        let width = params.width.unwrap_gt_or(0, default.width);
        let height = params.height.unwrap_gt_or(0, default.height);

        EngineConfig {
            window_title: params.window_title.unwrap_or(default.window_title),
            width,
            height,
            clear_color: params.clear_color.unwrap_or(default.clear_color),
            fps: params.fps.unwrap_gt_or(0, default.fps),
            render_mode: params.render_mode.unwrap_or(default.render_mode),
            backface_culling_enabled: params.backface_culling_enabled.unwrap_or(
                default.backface_culling_enabled,
            ),
        }
    }

    pub fn window_title(&self) -> (title: &String)
        ensures
            title@ == self@.window_title,
    {
        &self.window_title
    }

    pub fn width(&self) -> (width: usize)
        ensures
            width == self@.width,
    {
        self.width
    }

    pub fn height(&self) -> (height: usize)
        ensures
            height == self@.height,
    {
        self.height
    }

    pub fn clear_color(&self) -> (color: u32)
        ensures
            color == self@.clear_color,
    {
        self.clear_color
    }

    pub fn fps(&self) -> (fps: u32)
        ensures
            fps == self@.fps,
    {
        self.fps
    }

    pub fn render_mode(&self) -> (mode: &RenderMode)
        ensures
            *mode == self@.render_mode,
    {
        &self.render_mode
    }

    pub fn backface_culling_enabled(&self) -> (enabled: bool)
        ensures
            enabled == self@.backface_culling_enabled,
    {
        self.backface_culling_enabled
    }

    pub fn set_render_mode(&mut self, mode: RenderMode)
        ensures
            final(self)@ == (Settings { render_mode: mode, ..old(self)@ }),
    {
        self.render_mode = mode;
    }

    pub fn set_backface_culling_enabled(&mut self, enabled: bool)
        ensures
            final(self)@ == (Settings { backface_culling_enabled: enabled, ..old(self)@ }),
    {
        self.backface_culling_enabled = enabled;
    }

    /// Takes over the size and the refresh rate of the display.
    pub fn set_display_mode(&mut self, width: usize, height: usize, fps: u32)
        ensures
            final(self)@ == (Settings { width, height, fps, ..old(self)@ }),
    {
        self.width = width;
        self.height = height;
        self.fps = fps;
    }

    /// The time that one frame may take, in nanoseconds: a second divided by
    /// the frame rate.
    pub fn frame_nanos(&self) -> (nanos: u32)
        requires
            self@.fps > 0,
        ensures
            nanos == 1_000_000_000int / (self@.fps as int),
    {
        1_000_000_000u32 / self.fps
    }
}

/// The keys that the engine listens to.
#[derive(Clone, Copy, Debug, PartialEq, Eq, Structural)]
pub enum Key {
    Escape,
    S,
    Num1,
    Num2,
    Num3,
    Num4,
    C,
    D,
    Other,
}

/// What the window hands to the engine.
#[derive(Clone, Copy, Debug, PartialEq, Eq, Structural)]
pub enum InputEvent {
    /// The window was asked to close.
    Quit,
    KeyDown(Key),
    KeyUp(Key),
    Other,
}

/// What the engine does about an event.
#[derive(Clone, Copy, Debug, PartialEq, Eq, Structural)]
pub enum Reaction {
    /// The event means nothing to the engine: the next one is looked at.
    Skip,
    /// The engine shuts down.
    Quit,
    /// A screenshot is to be saved; no further event is looked at in this
    /// frame.
    Screenshot,
    /// A setting was changed; no further event is looked at in this frame.
    Changed,
}

/// What the engine does about `event`.
pub open spec fn reaction_to(event: InputEvent) -> Reaction {
    match event {
        InputEvent::Quit => Reaction::Quit,
        InputEvent::KeyDown(Key::Escape) => Reaction::Quit,
        InputEvent::KeyUp(Key::S) => Reaction::Screenshot,
        InputEvent::KeyUp(Key::Num1) => Reaction::Changed,
        InputEvent::KeyUp(Key::Num2) => Reaction::Changed,
        InputEvent::KeyUp(Key::Num3) => Reaction::Changed,
        InputEvent::KeyUp(Key::Num4) => Reaction::Changed,
        InputEvent::KeyUp(Key::C) => Reaction::Changed,
        InputEvent::KeyUp(Key::D) => Reaction::Changed,
        _ => Reaction::Skip,
    }
}

/// The settings after `event`: the keys 1 to 4 pick the render mode, C turns
/// the culling of back faces on and D turns it off.
pub open spec fn settings_after(settings: Settings, event: InputEvent) -> Settings {
    match event {
        InputEvent::KeyUp(Key::Num1) => Settings {
            render_mode: RenderMode::VerticesWireframe,
            ..settings
        },
        InputEvent::KeyUp(Key::Num2) => Settings { render_mode: RenderMode::Wireframe, ..settings },
        InputEvent::KeyUp(Key::Num3) => Settings { render_mode: RenderMode::Solid, ..settings },
        InputEvent::KeyUp(Key::Num4) => Settings {
            render_mode: RenderMode::SolidWireframe,
            ..settings
        },
        InputEvent::KeyUp(Key::C) => Settings { backface_culling_enabled: true, ..settings },
        InputEvent::KeyUp(Key::D) => Settings { backface_culling_enabled: false, ..settings },
        _ => settings,
    }
}

/// The part of an engine that draws: its settings and the image of the
/// frame.
pub struct EngineCore {
    config: EngineConfig,
    color_buffer: ColorBuffer,
}

impl EngineCore {
    /// The settings.
    pub closed spec fn settings(&self) -> Settings {
        self.config@
    }

    /// The image of the frame.
    pub closed spec fn frame(&self) -> ColorBuffer {
        self.color_buffer
    }

    /// The image is well formed and has the size that the settings give.
    pub open spec fn wf(&self) -> bool {
        &&& self.frame().wf()
        &&& self.frame().width() == self.settings().width
        &&& self.frame().height() == self.settings().height
    }

    /// An engine core with the given settings and an image of their size,
    /// every byte zero.
    pub fn new(config: EngineConfig) -> (core: Self)
        requires
            config@.width * config@.height * 4 <= isize::MAX,
        ensures
            core.wf(),
            core.settings() == config@,
            core.frame()@ == Seq::new((config@.width * config@.height * 4) as nat, |i: int| 0u8),
    {
        let color_buffer = ColorBuffer::new(config.width(), config.height());
        EngineCore { config, color_buffer }
    }

    /// As `new`, for settings that were not checked yet: `None` where the
    /// image would be larger than an allocation can hold.
    pub fn try_new(config: EngineConfig) -> (made: Option<Self>)
        ensures
            made is Some <==> config@.width * config@.height * 4 <= isize::MAX,
            made matches Some(core) ==> core.wf() && core.settings() == config@ && core.frame()@
                == Seq::new((config@.width * config@.height * 4) as nat, |i: int| 0u8),
    {
        match ColorBuffer::try_new(config.width(), config.height()) {
            Some(color_buffer) => Some(EngineCore { config, color_buffer }),
            None => None,
        }
    }

    pub fn config(&self) -> (config: &EngineConfig)
        ensures
            config@ == self.settings(),
    {
        &self.config
    }

    /// The image of the frame, to be shown.
    pub fn color_buffer(&self) -> (buffer: &ColorBuffer)
        ensures
            *buffer == self.frame(),
    {
        &self.color_buffer
    }

    /// Takes one event from the window: changes the settings as the event
    /// asks, and says what else is to be done about it.
    pub fn handle_event(&mut self, event: InputEvent) -> (reaction: Reaction)
        ensures
            reaction == reaction_to(event),
            final(self).settings() == settings_after(old(self).settings(), event),
            final(self).frame() == old(self).frame(),
    {
        match event {
            InputEvent::Quit | InputEvent::KeyDown(Key::Escape) => Reaction::Quit,
            InputEvent::KeyUp(Key::S) => Reaction::Screenshot,
            InputEvent::KeyUp(Key::Num1) => {
                self.config.set_render_mode(RenderMode::VerticesWireframe);
                Reaction::Changed
            },
            InputEvent::KeyUp(Key::Num2) => {
                self.config.set_render_mode(RenderMode::Wireframe);
                Reaction::Changed
            },
            InputEvent::KeyUp(Key::Num3) => {
                self.config.set_render_mode(RenderMode::Solid);
                Reaction::Changed
            },
            InputEvent::KeyUp(Key::Num4) => {
                self.config.set_render_mode(RenderMode::SolidWireframe);
                Reaction::Changed
            },
            InputEvent::KeyUp(Key::C) => {
                self.config.set_backface_culling_enabled(true);
                Reaction::Changed
            },
            InputEvent::KeyUp(Key::D) => {
                self.config.set_backface_culling_enabled(false);
                Reaction::Changed
            },
            _ => Reaction::Skip,
        }
    }
}

impl ClearAuto for EngineCore {
    open spec fn reset_ready(&self) -> bool {
        self.wf()
    }

    /// Sets every pixel of the frame to the clear color of the settings.
    fn clear(&mut self)
        ensures
            final(self).wf(),
            final(self).settings() == old(self).settings(),
            final(self).frame()@ == Seq::new(
                old(self).frame()@.len(),
                |i: int| color_bytes(old(self).settings().clear_color)[i % 4],
            ),
    {
        self.color_buffer.clear(self.config.clear_color());
    }
}

impl Drawable for EngineCore {
    open spec fn draw_ready(&self) -> bool {
        self.wf()
    }

    /// Draws a grid on the frame, as `ColorBuffer::draw_grid` does.
    fn draw_grid(&mut self, spacing: usize, color: Option<u32>)
        ensures
            final(self).wf(),
            final(self).settings() == old(self).settings(),
            forall|px: int, py: int| #[trigger]
                old(self).frame().contains(px, py) ==> final(self).frame().pixel_bytes(px, py)
                    == if on_grid(px, py, spacing as int) {
                    color_bytes(color.unwrap_or(0))
                } else {
                    old(self).frame().pixel_bytes(px, py)
                },
    {
        self.color_buffer.draw_grid(spacing, color);
    }

    /// Fills a rectangle of the frame, as `ColorBuffer::draw_rect` does.
    fn draw_rect(&mut self, x: usize, y: usize, width: usize, height: usize, color: u32)
        ensures
            final(self).wf(),
            final(self).settings() == old(self).settings(),
            !(x + width < old(self).frame().width() && y + height < old(self).frame().height())
                ==> final(self).frame()@ == old(self).frame()@,
            x + width < old(self).frame().width() && y + height < old(self).frame().height()
                ==> forall|px: int, py: int| #[trigger]
                old(self).frame().contains(px, py) ==> final(self).frame().pixel_bytes(px, py)
                    == if in_rect(px, py, x as int, y as int, width as int, height as int) {
                    color_bytes(color)
                } else {
                    old(self).frame().pixel_bytes(px, py)
                },
    {
        self.color_buffer.draw_rect(x, y, width, height, color);
    }

    /// Sets one pixel of the frame, as `ColorBuffer::set_pixel` does.
    fn draw_point(&mut self, x: usize, y: usize, color: u32)
        ensures
            final(self).wf(),
            final(self).settings() == old(self).settings(),
            !old(self).frame().contains(x as int, y as int) ==> final(self).frame()@ == old(self).frame()@,
            forall|px: int, py: int| #[trigger]
                old(self).frame().contains(px, py) ==> final(self).frame().pixel_bytes(px, py)
                    == if px == x && py == y {
                    color_bytes(color)
                } else {
                    old(self).frame().pixel_bytes(px, py)
                },
    {
        self.color_buffer.draw_point(x, y, color);
    }

    /// Stores a sample on the frame, as `ColorBuffer::draw_sample` does.
    fn draw_sample(&mut self, x: Scalar, y: Scalar, color: u32)
        ensures
            final(self).wf(),
            final(self).settings() == old(self).settings(),
            (forall|px: int, py: int| #[trigger]
                old(self).frame().contains(px, py) ==> !sample_on(x, y, px, py)) ==> final(self).frame()@ == old(self).frame()@,
            forall|px: int, py: int| #[trigger]
                old(self).frame().contains(px, py) ==> final(self).frame().pixel_bytes(px, py)
                    == if sample_on(x, y, px, py) {
                    color_bytes(color)
                } else {
                    old(self).frame().pixel_bytes(px, py)
                },
    {
        self.color_buffer.draw_sample(x, y, color);
    }
}

} // verus!
