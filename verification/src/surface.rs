//! The presentation surface: format negotiation, configuration, resizing,
//! and the per-frame presentation plan.
//!
//! The host owns the live window, device, queue and surface handles; this
//! module owns the decisions made about them: which surface format is
//! chosen from the adapter's capabilities, what the surface configuration
//! record holds, how it changes on resize, and what every frame draws.

use vstd::prelude::*;

verus! {

/// Initial window width, in logical pixels.
pub const WINDOW_WIDTH: u32 = 800;

/// Initial window height, in logical pixels.
pub const WINDOW_HEIGHT: u32 = 600;

/// Most frames the presentation layer may buffer ahead of the display.
pub const MAX_FRAME_LATENCY: u32 = 2;

/// Why a graphics step failed.
#[derive(Clone, Copy, Debug, PartialEq, Eq)]
pub enum GraphicsError {
    /// No compatible adapter was found.
    AdapterUnavailable,
    /// The device/queue request was rejected.
    DeviceUnavailable,
    /// The adapter reported no surface format or no alpha mode.
    EmptyCapabilities,
    /// The next presentable texture cannot be acquired (zero-sized or lost
    /// surface).
    SurfaceAcquire,
}

/// One surface format the adapter can target: an identifier the host maps
/// back to the platform's own format value, and whether the format is
/// sRGB-encoded.
#[derive(Clone, Copy, Debug, PartialEq, Eq)]
pub struct TextureFormat {
    pub code: u32,
    pub srgb: bool,
}

/// When a rendered frame becomes visible.
#[derive(Clone, Copy, Debug, PartialEq, Eq)]
pub enum PresentMode {
    /// Strict vertical sync: no tearing, bounded latency.
    Fifo,
    Immediate,
    Mailbox,
}

/// What the adapter reports about a surface: the supported formats, in the
/// adapter's preference order, and the supported alpha modes likewise.
#[derive(Clone, Debug, PartialEq, Eq)]
pub struct SurfaceCaps {
    pub formats: Vec<TextureFormat>,
    pub alpha_modes: Vec<u32>,
}

/// The surface configuration record applied to the live surface.
#[derive(Clone, Copy, Debug, PartialEq, Eq)]
pub struct SurfaceConfig {
    pub format: TextureFormat,
    pub width: u32,
    pub height: u32,
    pub present_mode: PresentMode,
    pub alpha_mode: u32,
    pub frame_latency: u32,
}

/// The chosen surface format: the first sRGB-encoded format if any is
/// reported, else the first reported format; nothing if none is reported.
pub open spec fn spec_choose_format(fs: Seq<TextureFormat>) -> Option<TextureFormat>
    decreases fs.len(),
{
    if fs.len() == 0 {
        None
    } else if fs[0].srgb {
        Some(fs[0])
    } else {
        match spec_choose_format(fs.skip(1)) {
            Some(f) => if f.srgb {
                Some(f)
            } else {
                Some(fs[0])
            },
            None => Some(fs[0]),
        }
    }
}

fn choose_from(formats: &Vec<TextureFormat>, i: usize) -> (r: Option<TextureFormat>)
    requires
        i <= formats@.len(),
    ensures
        r == spec_choose_format(formats@.skip(i as int)),
    decreases formats@.len() - i,
{
    if i == formats.len() {
        proof {
            assert(formats@.skip(i as int) =~= Seq::<TextureFormat>::empty());
        }
        None
    } else {
        let f = formats[i];
        proof {
            assert(formats@.skip(i as int)[0] == formats@[i as int]);
        }
        if f.srgb {
            Some(f)
        } else {
            let rest = choose_from(formats, i + 1);
            proof {
                assert(formats@.skip(i as int).skip(1) =~= formats@.skip(i as int + 1));
            }
            match rest {
                Some(g) => if g.srgb {
                    Some(g)
                } else {
                    Some(f)
                },
                None => Some(f),
            }
        }
    }
}

/// The chosen surface format for a reported format list.
pub fn choose_format(formats: &Vec<TextureFormat>) -> (r: Option<TextureFormat>)
    ensures
        r == spec_choose_format(formats@),
{
    let r = choose_from(formats, 0);
    proof {
        assert(formats@.skip(0) =~= formats@);
    }
    r
}

/// Format selection: a capability list with at least one sRGB-encoded format
/// yields an sRGB-encoded format; a non-empty list with none yields the
/// list's first entry.
pub proof fn lemma_format_selection(fs: Seq<TextureFormat>)
    ensures
        (exists|i: int| 0 <= i < fs.len() && fs[i].srgb) ==> (match spec_choose_format(fs) {
            Some(f) => f.srgb,
            None => false,
        }),
        (fs.len() > 0 && (forall|i: int| 0 <= i < fs.len() ==> !fs[i].srgb))
            ==> spec_choose_format(fs) == Some(fs[0]),
    decreases fs.len(),
{
    if fs.len() == 0 {
    } else if fs[0].srgb {
    } else {
        lemma_format_selection(fs.skip(1));
        if exists|i: int| 0 <= i < fs.len() && fs[i].srgb {
            let i = choose|i: int| 0 <= i < fs.len() && fs[i].srgb;
            assert(i > 0);
            assert(fs.skip(1)[i - 1].srgb);
            assert(exists|j: int| 0 <= j < fs.skip(1).len() && fs.skip(1)[j].srgb);
        }
        if fs.len() > 0 && (forall|i: int| 0 <= i < fs.len() ==> !fs[i].srgb) {
            assert(forall|j: int|
                0 <= j < fs.skip(1).len() ==> fs.skip(1)[j] == fs[j + 1] && !fs.skip(1)[j].srgb);
        }
    }
}

/// The decided state of the presentation surface: its configuration record.
/// The live window, device, queue and surface handles stay with the host,
/// which applies this record to them.
#[derive(Clone, Copy, Debug, PartialEq, Eq)]
pub struct AppSurface {
    pub config: SurfaceConfig,
}

/// The fixed color every frame clears to, in tenths: (0.1, 0.2, 0.3, 1.0).
#[derive(Clone, Copy, Debug, PartialEq, Eq)]
pub struct ClearColor {
    pub r_tenths: u32,
    pub g_tenths: u32,
    pub b_tenths: u32,
    pub a_tenths: u32,
}

pub open spec fn spec_clear_color() -> ClearColor {
    ClearColor { r_tenths: 1, g_tenths: 2, b_tenths: 3, a_tenths: 10 }
}

/// What one frame does: clear to a color, store the result, and ask for the
/// next frame at once (continuous redraw is the intended policy).
#[derive(Clone, Copy, Debug, PartialEq, Eq)]
pub struct FramePlan {
    pub clear: ClearColor,
    pub store: bool,
    pub request_redraw: bool,
}

impl AppSurface {
    /// Builds the surface configuration from the adapter's reported
    /// capabilities: the chosen format, the fixed initial size, strict
    /// vertical sync, the first reported alpha mode, and a frame latency of
    /// two.
    pub fn new(caps: &SurfaceCaps) -> (r: Result<AppSurface, GraphicsError>)
        ensures
            match r {
                Ok(s) => caps.formats@.len() > 0 && caps.alpha_modes@.len() > 0 && Some(
                    s.config.format,
                ) == spec_choose_format(caps.formats@) && s.config.width == WINDOW_WIDTH
                    && s.config.height == WINDOW_HEIGHT && s.config.present_mode
                    == PresentMode::Fifo && s.config.alpha_mode == caps.alpha_modes@[0]
                    && s.config.frame_latency == MAX_FRAME_LATENCY,
                Err(e) => (caps.formats@.len() == 0 || caps.alpha_modes@.len() == 0) && e
                    == GraphicsError::EmptyCapabilities,
            },
    {
        let format = match choose_format(&caps.formats) {
            Some(f) => f,
            None => {
                return Err(GraphicsError::EmptyCapabilities);
            },
        };
        if caps.alpha_modes.len() == 0 {
            return Err(GraphicsError::EmptyCapabilities);
        }
        proof {
            assert(caps.formats@.len() > 0);
        }
        Ok(
            AppSurface {
                config: SurfaceConfig {
                    format,
                    width: WINDOW_WIDTH,
                    height: WINDOW_HEIGHT,
                    present_mode: PresentMode::Fifo,
                    alpha_mode: caps.alpha_modes[0],
                    frame_latency: MAX_FRAME_LATENCY,
                },
            },
        )
    }

    /// Records the most recently observed window size, leaving every other
    /// part of the configuration as it was. The host must re-apply the
    /// record to the live surface before the next frame is acquired.
    pub fn reconfigure(&mut self, width: u32, height: u32)
        ensures
            final(self).config == (SurfaceConfig {
                width,
                height,
                ..old(self).config
            }),
    {
        self.config.width = width;
        self.config.height = height;
    }

    /// The plan for one frame. Clear-color determinism: every successful
    /// frame clears to the same fixed color, whatever the surface state or
    /// frame count; a zero-sized surface cannot be acquired and is reported,
    /// not ignored.
    pub fn render_frame(&self) -> (r: Result<FramePlan, GraphicsError>)
        ensures
            self.config.width > 0 && self.config.height > 0 ==> r == Ok::<
                FramePlan,
                GraphicsError,
            >(FramePlan { clear: spec_clear_color(), store: true, request_redraw: true }),
            self.config.width == 0 || self.config.height == 0 ==> r == Err::<
                FramePlan,
                GraphicsError,
            >(GraphicsError::SurfaceAcquire),
    {
        if self.config.width > 0 && self.config.height > 0 {
            Ok(
                FramePlan {
                    clear: ClearColor { r_tenths: 1, g_tenths: 2, b_tenths: 3, a_tenths: 10 },
                    store: true,
                    request_redraw: true,
                },
            )
        } else {
            Err(GraphicsError::SurfaceAcquire)
        }
    }
}

} // verus!
