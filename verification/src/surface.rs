//! Decisions taken when a composite layer surface is (re)configured: which swapchain
//! format, alpha mode and present mode to use, and which size to draw at.

use vstd::prelude::*;

use crate::shell::DesktopWidgetConfig;

verus! {

/// What surface configuration needs to know of a texture format.
#[derive(Debug, Clone, Copy, PartialEq, Eq, Structural)]
pub enum FormatClass {
    /// `Rgba8Unorm` or `Bgra8Unorm`: the linear 8-bit formats Vello renders into.
    LinearRgba8,
    /// Any sRGB format.
    Srgb,
    /// Every other format.
    Other,
}

/// The format to configure: the first linear 8-bit format, else the first sRGB format,
/// else the first format at all.
pub open spec fn preferred_format(formats: Seq<FormatClass>) -> Option<int> {
    if exists|i: int| 0 <= i < formats.len() && formats[i] == FormatClass::LinearRgba8 {
        Some(first_of(formats, FormatClass::LinearRgba8))
    } else if exists|i: int| 0 <= i < formats.len() && formats[i] == FormatClass::Srgb {
        Some(first_of(formats, FormatClass::Srgb))
    } else if formats.len() > 0 {
        Some(0)
    } else {
        None
    }
}

/// Position of the first `class` in `formats`.
pub open spec fn first_of(formats: Seq<FormatClass>, class: FormatClass) -> int {
    choose|i: int|
        0 <= i < formats.len() && formats[i] == class && forall|j: int|
            0 <= j < i ==> formats[j] != class
}

fn find_class(formats: &Vec<FormatClass>, class: FormatClass) -> (res: Option<usize>)
    ensures
        res matches Some(i) ==> i < formats@.len() && formats@[i as int] == class && forall|j: int|
            0 <= j < i ==> formats@[j] != class,
        res is None ==> forall|j: int| 0 <= j < formats@.len() ==> formats@[j] != class,
{
    let mut i: usize = 0;
    while i < formats.len()
        invariant
            i <= formats@.len(),
            forall|j: int| 0 <= j < i ==> formats@[j] != class,
        decreases formats@.len() - i,
    {
        if formats[i] == class {
            return Some(i);
        }
        i = i + 1;
    }
    None
}

/// Chooses the swapchain format among the formats a surface supports.
pub fn select_surface_format(formats: &Vec<FormatClass>) -> (res: Option<usize>)
    ensures
        res matches Some(i) ==> preferred_format(formats@) == Some(i as int),
        res is None <==> preferred_format(formats@) is None,
{
    if let Some(i) = find_class(formats, FormatClass::LinearRgba8) {
        proof {
            let c = first_of(formats@, FormatClass::LinearRgba8);
            assert(formats@[i as int] == FormatClass::LinearRgba8);
            assert(0 <= c < formats@.len() && formats@[c] == FormatClass::LinearRgba8 && forall|j: int|
                0 <= j < c ==> formats@[j] != FormatClass::LinearRgba8);
            assert(c == i) by {
                if c < i {
                } else if c > i {
                    assert(formats@[i as int] != FormatClass::LinearRgba8);
                }
            }
        }
        return Some(i);
    }
    if let Some(i) = find_class(formats, FormatClass::Srgb) {
        proof {
            let c = first_of(formats@, FormatClass::Srgb);
            assert(formats@[i as int] == FormatClass::Srgb);
            assert(0 <= c < formats@.len() && formats@[c] == FormatClass::Srgb && forall|j: int|
                0 <= j < c ==> formats@[j] != FormatClass::Srgb);
            assert(c == i) by {
                if c < i {
                } else if c > i {
                    assert(formats@[i as int] != FormatClass::Srgb);
                }
            }
        }
        return Some(i);
    }
    if formats.len() > 0 {
        Some(0)
    } else {
        None
    }
}

/// Alpha compositing modes a surface may support.
#[derive(Debug, Clone, Copy, PartialEq, Eq, Structural)]
pub enum AlphaMode {
    Auto,
    Opaque,
    PreMultiplied,
    PostMultiplied,
    Inherit,
}

/// Presentation modes a surface may support.
#[derive(Debug, Clone, Copy, PartialEq, Eq, Structural)]
pub enum PresentMode {
    AutoVsync,
    AutoNoVsync,
    Fifo,
    FifoRelaxed,
    Immediate,
    Mailbox,
}

/// Premultiplied alpha when the surface supports it, otherwise automatic selection.
pub fn select_alpha_mode(modes: &Vec<AlphaMode>) -> (res: AlphaMode)
    ensures
        res == (if modes@.contains(AlphaMode::PreMultiplied) {
            AlphaMode::PreMultiplied
        } else {
            AlphaMode::Auto
        }),
{
    let mut i: usize = 0;
    while i < modes.len()
        invariant
            i <= modes@.len(),
            forall|j: int| 0 <= j < i ==> modes@[j] != AlphaMode::PreMultiplied,
        decreases modes@.len() - i,
    {
        if modes[i] == AlphaMode::PreMultiplied {
            assert(modes@.contains(AlphaMode::PreMultiplied)) by {
                assert(modes@[i as int] == AlphaMode::PreMultiplied);
            }
            return AlphaMode::PreMultiplied;
        }
        i = i + 1;
    }
    AlphaMode::Auto
}

/// Mailbox presentation when the surface supports it, otherwise first-in-first-out.
pub fn select_present_mode(modes: &Vec<PresentMode>) -> (res: PresentMode)
    ensures
        res == (if modes@.contains(PresentMode::Mailbox) {
            PresentMode::Mailbox
        } else {
            PresentMode::Fifo
        }),
{
    let mut i: usize = 0;
    while i < modes.len()
        invariant
            i <= modes@.len(),
            forall|j: int| 0 <= j < i ==> modes@[j] != PresentMode::Mailbox,
        decreases modes@.len() - i,
    {
        if modes[i] == PresentMode::Mailbox {
            assert(modes@.contains(PresentMode::Mailbox)) by {
                assert(modes@[i as int] == PresentMode::Mailbox);
            }
            return PresentMode::Mailbox;
        }
        i = i + 1;
    }
    PresentMode::Fifo
}

/// The swapchain extent for a requested physical size: never smaller than one pixel.
pub fn surface_extent(width: u32, height: u32) -> (res: (u32, u32))
    ensures
        res.0 == (if width == 0 { 1 } else { width }),
        res.1 == (if height == 0 { 1 } else { height }),
{
    (if width == 0 { 1 } else { width }, if height == 0 { 1 } else { height })
}

/// The logical size after a layer-surface configure event: a zero dimension means the
/// compositor leaves the choice to the client, which keeps its configured size.
pub fn configured_size(new_width: u32, new_height: u32, config: DesktopWidgetConfig) -> (res: (
    u32,
    u32,
))
    ensures
        res.0 == (if new_width == 0 { config.width } else { new_width }),
        res.1 == (if new_height == 0 { config.height } else { new_height }),
{
    (
        if new_width == 0 { config.width } else { new_width },
        if new_height == 0 { config.height } else { new_height },
    )
}

} // verus!
