//! Layer-shell surface grouping and the shell's error vocabulary.

use vstd::prelude::*;

use crate::layout::{Edge, LayerPolicy};

verus! {

/// Wayland session facts used by `cosmic-widgets doctor`.
#[derive(Debug, Clone)]
pub struct WaylandProbe {
    pub display: String,
    pub desktop: Option<String>,
    pub connected: bool,
}

/// Failure to establish the required client connection.
#[derive(Debug)]
pub enum ShellError {
    MissingDisplay,
    Connection(String),
    Renderer(String),
}

/// Direct Wayland/WGPU setup failure.
#[derive(Debug)]
pub enum GpuError {
    NullHandle(&'static str),
    CreateSurface(String),
    Adapter(String),
    Device(String),
    Renderer(String),
    UnsupportedSurface,
    SurfaceTimeout,
    SurfaceOccluded,
    SurfaceOutdated,
    SurfaceLost,
    SurfaceValidation,
}

/// Complete key for grouping widgets onto a shared layer surface.
#[derive(Debug, Clone, Copy, PartialEq, Eq, Hash, Structural)]
pub struct SurfaceGroup {
    pub edge: Option<Edge>,
    pub policy: LayerPolicy,
}

impl SurfaceGroup {
    /// Desktop widgets share a non-exclusive bottom-layer surface.
    pub fn desktop() -> (res: SurfaceGroup)
        ensures
            res.edge is None,
            res.policy == LayerPolicy::Overlay,
    {
        SurfaceGroup { edge: None, policy: LayerPolicy::Overlay }
    }
}

/// Placement and rendering policy for one desktop widget surface.
#[derive(Debug, Clone, Copy, PartialEq, Eq, Structural)]
pub struct DesktopWidgetConfig {
    pub width: u32,
    pub height: u32,
    pub top: i32,
    pub right: i32,
    pub dark: bool,
}

impl Default for DesktopWidgetConfig {
    fn default() -> (res: DesktopWidgetConfig)
        ensures
            res == (DesktopWidgetConfig { width: 320, height: 184, top: 72, right: 32, dark: true }),
    {
        DesktopWidgetConfig { width: 320, height: 184, top: 72, right: 32, dark: true }
    }
}

/// What a frame does with the widget document before it paints.
#[derive(Debug, Clone, Copy, PartialEq, Eq, Structural)]
pub enum DocumentAction {
    /// No document exists yet: build one from the HTML.
    Create,
    /// The HTML differs from what the document shows: load the new HTML.
    Replace,
    /// The document already shows this HTML.
    Keep,
}

/// Decides how a frame brings the widget document up to date with `html`, given whether
/// a document exists and the HTML it was last built from.
pub fn document_action(has_document: bool, html: &String, rendered: &String) -> (res: DocumentAction)
    ensures
        res == (if !has_document {
            DocumentAction::Create
        } else if html@ != rendered@ {
            DocumentAction::Replace
        } else {
            DocumentAction::Keep
        }),
{
    if !has_document {
        DocumentAction::Create
    } else if *html != *rendered {
        DocumentAction::Replace
    } else {
        DocumentAction::Keep
    }
}

/// What a frame does with the GPU surface before it presents the scene.
#[derive(Debug, Clone, Copy, PartialEq, Eq, Structural)]
pub enum GpuAction {
    /// No GPU state exists yet: create it and configure the surface at the wanted size.
    Create,
    /// The surface is configured at another size, or not at all: configure it again.
    Reconfigure,
    /// The surface is ready at the wanted size.
    Present,
}

/// Decides how a frame brings the GPU surface up to date, given whether GPU state
/// exists, the size the surface is configured at, and the physical size wanted.
pub fn gpu_action(has_gpu: bool, configured: Option<(u32, u32)>, wanted: (u32, u32)) -> (res:
    GpuAction)
    ensures
        res == (if !has_gpu {
            GpuAction::Create
        } else if configured != Some(wanted) {
            GpuAction::Reconfigure
        } else {
            GpuAction::Present
        }),
{
    if !has_gpu {
        return GpuAction::Create;
    }
    let ready = match configured {
        Some((width, height)) => width == wanted.0 && height == wanted.1,
        None => false,
    };
    if ready {
        GpuAction::Present
    } else {
        GpuAction::Reconfigure
    }
}

} // verus!
