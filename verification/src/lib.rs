//! Package, capability, manifest, binding, provider and theme logic for COSMIC desktop
//! widgets.

pub mod binding;
pub mod capability;
pub mod document;
pub mod install;
pub mod json;
pub mod layout;
pub mod logic;
pub mod manifest;
pub mod package;
pub mod provider;
pub mod renderer;
pub mod shell;
pub mod surface;
pub mod text;
pub mod theme;

pub use binding::{Binding, BindingKind};
pub use capability::{Capability, CapabilityGrant, CapabilitySet};
pub use document::{clock_document, escape_attribute, set_bound_text};
pub use json::resolve_path;
pub use layout::{default_visible, Edge, LayerPolicy};
pub use logic::{
    ExtismEngine, ExtismInstance, LogicError, LogicLimits, WidgetLogicEngine, WidgetLogicInstance,
};
pub use manifest::{Manifest, PlacementKind, RefreshPolicy, Size, WasmManifest, PACKAGE_SCHEMA};
pub use package::{
    check_active_content, finish_package, inspect_archive, open_package, OpenedPackage,
    PackageError, PackageLimits, ValidatedPackage,
};
pub use provider::{DataPatch, ProviderRegistry};
pub use renderer::{RecordingRenderer, RendererError, SurfaceId};
pub use shell::{DesktopWidgetConfig, GpuError, ShellError, SurfaceGroup, WaylandProbe};
pub use theme::{CosmicTheme, ThemeMode};

use vstd::prelude::*;

verus! {

/// D-Bus application and service identifier.
pub const APP_ID: &'static str = "io.github.vynxc.CosmicWidgets";

} // verus!
