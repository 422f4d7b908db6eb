//! The headless recording renderer: it keeps track of live compositor surfaces, the
//! documents mounted on each, the patches applied and the current theme stylesheet,
//! without drawing anything.

use vstd::prelude::*;

use std::collections::BTreeMap;

use crate::theme::{theme_css, CosmicTheme};

verus! {

/// Identifier for one compositor surface and composite document: the 128 bits of its
/// UUID.
#[derive(Debug, Clone, Copy, PartialEq, Eq, Structural, PartialOrd, Ord, Hash)]
pub struct SurfaceId(pub u128);

/// Renderer integration failure.
#[derive(Debug)]
pub enum RendererError {
    UnknownSurface(SurfaceId),
    InvalidDocument(String),
    Backend(String),
}

/// A fresh random surface identifier, from `uuid::Uuid::new_v4` read with
/// `Uuid::as_u128`. The value is random, so nothing is stated of it.
#[verifier::external_body]
fn fresh_surface_id() -> (res: u128) {
    uuid::Uuid::new_v4().as_u128()
}

/// Deterministic non-GPU backend used by runtime tests and headless tooling. `D` is the
/// document type mounted on a surface and `P` the patch type.
pub struct RecordingRenderer<D, P> {
    surfaces: BTreeMap<u128, Vec<D>>,
    pub patches: Vec<P>,
    pub theme_css: String,
}

impl<D, P> RecordingRenderer<D, P> {
    /// The identifiers of the live surfaces.
    pub closed spec fn live(&self) -> Set<u128> {
        self.surfaces@.dom()
    }

    /// The documents mounted on each live surface, in mounting order.
    pub closed spec fn mounted(&self) -> Map<u128, Seq<D>> {
        Map::new(|id: u128| self.surfaces@.contains_key(id), |id: u128| self.surfaces@[id]@)
    }

    /// The patches applied so far, in order.
    pub closed spec fn recorded(&self) -> Seq<P> {
        self.patches@
    }

    /// The current theme stylesheet.
    pub closed spec fn stylesheet(&self) -> Seq<char> {
        self.theme_css@
    }

    /// A renderer with no surface, no patch and an empty stylesheet.
    pub fn new() -> (res: RecordingRenderer<D, P>)
        ensures
            res.live().is_empty(),
            res.mounted().dom().is_empty(),
            res.recorded().len() == 0,
            res.stylesheet().len() == 0,
    {
        let res = RecordingRenderer {
            surfaces: BTreeMap::new(),
            patches: Vec::new(),
            theme_css: String::new(),
        };
        assert(res.mounted().dom() =~= Set::empty());
        res
    }

    /// Allocates an empty surface under a fresh random identifier. The logical size is
    /// not recorded.
    pub fn create_surface(&mut self, logical_size: (u32, u32)) -> (res: SurfaceId)
        ensures
            final(self).live() == old(self).live().insert(res.0),
            final(self).mounted() == old(self).mounted().insert(res.0, Seq::<D>::empty()),
            final(self).recorded() == old(self).recorded(),
            final(self).stylesheet() == old(self).stylesheet(),
    {
        let id = fresh_surface_id();
        let empty: Vec<D> = Vec::new();
        self.surfaces.insert(id, empty);
        assert(self.mounted() =~= old(self).mounted().insert(id, Seq::<D>::empty()));
        SurfaceId(id)
    }

    /// Removes a surface and everything mounted on it.
    ///
    /// # Errors
    ///
    /// Returns [`RendererError::UnknownSurface`] when the identifier is stale.
    pub fn destroy_surface(&mut self, surface: SurfaceId) -> (res: Result<(), RendererError>)
        ensures
            res is Ok <==> old(self).live().contains(surface.0),
            res matches Err(e) ==> (e matches RendererError::UnknownSurface(s) && s == surface),
            final(self).live() == old(self).live().remove(surface.0),
            final(self).mounted() == old(self).mounted().remove(surface.0),
            final(self).recorded() == old(self).recorded(),
            final(self).stylesheet() == old(self).stylesheet(),
    {
        let removed = self.surfaces.remove(&surface.0);
        assert(self.mounted() =~= old(self).mounted().remove(surface.0));
        match removed {
            Some(_) => Ok(()),
            None => Err(RendererError::UnknownSurface(surface)),
        }
    }

    /// Replaces the inherited COSMIC tokens for every surface with the stylesheet of
    /// `theme`.
    pub fn set_theme(&mut self, theme: &CosmicTheme) -> (res: Result<(), RendererError>)
        ensures
            res is Ok,
            final(self).stylesheet() == theme_css(*theme),
            final(self).live() == old(self).live(),
            final(self).mounted() == old(self).mounted(),
            final(self).recorded() == old(self).recorded(),
    {
        self.theme_css = theme.to_css();
        Ok(())
    }

    /// Mounts one widget document on a live surface, after those mounted before.
    ///
    /// # Errors
    ///
    /// Returns [`RendererError::UnknownSurface`] when the identifier is stale; nothing
    /// changes then.
    pub fn mount(&mut self, surface: SurfaceId, document: D) -> (res: Result<(), RendererError>)
        ensures
            res is Ok <==> old(self).live().contains(surface.0),
            res matches Err(e) ==> (e matches RendererError::UnknownSurface(s) && s == surface),
            final(self).live() == old(self).live(),
            res is Ok ==> final(self).mounted() == old(self).mounted().insert(
                surface.0,
                old(self).mounted()[surface.0].push(document),
            ),
            res is Err ==> final(self).mounted() == old(self).mounted(),
            final(self).recorded() == old(self).recorded(),
            final(self).stylesheet() == old(self).stylesheet(),
    {
        let ghost before = self.surfaces@;
        match self.surfaces.remove(&surface.0) {
            Some(mut documents) => {
                documents.push(document);
                self.surfaces.insert(surface.0, documents);
                proof {
                    assert(self.surfaces@.dom() =~= before.dom());
                }
                assert(self.mounted() =~= old(self).mounted().insert(
                    surface.0,
                    old(self).mounted()[surface.0].push(document),
                ));
                Ok(())
            },
            None => {
                assert(self.surfaces@ =~= before);
                Err(RendererError::UnknownSurface(surface))
            },
        }
    }

    /// Appends `patches`, in order, to the record when the surface is live.
    ///
    /// # Errors
    ///
    /// Returns [`RendererError::UnknownSurface`] when the identifier is stale; nothing
    /// changes then.
    pub fn patch(&mut self, surface: SurfaceId, patches: Vec<P>) -> (res: Result<(), RendererError>)
        ensures
            res is Ok <==> old(self).live().contains(surface.0),
            res matches Err(e) ==> (e matches RendererError::UnknownSurface(s) && s == surface),
            res is Ok ==> final(self).recorded() == old(self).recorded() + patches@,
            res is Err ==> final(self).recorded() == old(self).recorded(),
            final(self).live() == old(self).live(),
            final(self).mounted() == old(self).mounted(),
            final(self).stylesheet() == old(self).stylesheet(),
    {
        if !self.surfaces.contains_key(&surface.0) {
            return Err(RendererError::UnknownSurface(surface));
        }
        let mut patches = patches;
        self.patches.append(&mut patches);
        Ok(())
    }

    /// Presents the latest scene of a live surface; recording it draws nothing.
    ///
    /// # Errors
    ///
    /// Returns [`RendererError::UnknownSurface`] when the identifier is stale.
    pub fn render(&self, surface: SurfaceId) -> (res: Result<(), RendererError>)
        ensures
            res is Ok <==> self.live().contains(surface.0),
            res matches Err(e) ==> (e matches RendererError::UnknownSurface(s) && s == surface),
    {
        if self.surfaces.contains_key(&surface.0) {
            Ok(())
        } else {
            Err(RendererError::UnknownSurface(surface))
        }
    }
}

impl<D, P> Default for RecordingRenderer<D, P> {
    fn default() -> (res: RecordingRenderer<D, P>)
        ensures
            res.live().is_empty(),
            res.mounted().dom().is_empty(),
            res.recorded().len() == 0,
            res.stylesheet().len() == 0,
    {
        RecordingRenderer::new()
    }
}

} // verus!
