use vstd::prelude::*;

pub mod graphics;
pub mod scene;

use crate::scene::Scene;
use crate::scene::SceneObject;

verus! {

/// The state a running engine hands to the host's per-tick callback: the
/// scene currently rendered and an optional blob of host data.
pub struct EngineState<T: SceneObject, S> {
    current_scene: Scene<T>,
    user_state: Option<S>,
}

impl<T: SceneObject, S> EngineState<T, S> {
    /// The scene currently rendered.
    pub closed spec fn spec_scene(self) -> Scene<T> {
        self.current_scene
    }

    /// The host data, when the host has set any.
    pub closed spec fn spec_user(self) -> Option<S> {
        self.user_state
    }

    /// Engine state over `scene`, with no host data yet.
    pub fn new(scene: Scene<T>) -> (st: EngineState<T, S>)
        ensures
            st.spec_scene() == scene,
            st.spec_user() is None,
    {
        EngineState { current_scene: scene, user_state: None }
    }

    /// Replaces the whole rendered scene, camera included; the host data
    /// stays.
    pub fn switch_scene(&mut self, scene: Scene<T>)
        ensures
            final(self).spec_scene() == scene,
            final(self).spec_user() == old(self).spec_user(),
    {
        self.current_scene = scene;
    }

    /// Replaces the host data.
    pub fn set_user_state(&mut self, user_state: S)
        ensures
            final(self).spec_user() == Some(user_state),
            final(self).spec_scene() == old(self).spec_scene(),
    {
        self.user_state = Some(user_state);
    }

    /// Borrows the host data, when any has been set.
    pub fn user(&self) -> (r: Option<&S>)
        ensures
            self.spec_user() matches Some(s) ==> (r matches Some(b) && *b == s),
            self.spec_user() is None ==> r is None,
    {
        self.user_state.as_ref()
    }

    /// Mutably borrows the host data, when any has been set; the scene is
    /// untouched either way.
    pub fn user_mut(&mut self) -> (r: Option<&mut S>)
        ensures
            old(self).spec_user() is None ==> r is None && *final(self) == *old(self),
            old(self).spec_user() matches Some(s) ==> (r matches Some(b) && *b == s
                && final(self).spec_user() == Some(*final(b))),
            final(self).spec_scene() == old(self).spec_scene(),
    {
        match &mut self.user_state {
            Some(b) => Some(b),
            None => None,
        }
    }

    /// Borrows the scene currently rendered.
    pub fn scene(&self) -> (s: &Scene<T>)
        ensures
            *s == self.spec_scene(),
    {
        &self.current_scene
    }

    /// Mutably borrows the scene currently rendered, so a tick callback can
    /// add and remove objects or move the camera; the host data stays.
    pub fn scene_mut(&mut self) -> (s: &mut Scene<T>)
        ensures
            *s == old(self).spec_scene(),
            final(self).spec_scene() == *final(s),
            final(self).spec_user() == old(self).spec_user(),
    {
        &mut self.current_scene
    }
}

/// The window and context settings an engine host assembles a window from:
/// framebuffer size, depth-buffer precision and multisampling. The defaults
/// are the ones the engine's own driver uses.
pub struct EngineBuilder {
    pub width: u32,
    pub height: u32,
    pub depth_bits: u8,
    pub multisampling: u16,
}

impl EngineBuilder {
    /// The default settings: a 1920 by 1080 framebuffer, a 24-bit depth
    /// buffer and eightfold multisampling.
    pub fn new() -> (b: EngineBuilder)
        ensures
            b.width == 1920,
            b.height == 1080,
            b.depth_bits == 24,
            b.multisampling == 8,
    {
        EngineBuilder { width: 1920, height: 1080, depth_bits: 24, multisampling: 8 }
    }

    /// The same settings with another framebuffer size.
    pub fn with_size(self, width: u32, height: u32) -> (b: EngineBuilder)
        ensures
            b.width == width,
            b.height == height,
            b.depth_bits == self.depth_bits,
            b.multisampling == self.multisampling,
    {
        EngineBuilder { width, height, ..self }
    }
}

} // verus!
