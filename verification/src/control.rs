//! What the viewer has chosen, and what a change of it does to the picture.
//!
//! The samples in a film belong to one camera, one scene and one way of
//! shading. Whenever one of the three changes, the film is cleared before a
//! further sample can be added to it.

use vstd::prelude::*;
use crate::film::Film;
use crate::renderer::RenderMode;

verus! {

/// The number of scenes to choose from.
pub const SCENES: u8 = 4;

/// Something the viewer did.
#[derive(Clone, Copy, Debug, PartialEq, Eq)]
pub enum Control {
    /// Asked for the next way of shading.
    NextMode,
    /// Asked for the next scene.
    NextScene,
    /// Moved or turned the camera.
    CameraMoved,
}

/// The way of shading and the scene that the viewer has chosen.
#[derive(Clone, Copy, Debug, PartialEq, Eq)]
pub struct Controls {
    mode: RenderMode,
    scene: u8,
}

impl Controls {
    #[verifier::type_invariant]
    spec fn scene_exists(&self) -> bool {
        self.scene < SCENES
    }

    pub closed spec fn spec_mode(&self) -> RenderMode {
        self.mode
    }

    pub closed spec fn spec_scene(&self) -> u8 {
        self.scene
    }

    /// The choice after a control: the next mode, the next scene, or the
    /// same as before.
    pub open spec fn after(&self, control: Control) -> (RenderMode, u8) {
        match control {
            Control::NextMode => (self.spec_mode().spec_next(), self.spec_scene()),
            Control::NextScene => (self.spec_mode(), ((self.spec_scene() + 1) % (SCENES as int)) as u8),
            Control::CameraMoved => (self.spec_mode(), self.spec_scene()),
        }
    }

    /// The choice at the start: local shading of the last scene.
    pub fn new() -> (r: Controls)
        ensures
            r.spec_mode() == RenderMode::Raycast,
            r.spec_scene() == SCENES - 1,
    {
        Controls { mode: RenderMode::Raycast, scene: SCENES - 1 }
    }

    /// The way of shading that is chosen.
    #[verifier::when_used_as_spec(spec_mode)]
    pub fn mode(&self) -> (r: RenderMode)
        ensures
            r == self.spec_mode(),
    {
        self.mode
    }

    /// The scene that is chosen, counted from zero.
    #[verifier::when_used_as_spec(spec_scene)]
    pub fn scene(&self) -> (r: u8)
        ensures
            r == self.spec_scene(),
            r < SCENES,
    {
        proof {
            use_type_invariant(self);
        }
        self.scene
    }

    /// Takes a control and clears the film: whatever the control, the film
    /// is blank afterwards, with no sample counted, and has its size. The
    /// next mode follows the order of [`RenderMode::next`]; the scene after
    /// the last is the first.
    pub fn apply(&mut self, control: Control, film: &mut Film)
        ensures
            final(film).blank(),
            final(film).well_formed(),
            final(film).spec_width() == old(film).spec_width(),
            final(film).spec_height() == old(film).spec_height(),
            (final(self).spec_mode(), final(self).spec_scene()) == old(self).after(control),
    {
        proof {
            use_type_invariant(&*self);
        }
        match control {
            Control::NextMode => {
                self.mode = self.mode.next();
            },
            Control::NextScene => {
                self.scene = (self.scene + 1) % SCENES;
            },
            Control::CameraMoved => {},
        }
        film.reset();
    }
}

} // verus!
