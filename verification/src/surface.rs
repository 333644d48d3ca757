//! The surfaces of the panel, one for each output.

use crate::input::SurfaceId;
use vstd::prelude::*;

verus! {

/// The identity of a display output, as the registry numbers it.
pub type OutputId = u32;

/// One surface of the panel, bound to one output.
///
/// `configured` turns true when the compositor's first configuration of the
/// surface is acknowledged and never turns false again. `front` is the frame
/// last handed to the compositor for this surface, which it may still read.
#[derive(Debug, Clone, Copy, PartialEq, Eq, Structural)]
pub struct BarInstance {
    pub surface: SurfaceId,
    pub output: OutputId,
    pub configured: bool,
    pub front: Option<usize>,
}

/// By what a surface is picked out for removal.
#[derive(Debug, Clone, Copy, PartialEq, Eq, Structural)]
pub enum InstanceKey {
    Output(OutputId),
    Surface(SurfaceId),
}

impl BarInstance {
    /// The instance as it is right after its surface was made: waiting for
    /// its first configuration, with nothing shown yet.
    pub open spec fn pending(surface: SurfaceId, output: OutputId) -> BarInstance {
        BarInstance { surface, output, configured: false, front: None }
    }

    /// This instance once its configuration is acknowledged.
    pub open spec fn acknowledged(self) -> BarInstance {
        BarInstance { configured: true, ..self }
    }

    /// This instance showing nothing.
    pub open spec fn unshown(self) -> BarInstance {
        BarInstance { front: None, ..self }
    }

    /// This instance showing the given frame.
    pub open spec fn showing(self, slot: usize) -> BarInstance {
        BarInstance { front: Some(slot), ..self }
    }

    pub open spec fn matches(self, key: InstanceKey) -> bool {
        match key {
            InstanceKey::Output(output) => self.output == output,
            InstanceKey::Surface(surface) => self.surface == surface,
        }
    }

    pub fn new(surface: SurfaceId, output: OutputId) -> (instance: Self)
        ensures
            instance == BarInstance::pending(surface, output),
    {
        BarInstance { surface, output, configured: false, front: None }
    }

    /// Whether the key picks this instance.
    pub fn is_matched_by(&self, key: InstanceKey) -> (hit: bool)
        ensures
            hit == self.matches(key),
    {
        match key {
            InstanceKey::Output(output) => self.output == output,
            InstanceKey::Surface(surface) => self.surface == surface,
        }
    }
}

/// Some instance is bound to the given output.
pub open spec fn has_output(instances: Seq<BarInstance>, output: OutputId) -> bool {
    exists|i: int| 0 <= i < instances.len() && (#[trigger] instances[i]).output == output
}

/// Some instance has the given surface.
pub open spec fn has_surface(instances: Seq<BarInstance>, surface: SurfaceId) -> bool {
    exists|i: int| 0 <= i < instances.len() && (#[trigger] instances[i]).surface == surface
}

/// Some instance has the given surface and still waits for its first
/// configuration.
pub open spec fn awaits_configure(instances: Seq<BarInstance>, surface: SurfaceId) -> bool {
    exists|i: int|
        0 <= i < instances.len() && (#[trigger] instances[i]).surface == surface
            && !instances[i].configured
}

/// Some instance has the given surface and is configured.
pub open spec fn shows_surface(instances: Seq<BarInstance>, surface: SurfaceId) -> bool {
    exists|i: int|
        0 <= i < instances.len() && (#[trigger] instances[i]).surface == surface
            && instances[i].configured
}

/// Some instance is configured.
pub open spec fn any_configured(instances: Seq<BarInstance>) -> bool {
    exists|i: int| 0 <= i < instances.len() && (#[trigger] instances[i]).configured
}

/// No two instances are bound to the same output.
pub open spec fn distinct_outputs(instances: Seq<BarInstance>) -> bool {
    forall|i: int, j: int|
        0 <= i < j < instances.len() ==> (#[trigger] instances[i]).output
            != (#[trigger] instances[j]).output
}

/// Acknowledges the configuration of every instance with the given surface.
pub open spec fn acknowledge(surface: SurfaceId) -> spec_fn(BarInstance) -> BarInstance {
    |instance: BarInstance|
        if instance.surface == surface {
            instance.acknowledged()
        } else {
            instance
        }
}

/// Forgets what an instance shows.
pub open spec fn unshow() -> spec_fn(BarInstance) -> BarInstance {
    |instance: BarInstance| instance.unshown()
}

/// The set of outputs that the instances are bound to.
pub open spec fn outputs_of(instances: Seq<BarInstance>) -> Set<OutputId> {
    Set::new(|output: OutputId| has_output(instances, output))
}

} // verus!
