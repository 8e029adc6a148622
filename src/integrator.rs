use vstd::prelude::*;

verus! {

/// What the integrator does first at a given remaining depth.
#[derive(Clone, Copy, Debug, PartialEq, Eq)]
pub enum RadianceStart {
    /// The depth is used up: the radiance is black and the scene is not consulted.
    Black,
    /// The ray is intersected with the scene.
    TraceScene,
}

/// What the ray met when traced against the scene.
#[derive(Clone, Copy, Debug, PartialEq, Eq)]
pub enum Interaction {
    /// Nothing was hit.
    Escaped,
    /// A surface was hit and its material did not scatter.
    Absorbed,
    /// A surface was hit and its material scattered the ray.
    Scattered,
}

/// How the radiance of a traced ray is made up.
#[derive(Clone, Copy, Debug, PartialEq, Eq)]
pub enum Shade {
    /// The scene's background colour.
    Background,
    /// The light the hit surface emits, alone.
    Emitted,
    /// The emitted light plus the attenuated radiance of the scattered ray, evaluated with
    /// `next_depth` bounces left.
    EmittedPlusScattered { next_depth: u32 },
}

pub open spec fn start_spec(depth: u32) -> RadianceStart {
    if depth == 0 {
        RadianceStart::Black
    } else {
        RadianceStart::TraceScene
    }
}

pub open spec fn shade_spec(depth: u32, event: Interaction) -> Shade {
    match event {
        Interaction::Escaped => Shade::Background,
        Interaction::Absorbed => Shade::Emitted,
        Interaction::Scattered => Shade::EmittedPlusScattered { next_depth: (depth - 1) as u32 },
    }
}

/// The first step of evaluating the radiance along a ray with `depth` bounces left: black
/// once the depth is used up, whatever the scene holds.
pub fn radiance_start(depth: u32) -> (r: RadianceStart)
    ensures
        r == start_spec(depth),
        depth == 0 ==> r is Black,
{
    if depth == 0 {
        RadianceStart::Black
    } else {
        RadianceStart::TraceScene
    }
}

/// How the radiance of a ray traced with `depth` bounces left is made up from what it met.
pub fn shade(depth: u32, event: Interaction) -> (r: Shade)
    requires
        depth > 0,
    ensures
        r == shade_spec(depth, event),
{
    match event {
        Interaction::Escaped => Shade::Background,
        Interaction::Absorbed => Shade::Emitted,
        Interaction::Scattered => Shade::EmittedPlusScattered { next_depth: depth - 1 },
    }
}

/// In a scene whose materials never scatter, a traced ray's radiance is the background
/// where it escapes and the surface's own emission where it hits, with no further bounce.
pub proof fn lemma_absorbing_scene(depth: u32, event: Interaction)
    requires
        depth > 0,
        !(event is Scattered),
    ensures
        event is Escaped ==> shade_spec(depth, event) is Background,
        event is Absorbed ==> shade_spec(depth, event) is Emitted,
{
}

} // verus!
