use rusty_raytracer::integrator::{radiance_start, shade, Interaction, RadianceStart, Shade};

#[test]
fn depth_zero_is_black() {
    assert_eq!(radiance_start(0), RadianceStart::Black);
    assert_eq!(radiance_start(1), RadianceStart::TraceScene);
    assert_eq!(radiance_start(u32::MAX), RadianceStart::TraceScene);
}

#[test]
fn shade_by_interaction() {
    assert_eq!(shade(5, Interaction::Escaped), Shade::Background);
    assert_eq!(shade(5, Interaction::Absorbed), Shade::Emitted);
    assert_eq!(shade(5, Interaction::Scattered), Shade::EmittedPlusScattered { next_depth: 4 });
    assert_eq!(shade(1, Interaction::Scattered), Shade::EmittedPlusScattered { next_depth: 0 });
}

#[test]
fn absorbing_scene_never_recurses() {
    for depth in 1..20u32 {
        assert_eq!(shade(depth, Interaction::Escaped), Shade::Background);
        assert_eq!(shade(depth, Interaction::Absorbed), Shade::Emitted);
    }
}

#[test]
fn scattering_path_ends_after_depth_bounces() {
    let mut depth = 3u32;
    let mut bounces = 0;
    while radiance_start(depth) == RadianceStart::TraceScene {
        match shade(depth, Interaction::Scattered) {
            Shade::EmittedPlusScattered { next_depth } => depth = next_depth,
            other => panic!("unexpected {:?}", other),
        }
        bounces += 1;
    }
    assert_eq!(bounces, 3);
}
