use rtir::integrator::{shade, traces, Shade, Surface};

#[test]
fn zero_depth_is_black() {
    assert!(!traces(0));
    assert_eq!(shade(0, Surface::Missed), Shade::Black);
    assert_eq!(shade(0, Surface::Absorbed), Shade::Black);
    assert_eq!(shade(0, Surface::Scattered), Shade::Black);
    assert_eq!(shade(-4, Surface::Scattered), Shade::Black);
}

#[test]
fn traced_ray_terms() {
    assert!(traces(1));
    assert_eq!(shade(5, Surface::Missed), Shade::Background);
    assert_eq!(shade(5, Surface::Absorbed), Shade::Emitted);
    assert_eq!(shade(5, Surface::Scattered), Shade::EmittedPlusBounce(4));
    assert_eq!(shade(1, Surface::Scattered), Shade::EmittedPlusBounce(0));
}

#[test]
fn bounce_budget_runs_out() {
    let mut depth = 20;
    let mut bounces = 0;
    while let Shade::EmittedPlusBounce(next) = shade(depth, Surface::Scattered) {
        depth = next;
        bounces += 1;
    }
    assert_eq!(bounces, 20);
    assert_eq!(depth, 0);
}
