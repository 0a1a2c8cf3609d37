use laplace::controller::{Action, App, BackendSet, Event, GraphicsInstance};
use laplace::surface::{
    choose_format, AppSurface, ClearColor, GraphicsError, PresentMode, SurfaceCaps, TextureFormat,
};

fn fmt(code: u32, srgb: bool) -> TextureFormat {
    TextureFormat { code, srgb }
}

fn caps() -> SurfaceCaps {
    SurfaceCaps {
        formats: vec![fmt(0, false), fmt(1, true), fmt(2, true)],
        alpha_modes: vec![7, 8],
    }
}

fn built_surface() -> AppSurface {
    AppSurface::new(&caps()).expect("capabilities are non-empty")
}

#[test]
fn choose_format_prefers_first_srgb() {
    let formats = vec![fmt(0, false), fmt(1, true), fmt(2, true)];
    assert_eq!(choose_format(&formats), Some(fmt(1, true)));
}

#[test]
fn choose_format_falls_back_to_first() {
    let formats = vec![fmt(4, false), fmt(5, false)];
    assert_eq!(choose_format(&formats), Some(fmt(4, false)));
}

#[test]
fn choose_format_empty_list() {
    assert_eq!(choose_format(&Vec::new()), None);
}

#[test]
fn surface_new_builds_fixed_configuration() {
    let s = built_surface();
    assert_eq!(s.config.format, fmt(1, true));
    assert_eq!(s.config.width, 800);
    assert_eq!(s.config.height, 600);
    assert_eq!(s.config.present_mode, PresentMode::Fifo);
    assert_eq!(s.config.alpha_mode, 7);
    assert_eq!(s.config.frame_latency, 2);
}

#[test]
fn surface_new_rejects_empty_capabilities() {
    let no_formats = SurfaceCaps { formats: Vec::new(), alpha_modes: vec![7] };
    assert_eq!(AppSurface::new(&no_formats), Err(GraphicsError::EmptyCapabilities));
    let no_alpha = SurfaceCaps { formats: vec![fmt(0, true)], alpha_modes: Vec::new() };
    assert_eq!(AppSurface::new(&no_alpha), Err(GraphicsError::EmptyCapabilities));
}

#[test]
fn reconfigure_updates_only_the_size() {
    let mut s = built_surface();
    let before = s.config;
    s.reconfigure(1024, 768);
    assert_eq!(s.config.width, 1024);
    assert_eq!(s.config.height, 768);
    assert_eq!(s.config.format, before.format);
    assert_eq!(s.config.present_mode, before.present_mode);
    assert_eq!(s.config.alpha_mode, before.alpha_mode);
    assert_eq!(s.config.frame_latency, before.frame_latency);
}

#[test]
fn render_frame_clears_to_the_fixed_color() {
    let s = built_surface();
    let plan = s.render_frame().expect("non-zero size");
    assert_eq!(
        plan.clear,
        ClearColor { r_tenths: 1, g_tenths: 2, b_tenths: 3, a_tenths: 10 }
    );
    assert!(plan.store);
    assert!(plan.request_redraw);
    // the plan does not depend on the frame count or the surface size
    let mut resized = s;
    resized.reconfigure(33, 44);
    let again = resized.render_frame().expect("still non-zero");
    assert_eq!(again, plan);
}

#[test]
fn render_frame_reports_zero_size() {
    let mut s = built_surface();
    s.reconfigure(0, 600);
    assert_eq!(s.render_frame(), Err(GraphicsError::SurfaceAcquire));
}

#[test]
fn app_new_starts_uninitialized() {
    let a = App::new();
    assert_eq!(a.instance, GraphicsInstance { backends: BackendSet::Primary });
    assert!(a.surface.is_none());
    assert!(!a.exited);
}

#[test]
fn resume_builds_exactly_once() {
    let mut a = App::new();
    assert_eq!(a.handle(Event::Resumed), Action::BuildSurface);
    a.attach_surface(built_surface());
    // a second resume with no intervening close is a no-op
    let before = a;
    assert_eq!(a.handle(Event::Resumed), Action::Ignore);
    assert_eq!(a, before);
}

#[test]
fn resize_before_present_uses_last_size() {
    let mut a = App::new();
    assert_eq!(a.handle(Event::Resumed), Action::BuildSurface);
    a.attach_surface(built_surface());
    assert_eq!(a.handle(Event::Resized(300, 200)), Action::Reconfigure(300, 200));
    assert_eq!(a.handle(Event::Resized(640, 480)), Action::Reconfigure(640, 480));
    assert_eq!(a.handle(Event::RedrawRequested), Action::RenderFrame);
    let s = a.surface.expect("surface exists");
    assert_eq!(s.config.width, 640);
    assert_eq!(s.config.height, 480);
}

#[test]
fn close_is_final() {
    let mut a = App::new();
    assert_eq!(a.handle(Event::Resumed), Action::BuildSurface);
    a.attach_surface(built_surface());
    assert_eq!(a.handle(Event::CloseRequested), Action::ExitLoop);
    assert!(a.exited);
    let closed = a;
    // injected events after the close are ignored and change nothing
    assert_eq!(a.handle(Event::Resized(10, 10)), Action::Ignore);
    assert_eq!(a.handle(Event::RedrawRequested), Action::Ignore);
    assert_eq!(a.handle(Event::Resumed), Action::Ignore);
    assert_eq!(a, closed);
}

#[test]
fn events_before_first_resume_are_ignored() {
    let mut a = App::new();
    assert_eq!(a.handle(Event::Resized(100, 100)), Action::Ignore);
    assert_eq!(a.handle(Event::RedrawRequested), Action::Ignore);
    assert_eq!(a.handle(Event::Other), Action::Ignore);
    assert!(a.surface.is_none());
    assert!(!a.exited);
}
