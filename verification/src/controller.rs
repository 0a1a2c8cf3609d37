//! The event-loop-facing lifecycle state machine.
//!
//! The host's event loop feeds window-system events in; each step decides
//! the next state and tells the host what platform action to perform. The
//! surface is built lazily on the first resume signal and exactly once; a
//! close request ends dispatch for good.

use vstd::prelude::*;

use crate::surface::AppSurface;

verus! {

/// Which GPU backends the process targets, fixed at construction.
#[derive(Clone, Copy, Debug, PartialEq, Eq)]
pub enum BackendSet {
    /// The platform's primary backends.
    Primary,
    /// Every backend the build supports.
    All,
}

/// The process-lifetime graphics instance: immutable after construction.
#[derive(Clone, Copy, Debug, PartialEq, Eq)]
pub struct GraphicsInstance {
    pub backends: BackendSet,
}

impl GraphicsInstance {
    /// Selects the primary backend set for the host platform.
    pub fn new() -> (g: GraphicsInstance)
        ensures
            g.backends == BackendSet::Primary,
    {
        GraphicsInstance { backends: BackendSet::Primary }
    }
}

/// A window-system event, as the host hands it over.
#[derive(Clone, Copy, Debug, PartialEq, Eq)]
pub enum Event {
    /// The application was (re)activated.
    Resumed,
    /// The window is now this many pixels wide and high.
    Resized(u32, u32),
    /// The user asked to close the window.
    CloseRequested,
    /// The platform asked for a frame.
    RedrawRequested,
    /// Anything else; always ignored.
    Other,
}

/// What the host must do in response to an event.
#[derive(Clone, Copy, Debug, PartialEq, Eq)]
pub enum Action {
    /// Create the window and negotiate the surface, then hand the result to
    /// `attach_surface`.
    BuildSurface,
    /// Re-apply the (just updated) surface configuration to the live
    /// surface, before the next frame is acquired.
    Reconfigure(u32, u32),
    /// Run one frame: acquire, clear, submit, present.
    RenderFrame,
    /// Stop the event loop; no further events will be handled.
    ExitLoop,
    /// Nothing.
    Ignore,
}

/// The event-loop state: the instance, the surface once built, and whether
/// a close was requested.
#[derive(Clone, Copy, Debug, PartialEq, Eq)]
pub struct App {
    pub instance: GraphicsInstance,
    pub surface: Option<AppSurface>,
    pub exited: bool,
}

/// The transition relation: from a state and an event to the next state and
/// the host's action. After a close request every event is ignored; before
/// the surface exists only a resume signal does anything.
pub open spec fn spec_step(s: App, e: Event) -> (App, Action) {
    if s.exited {
        (s, Action::Ignore)
    } else {
        match e {
            Event::Resumed => match s.surface {
                None => (s, Action::BuildSurface),
                Some(_) => (s, Action::Ignore),
            },
            Event::Resized(w, h) => match s.surface {
                Some(sf) => (
                    App {
                        instance: s.instance,
                        surface: Some(
                            AppSurface {
                                config: crate::surface::SurfaceConfig {
                                    width: w,
                                    height: h,
                                    ..sf.config
                                },
                            },
                        ),
                        exited: false,
                    },
                    Action::Reconfigure(w, h),
                ),
                None => (s, Action::Ignore),
            },
            Event::CloseRequested => (
                App { instance: s.instance, surface: s.surface, exited: true },
                Action::ExitLoop,
            ),
            Event::RedrawRequested => match s.surface {
                Some(_) => (s, Action::RenderFrame),
                None => (s, Action::Ignore),
            },
            Event::Other => (s, Action::Ignore),
        }
    }
}

/// The state after a whole sequence of events.
pub open spec fn spec_run(s: App, es: Seq<Event>) -> App
    decreases es.len(),
{
    if es.len() == 0 {
        s
    } else {
        spec_run(spec_step(s, es[0]).0, es.skip(1))
    }
}

impl App {
    /// A fresh controller: primary backends, no surface yet, not exited.
    pub fn new() -> (a: App)
        ensures
            a == (App {
                instance: GraphicsInstance { backends: BackendSet::Primary },
                surface: None::<AppSurface>,
                exited: false,
            }),
    {
        App { instance: GraphicsInstance::new(), surface: None, exited: false }
    }

    /// Installs the surface the host built in response to `BuildSurface`.
    pub fn attach_surface(&mut self, s: AppSurface)
        requires
            !old(self).exited,
            old(self).surface is None,
        ensures
            *final(self) == (App {
                instance: old(self).instance,
                surface: Some(s),
                exited: false,
            }),
    {
        self.surface = Some(s);
    }

    /// Feeds one event through the transition relation.
    pub fn handle(&mut self, e: Event) -> (a: Action)
        ensures
            *final(self) == spec_step(*old(self), e).0,
            a == spec_step(*old(self), e).1,
    {
        if self.exited {
            return Action::Ignore;
        }
        match e {
            Event::Resumed => {
                if self.surface.is_none() {
                    Action::BuildSurface
                } else {
                    Action::Ignore
                }
            },
            Event::Resized(w, h) => {
                match &mut self.surface {
                    Some(sf) => {
                        sf.reconfigure(w, h);
                        Action::Reconfigure(w, h)
                    },
                    None => Action::Ignore,
                }
            },
            Event::CloseRequested => {
                self.exited = true;
                Action::ExitLoop
            },
            Event::RedrawRequested => {
                if self.surface.is_some() {
                    Action::RenderFrame
                } else {
                    Action::Ignore
                }
            },
            Event::Other => Action::Ignore,
        }
    }
}

/// Idempotent resume: from a fresh state a resume signal asks for exactly
/// one surface construction and changes nothing else; once a surface is
/// attached, a further resume signal is a no-op.
pub proof fn lemma_resume_idempotent(s0: App, built: AppSurface)
    requires
        !s0.exited,
        s0.surface is None,
    ensures
        spec_step(s0, Event::Resumed) == (s0, Action::BuildSurface),
        ({
            let s1 = App { instance: s0.instance, surface: Some(built), exited: false };
            spec_step(s1, Event::Resumed) == (s1, Action::Ignore)
        }),
{
}

/// An exited controller is inert: no event changes it, and every event is
/// ignored.
pub proof fn lemma_exited_inert(s: App, es: Seq<Event>)
    requires
        s.exited,
    ensures
        spec_run(s, es) == s,
        forall|e: Event| spec_step(s, e) == (s, Action::Ignore),
    decreases es.len(),
{
    if es.len() > 0 {
        lemma_exited_inert(s, es.skip(1));
    }
}

/// Exit finality: a close request sets the exited state, and afterwards no
/// sequence of further events changes the controller or makes it act.
pub proof fn lemma_exit_finality(s: App, es: Seq<Event>)
    ensures
        spec_step(s, Event::CloseRequested).0.exited,
        ({
            let c = spec_step(s, Event::CloseRequested).0;
            spec_run(c, es) == c && (forall|e: Event| spec_step(c, e) == (c, Action::Ignore))
        }),
{
    let c = spec_step(s, Event::CloseRequested).0;
    lemma_exited_inert(c, es);
}

/// Resize-before-present ordering: after any run of resize events, the
/// stored configuration carries the last resize's width and height, and a
/// redraw request at that point runs a frame against exactly that
/// configuration.
pub proof fn lemma_resize_before_present(s: App, es: Seq<Event>, w: u32, h: u32)
    requires
        !s.exited,
        s.surface is Some,
        es.len() > 0,
        forall|i: int| 0 <= i < es.len() ==> es[i] is Resized,
        es[es.len() - 1] == Event::Resized(w, h),
    ensures
        ({
            let f = spec_run(s, es);
            &&& !f.exited
            &&& f.surface is Some
            &&& f.surface->0.config.width == w
            &&& f.surface->0.config.height == h
            &&& spec_step(f, Event::RedrawRequested) == (f, Action::RenderFrame)
        }),
    decreases es.len(),
{
    let s1 = spec_step(s, es[0]).0;
    assert(es[0] is Resized);
    assert(!s1.exited && s1.surface is Some);
    if es.len() == 1 {
        assert(spec_run(s1, es.skip(1)) == s1);
    } else {
        assert(forall|i: int|
            0 <= i < es.skip(1).len() ==> es.skip(1)[i] == es[i + 1] && es.skip(1)[i] is Resized);
        assert(es.skip(1)[es.skip(1).len() - 1] == Event::Resized(w, h));
        lemma_resize_before_present(s1, es.skip(1), w, h);
    }
}

} // verus!
