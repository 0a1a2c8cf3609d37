//! The persisted configuration document.
//!
//! The document has two sections: `main`, with an optional log-output
//! directory, and `render`, with a preferred GPU power mode. Absence of the
//! backing file is not an error: loading then yields the default document and
//! asks the caller to persist it. The host resolves the platform config
//! directory and reads the file; this module decides what the contents mean.

use vstd::prelude::*;

verus! {

/// Preferred GPU power mode for adapter selection.
#[derive(Clone, Copy, Debug, PartialEq, Eq)]
pub enum PowerPreference {
    /// No stated preference; the platform picks.
    NoPreference,
    /// Prefer a low-power (integrated) adapter.
    LowPower,
    /// Prefer a high-performance (discrete) adapter.
    HighPerformance,
}

/// The `main` section: an optional log-output directory path.
#[derive(Clone, Debug, PartialEq, Eq)]
pub struct Main {
    pub log_directory: Option<String>,
}

/// The `render` section: the preferred GPU power mode.
#[derive(Clone, Copy, Debug, PartialEq, Eq)]
pub struct Render {
    pub preferred_gpu: PowerPreference,
}

/// The whole configuration document.
#[derive(Clone, Debug, PartialEq, Eq)]
pub struct Root {
    pub main: Main,
    pub render: Render,
}

/// Mathematical model of a configuration document: the path as a sequence of
/// characters, the power mode as itself.
pub ghost struct RootView {
    pub log_directory: Option<Seq<char>>,
    pub preferred_gpu: PowerPreference,
}

impl View for Root {
    type V = RootView;

    open spec fn view(&self) -> RootView {
        RootView {
            log_directory: match self.main.log_directory {
                Some(p) => Some(p@),
                None => None,
            },
            preferred_gpu: self.render.preferred_gpu,
        }
    }
}

/// The model of the default document: no log directory, no power preference.
pub open spec fn default_view() -> RootView {
    RootView { log_directory: None, preferred_gpu: PowerPreference::NoPreference }
}

/// Why a configuration could not be loaded or persisted.
///
/// `DirUnavailable` and `Io` are produced by the host when the platform
/// cannot resolve the config directory or the file cannot be read or
/// written; `Parse` is produced here when the file's contents are not a
/// well-formed document.
#[derive(Clone, Copy, Debug, PartialEq, Eq)]
pub enum ConfigError {
    DirUnavailable,
    Io,
    Parse,
}

/// What loading produced: the document, and whether it was freshly created
/// from the defaults (and so must still be persisted).
#[derive(Clone, Debug, PartialEq, Eq)]
pub struct LoadOutcome {
    pub config: Root,
    pub created_default: bool,
}

/// Decides what the config file's contents mean: an absent file yields the
/// default document, to be persisted; present contents are parsed, and
/// contents that do not parse are a `Parse` error.
pub fn load(contents: Option<&str>) -> (r: Result<LoadOutcome, ConfigError>)
    ensures
        match contents {
            None => (match r {
                Ok(o) => o.config@ == default_view() && o.created_default,
                Err(_) => false,
            }),
            Some(s) => match crate::codec::spec_deserialize(s@) {
                Some(v) => (match r {
                    Ok(o) => o.config@ == v && !o.created_default,
                    Err(_) => false,
                }),
                None => r == Err::<LoadOutcome, ConfigError>(ConfigError::Parse),
            },
        },
{
    match contents {
        None => Ok(LoadOutcome { config: Root::default(), created_default: true }),
        Some(s) => match crate::codec::deserialize(s) {
            Some(c) => Ok(LoadOutcome { config: c, created_default: false }),
            None => Err(ConfigError::Parse),
        },
    }
}

/// Default-on-missing: a load that found no file yields the default document
/// (pinned by `load`'s contract), and a later load of the text persisted for
/// that default yields an equal document.
pub proof fn lemma_default_on_missing()
    ensures
        crate::codec::spec_deserialize(crate::codec::spec_serialize(default_view())) == Some(
            default_view(),
        ),
{
    crate::codec::lemma_round_trip(default_view());
}

impl Default for PowerPreference {
    fn default() -> (r: PowerPreference)
        ensures
            r == PowerPreference::NoPreference,
    {
        PowerPreference::NoPreference
    }
}

impl Default for Main {
    fn default() -> (r: Main)
        ensures
            r.log_directory is None,
    {
        Main { log_directory: None }
    }
}

impl Default for Render {
    fn default() -> (r: Render)
        ensures
            r.preferred_gpu == PowerPreference::NoPreference,
    {
        Render { preferred_gpu: PowerPreference::NoPreference }
    }
}

impl Default for Root {
    fn default() -> (r: Root)
        ensures
            r@ == default_view(),
    {
        Root { main: Main::default(), render: Render::default() }
    }
}

} // verus!
