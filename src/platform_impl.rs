use vstd::prelude::*;

verus! {

/// Navigation events that only this platform reports.
#[derive(Debug, Clone, Copy, PartialEq, Eq)]
pub enum PlatformNavigationEvent {
    /// Triggered when a redirect has taken place
    Redirect,
}

/// Events that only this platform reports. There are none: no value of this
/// type can be made.
#[derive(Debug, Clone, Copy, PartialEq, Eq)]
pub struct PlatformEvent(core::convert::Infallible);

/// Platform-specific settings of a WebView under construction.
#[derive(Debug)]
pub struct PlatformWebViewBuilder {
    pub enable_debug: bool,
}

impl PlatformWebViewBuilder {
    /// Settings with developer tooling off.
    pub fn new() -> (b: Self)
        ensures
            !b.enable_debug,
    {
        PlatformWebViewBuilder { enable_debug: false }
    }
}

/// A request of the in-app scheme, as the native runtime gives it.
pub struct PlatformRequest<'a> {
    pub uri: &'a str,
}

impl<'a> PlatformRequest<'a> {
    /// The path of the requested URL.
    pub fn as_uri(&self) -> (r: &str)
        ensures
            r@ == self.uri@,
    {
        self.uri
    }
}

} // verus!
