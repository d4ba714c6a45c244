//! Settings that only the macOS WebView has.

use vstd::prelude::*;

use crate::request::RequestHandler;
use crate::WebViewBuilder;

verus! {

/// Settings of a WebView under construction that only macOS has.
pub trait WebViewBuilderExtMacOS: Sized {
    /// Enables or disables the native developer tooling.
    fn with_debug(self, enable: bool) -> Self;
}

impl<T: RequestHandler> WebViewBuilderExtMacOS for WebViewBuilder<T> {
    fn with_debug(self, enable: bool) -> (b: Self)
        ensures
            b.debug() == enable,
            b.scripts() == self.scripts(),
            b.handler() == self.handler(),
    {
        let mut b = self;
        b.platform.enable_debug = enable;
        b
    }
}

} // verus!
