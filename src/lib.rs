//! Embeds a native WebView control inside a winit window.
//!
//! The logic that decides what the native delegate does lives here and is
//! verified: the delegate's class description and its once-per-handler-pair
//! registration, the table that owns handler state handed to the native
//! runtime, the mapping of native callbacks onto events, and the
//! answering of intercepted in-app requests.

use vstd::prelude::*;

mod events;
pub use events::{
    deliver, event_for, Event, EventHandler, NativeCallback, NavigationEvent, PlatformEvent, PlatformNavigationEvent,
};

pub mod platform;
pub mod platform_impl;
pub mod ownership;
pub mod registry;
pub mod request;

verus! {

/// A builder for the WebView component.
pub struct WebViewBuilder<T: request::RequestHandler> {
    pub(crate) request_handler: T,
    pub(crate) init_scripts: Vec<String>,
    pub(crate) platform: platform_impl::PlatformWebViewBuilder,
}

impl<T: request::RequestHandler> WebViewBuilder<T> {
    /// The scripts injected before every page load, in order.
    pub closed spec fn scripts(&self) -> Seq<Seq<char>> {
        self.init_scripts@.map_values(|s: String| s@)
    }

    /// The request handler that serves the in-app scheme.
    pub closed spec fn handler(&self) -> T {
        self.request_handler
    }

    /// Whether native developer tooling is enabled.
    pub closed spec fn debug(&self) -> bool {
        self.platform.enable_debug
    }
}

impl WebViewBuilder<request::NullRequestHandler> {
    /// Create a new WebViewBuilder
    pub fn new() -> (b: Self)
        ensures
            b.scripts() == Seq::<Seq<char>>::empty(),
            !b.debug(),
    {
        let b = WebViewBuilder {
            init_scripts: Vec::new(),
            platform: platform_impl::PlatformWebViewBuilder::new(),
            request_handler: request::NullRequestHandler,
        };
        assert(b.scripts() =~= Seq::<Seq<char>>::empty());
        b
    }
}

impl<T: request::RequestHandler> WebViewBuilder<T> {
    /// A builder whose in-app scheme is served by `request_handler`.
    pub fn with_request_handler(request_handler: T) -> (b: Self)
        ensures
            b.handler() == request_handler,
            b.scripts() == Seq::<Seq<char>>::empty(),
            !b.debug(),
    {
        let b = WebViewBuilder {
            init_scripts: Vec::new(),
            platform: platform_impl::PlatformWebViewBuilder::new(),
            request_handler,
        };
        assert(b.scripts() =~= Seq::<Seq<char>>::empty());
        b
    }

    /// Add a script to be injected into the page when it loads
    pub fn with_init_script(self, script: &str) -> (b: Self)
        ensures
            b.scripts() == self.scripts().push(script@),
            b.handler() == self.handler(),
            b.debug() == self.debug(),
    {
        let mut b = self;
        b.init_scripts.push(script.to_owned());
        assert(b.scripts() =~= self.scripts().push(script@));
        b
    }

    /// Takes the builder apart: the request handler, the scripts in order of
    /// injection, and the platform settings.
    pub fn into_parts(self) -> (parts: (T, Vec<String>, platform_impl::PlatformWebViewBuilder))
        ensures
            parts.0 == self.handler(),
            parts.1@.map_values(|s: String| s@) == self.scripts(),
            parts.2.enable_debug == self.debug(),
    {
        (self.request_handler, self.init_scripts, self.platform)
    }
}

/// A target for navigation
pub enum NavigationTarget<'a> {
    Url(&'a str),
    Html(&'a str),
}

/// The scheme whose loads the request handler serves.
pub open spec fn in_app_scheme() -> Seq<char> {
    "winit"@
}

/// The base URL of markup loaded directly: the in-app scheme, so that its
/// relative resources are served by the request handler.
pub open spec fn in_app_base_url() -> Seq<char> {
    "winit://"@
}

/// The name of the scheme whose loads the request handler serves.
pub fn in_app_scheme_name() -> (r: &'static str)
    ensures
        r@ == in_app_scheme(),
{
    proof { reveal_strlit("winit"); }
    "winit"
}

/// What the native view is asked to load.
#[derive(Debug)]
pub enum LoadRequest {
    /// Load the page at this URL.
    Url(String),
    /// Load this markup, resolving relative references against `base_url`.
    Html { html: String, base_url: String },
}

/// The load that navigating to `target` asks of the native view.
pub open spec fn is_load_of(load: LoadRequest, target: NavigationTarget) -> bool {
    match target {
        NavigationTarget::Url(url) => load matches LoadRequest::Url(u) && u@ == url@,
        NavigationTarget::Html(html) => load matches LoadRequest::Html { html: h, base_url: b }
            && h@ == html@ && b@ == in_app_base_url(),
    }
}

impl<'a> NavigationTarget<'a> {
    /// The load that navigating to this target asks of the native view: a URL
    /// as it is, or markup under the in-app base URL.
    pub fn load_request(self) -> (load: LoadRequest)
        ensures
            is_load_of(load, self),
    {
        match self {
            NavigationTarget::Url(url) => LoadRequest::Url(url.to_owned()),
            NavigationTarget::Html(html) => {
                proof { reveal_strlit("winit://"); }
                LoadRequest::Html { html: html.to_owned(), base_url: "winit://".to_owned() }
            },
        }
    }
}

/// The title reported for a native title: an empty or missing one is absent,
/// any other is kept as it is.
pub open spec fn title_of(native: Option<String>) -> Option<Seq<char>> {
    match native {
        Some(t) => if t@.len() == 0 {
            None
        } else {
            Some(t@)
        },
        None => None,
    }
}

/// The current document title, from the native view's title.
pub fn normalize_title(native: Option<String>) -> (title: Option<String>)
    ensures
        title matches Some(t) ==> title_of(native) == Some(t@),
        title is None <==> title_of(native) is None,
{
    match native {
        Some(t) => if t.as_str().is_empty() {
            None
        } else {
            Some(t)
        },
        None => None,
    }
}

} // verus!
