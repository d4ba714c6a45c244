use vstd::prelude::*;

pub use crate::platform_impl::PlatformEvent;
pub use crate::platform_impl::PlatformNavigationEvent;

verus! {

/// An event emitted by the WebView component.
#[derive(Debug, Clone)]
pub enum Event {
    /// Navigation status has changed.
    Navigation(NavigationEvent),
    /// A script has sent a message to the host webview.
    Message(String),
    /// A platform-specific event has occurred.
    Platform(PlatformEvent),
}

/// Navigation status has changed.
#[derive(Debug, Clone)]
pub enum NavigationEvent {
    /// Triggered when navigation is initiated
    Start,
    /// Triggered when navigation receives content and begins loading it
    Commit,
    /// Triggered when navigation is complete
    Finish,
    /// Some other platform-specific navigation event
    Platform(PlatformNavigationEvent),
}

/// A recipient for WebView events.
pub trait EventHandler: Sized {
    /// Whether the handler, as it is now, may be handed `event`.
    spec fn ready_for(&self, event: Event) -> bool;

    fn handle_event(&mut self, event: Event)
        requires
            old(self).ready_for(event),
    ;
}

} // verus!

verus! {

/// Hands each event to a closure, synchronously, on the delivering thread.
impl<F: FnMut(Event)> EventHandler for F {
    open spec fn ready_for(&self, event: Event) -> bool {
        call_requires(*self, (event,))
    }

    fn handle_event(&mut self, event: Event) {
        (self)(event)
    }
}

#[verifier::external_type_specification]
#[verifier::external_body]
#[verifier::reject_recursive_types(T)]
pub struct ExSender<T>(std::sync::mpsc::Sender<T>);

/// Relies on std's `Sender::send`: it queues the value unless the receiver is
/// gone. Whether it was queued depends on the receiver, so nothing is promised.
#[verifier::external_body]
fn send_on_channel(sender: &std::sync::mpsc::Sender<Event>, event: Event) -> (queued: bool) {
    sender.send(event).is_ok()
}

/// Queues each event on a channel; an event whose receiver is gone is dropped.
impl EventHandler for std::sync::mpsc::Sender<Event> {
    open spec fn ready_for(&self, event: Event) -> bool {
        true
    }

    fn handle_event(&mut self, event: Event) {
        let _ = send_on_channel(self, event);
    }
}

#[verifier::external_type_specification]
#[verifier::external_body]
#[verifier::reject_recursive_types(T)]
pub struct ExEventLoopProxy<T: 'static>(winit::event_loop::EventLoopProxy<T>);

/// Relies on winit's `EventLoopProxy::send_event`: it wakes the event loop with
/// the value unless the loop no longer exists. Whether the loop still exists is
/// not known here, so nothing is promised.
#[verifier::external_body]
fn send_to_event_loop<T>(proxy: &winit::event_loop::EventLoopProxy<T>, event: T) -> (sent: bool) {
    proxy.send_event(event).is_ok()
}

/// Wraps each event in the loop's own user-event type and posts it to a winit
/// event loop; an event posted to a loop that is gone is dropped.
impl<T: From<Event>> EventHandler for winit::event_loop::EventLoopProxy<T> {
    open spec fn ready_for(&self, event: Event) -> bool {
        true
    }

    fn handle_event(&mut self, event: Event) {
        let wrapped = T::from(event);
        let _ = send_to_event_loop(self, wrapped);
    }
}

} // verus!

verus! {

/// A notification that the native runtime makes on the delegate and that
/// concerns the event handler.
#[derive(Debug, Clone)]
pub enum NativeCallback {
    /// `webView:didStartProvisionalNavigation:`
    DidStartProvisionalNavigation,
    /// `webView:didReceiveServerRedirectForProvisionalNavigation:`
    DidReceiveServerRedirect,
    /// `webView:didCommitNavigation:`
    DidCommitNavigation,
    /// `webView:didFinishNavigation:`
    DidFinishNavigation,
    /// `userContentController:didReceiveScriptMessage:`, with the message body
    /// when that body is a string.
    DidReceiveScriptMessage(Option<String>),
}

/// The event that a native callback becomes, if any: a script message whose
/// body is not a string is not reported.
pub open spec fn event_of(callback: NativeCallback) -> Option<Event> {
    match callback {
        NativeCallback::DidStartProvisionalNavigation => Some(Event::Navigation(NavigationEvent::Start)),
        NativeCallback::DidReceiveServerRedirect => Some(
            Event::Navigation(NavigationEvent::Platform(PlatformNavigationEvent::Redirect)),
        ),
        NativeCallback::DidCommitNavigation => Some(Event::Navigation(NavigationEvent::Commit)),
        NativeCallback::DidFinishNavigation => Some(Event::Navigation(NavigationEvent::Finish)),
        NativeCallback::DidReceiveScriptMessage(body) => match body {
            Some(text) => Some(Event::Message(text)),
            None => None,
        },
    }
}

/// The events that a run of native callbacks becomes, in the same order.
pub open spec fn events_of(callbacks: Seq<NativeCallback>) -> Seq<Event>
    decreases callbacks.len(),
{
    if callbacks.len() == 0 {
        Seq::empty()
    } else {
        let rest = events_of(callbacks.drop_last());
        match event_of(callbacks.last()) {
            Some(e) => rest.push(e),
            None => rest,
        }
    }
}

/// The event that one native callback reports, if any.
pub fn event_for(callback: NativeCallback) -> (r: Option<Event>)
    ensures
        r == event_of(callback),
{
    match callback {
        NativeCallback::DidStartProvisionalNavigation => Some(Event::Navigation(NavigationEvent::Start)),
        NativeCallback::DidReceiveServerRedirect => Some(
            Event::Navigation(NavigationEvent::Platform(PlatformNavigationEvent::Redirect)),
        ),
        NativeCallback::DidCommitNavigation => Some(Event::Navigation(NavigationEvent::Commit)),
        NativeCallback::DidFinishNavigation => Some(Event::Navigation(NavigationEvent::Finish)),
        NativeCallback::DidReceiveScriptMessage(body) => match body {
            Some(text) => Some(Event::Message(text)),
            None => None,
        },
    }
}

/// Hands the event that `callback` reports, if any, to `handler`, and says
/// whether there was one.
pub fn deliver<E: EventHandler>(handler: &mut E, callback: NativeCallback) -> (delivered: bool)
    requires
        forall|e: Event| old(handler).ready_for(e),
    ensures
        delivered == event_of(callback).is_some(),
        !delivered ==> *final(handler) == *old(handler),
{
    match event_for(callback) {
        Some(event) => {
            handler.handle_event(event);
            true
        },
        None => false,
    }
}

/// Callbacks that arrive one after the other give their events one after the
/// other: mapping a run split in two gives the events of the first part,
/// then those of the second.
pub proof fn lemma_events_of_concat(a: Seq<NativeCallback>, b: Seq<NativeCallback>)
    ensures
        events_of(a + b) == events_of(a) + events_of(b),
    decreases b.len(),
{
    if b.len() == 0 {
        assert(a + b =~= a);
        assert(events_of(b) =~= Seq::<Event>::empty());
        assert(events_of(a) + events_of(b) =~= events_of(a));
    } else {
        let b0 = b.drop_last();
        lemma_events_of_concat(a, b0);
        assert((a + b).drop_last() =~= a + b0);
        assert((a + b).last() == b.last());
        match event_of(b.last()) {
            Some(e) => {
                assert(events_of(a) + events_of(b0).push(e) =~= (events_of(a) + events_of(b0)).push(e));
            },
            None => {},
        }
    }
}

/// The native calls of one navigation, with `redirects` server redirects
/// before the commit.
pub open spec fn navigation_callbacks(redirects: nat) -> Seq<NativeCallback> {
    seq![NativeCallback::DidStartProvisionalNavigation]
        + Seq::new(redirects, |i: int| NativeCallback::DidReceiveServerRedirect)
        + seq![NativeCallback::DidCommitNavigation, NativeCallback::DidFinishNavigation]
}

/// One navigation is reported as Start, then any redirects, then Commit, then
/// Finish: each lifecycle event once, in that order.
pub proof fn lemma_navigation_order(redirects: nat)
    ensures
        events_of(navigation_callbacks(redirects)) == seq![Event::Navigation(NavigationEvent::Start)]
            + Seq::new(
            redirects,
            |i: int| Event::Navigation(NavigationEvent::Platform(PlatformNavigationEvent::Redirect)),
        ) + seq![Event::Navigation(NavigationEvent::Commit), Event::Navigation(NavigationEvent::Finish)],
    decreases redirects,
{
    let start = seq![NativeCallback::DidStartProvisionalNavigation];
    let mid = Seq::new(redirects, |i: int| NativeCallback::DidReceiveServerRedirect);
    let tail = seq![NativeCallback::DidCommitNavigation, NativeCallback::DidFinishNavigation];
    lemma_events_of_concat(start + mid, tail);
    lemma_events_of_concat(start, mid);
    lemma_redirect_events(redirects);
    assert(events_of(start) =~= seq![Event::Navigation(NavigationEvent::Start)]) by {
        assert(start.drop_last() =~= Seq::<NativeCallback>::empty());
        reveal_with_fuel(events_of, 2);
    }
    assert(events_of(tail) =~= seq![
        Event::Navigation(NavigationEvent::Commit),
        Event::Navigation(NavigationEvent::Finish),
    ]) by {
        assert(tail.drop_last() =~= seq![NativeCallback::DidCommitNavigation]);
        assert(tail.drop_last().drop_last() =~= Seq::<NativeCallback>::empty());
        reveal_with_fuel(events_of, 3);
    }
}

proof fn lemma_redirect_events(n: nat)
    ensures
        events_of(Seq::new(n, |i: int| NativeCallback::DidReceiveServerRedirect)) =~= Seq::new(
            n,
            |i: int| Event::Navigation(NavigationEvent::Platform(PlatformNavigationEvent::Redirect)),
        ),
    decreases n,
{
    if n > 0 {
        let s = Seq::new(n, |i: int| NativeCallback::DidReceiveServerRedirect);
        assert(s.drop_last() =~= Seq::new((n - 1) as nat, |i: int| NativeCallback::DidReceiveServerRedirect));
        lemma_redirect_events((n - 1) as nat);
    }
}

} // verus!
