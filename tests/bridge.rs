use std::cell::Cell;
use std::rc::Rc;
use std::sync::mpsc;

use winit_webview::ownership::HandleTable;
use winit_webview::registry::{ClassDescriptor, ClassRegistry, DelegateMethod, Protocol, StorageSlot};
use winit_webview::request::{answer_task, NullRequestHandler, PlatformRequest, RequestHandler, Response, TaskAction};
use winit_webview::{
    deliver, event_for, normalize_title, Event, EventHandler, LoadRequest, NativeCallback, NavigationEvent,
    NavigationTarget, PlatformNavigationEvent, WebViewBuilder,
};
use winit_webview::platform::macos::WebViewBuilderExtMacOS;

fn nav(e: &Option<Event>) -> Option<&'static str> {
    match e {
        Some(Event::Navigation(NavigationEvent::Start)) => Some("start"),
        Some(Event::Navigation(NavigationEvent::Commit)) => Some("commit"),
        Some(Event::Navigation(NavigationEvent::Finish)) => Some("finish"),
        Some(Event::Navigation(NavigationEvent::Platform(PlatformNavigationEvent::Redirect))) => Some("redirect"),
        _ => None,
    }
}

#[test]
fn registration_is_idempotent() {
    let mut reg = ClassRegistry::new();
    let first = reg.get_or_register("delegate<A, B>");
    for _ in 0..5 {
        assert_eq!(reg.get_or_register("delegate<A, B>"), first);
    }
    assert_eq!(reg.registrations(), 1);
    let other = reg.get_or_register("delegate<A, C>");
    assert_ne!(other, first);
    assert_eq!(reg.registrations(), 2);
    assert_eq!(reg.get_or_register("delegate<A, B>"), first);
    assert_eq!(reg.registrations(), 2);
    assert_eq!(reg.lookup("delegate<A, C>"), Some(other));
    assert_eq!(reg.lookup("delegate<X, Y>"), None);
}

#[test]
fn registration_order_does_not_matter() {
    let mut reg = ClassRegistry::new();
    for key in ["b", "a", "b", "c", "a", "c", "b"] {
        reg.get_or_register(key);
    }
    assert_eq!(reg.registrations(), 3);
    assert_eq!(reg.class(0).name, "b");
    assert_eq!(reg.class(1).name, "a");
    assert_eq!(reg.class(2).name, "c");
}

#[test]
fn delegate_class_description() {
    let d = ClassDescriptor::delegate("delegate<A, B>");
    assert_eq!(d.name, "delegate<A, B>");
    assert_eq!(d.superclass, "NSObject");
    assert_eq!(d.protocols, vec![Protocol::NavigationDelegate, Protocol::UrlSchemeHandler]);
    assert_eq!(d.slots, vec![StorageSlot::EventHandler, StorageSlot::RequestHandler]);
    assert_eq!(d.methods.len(), 9);
    assert_eq!(d.methods[0], DelegateMethod::InitWithHandlers);
    assert_eq!(d.methods[1], DelegateMethod::Dealloc);
    assert_eq!(DelegateMethod::StartUrlSchemeTask.selector(), "webView:startURLSchemeTask:");
    assert_eq!(DelegateMethod::DidFinishNavigation.selector(), "webView:didFinishNavigation:");
    assert_eq!(DelegateMethod::InitWithHandlers.selector(), "initWithHandler:requestHandler:");
    assert_eq!(Protocol::UrlSchemeHandler.name(), "WKURLSchemeHandler");
    assert_eq!(StorageSlot::RequestHandler.name(), "request_handler");
}

struct Counted(Rc<Cell<usize>>);

impl Drop for Counted {
    fn drop(&mut self) {
        self.0.set(self.0.get() + 1);
    }
}

#[test]
fn create_destroy_reclaims_each_once() {
    let drops = Rc::new(Cell::new(0));
    let mut table = HandleTable::new();
    for round in 0..3 {
        let keys: Vec<usize> = (0..4).map(|_| table.install(Counted(drops.clone()))).collect();
        for &k in &keys {
            let v = table.redeem(k);
            assert!(v.is_some());
            drop(v);
        }
        for &k in &keys {
            assert!(table.redeem(k).is_none());
        }
        assert_eq!(drops.get(), 4 * (round + 1));
    }
    assert_eq!(table.installed(), 12);
    assert_eq!(table.reclaimed(), 12);
    assert!(table.redeem(99).is_none());
}

#[test]
fn lent_state_comes_back() {
    let mut table = HandleTable::new();
    let k = table.install(7u32);
    let mut state = table.lend(k).unwrap();
    assert!(table.lend(k).is_none());
    assert!(table.redeem(k).is_none());
    state += 1;
    assert!(table.restore(k, state).is_none());
    let back = table.redeem(k).unwrap();
    assert_eq!(back, 8);
    assert_eq!(table.reclaimed(), 1);
    let refused = table.restore(k, back);
    assert!(refused.is_some());
}

#[test]
fn navigation_events_in_order() {
    let calls = vec![
        NativeCallback::DidStartProvisionalNavigation,
        NativeCallback::DidReceiveServerRedirect,
        NativeCallback::DidCommitNavigation,
        NativeCallback::DidFinishNavigation,
    ];
    let names: Vec<Option<&str>> = calls.into_iter().map(|c| nav(&event_for(c))).collect();
    assert_eq!(names, vec![Some("start"), Some("redirect"), Some("commit"), Some("finish")]);
}

#[test]
fn closure_sink_sees_start_commit_finish() {
    let seen = Rc::new(std::cell::RefCell::new(Vec::new()));
    let s2 = seen.clone();
    let mut sink = move |e: Event| s2.borrow_mut().push(nav(&Some(e)).unwrap_or("other"));
    assert!(deliver(&mut sink, NativeCallback::DidStartProvisionalNavigation));
    assert!(deliver(&mut sink, NativeCallback::DidCommitNavigation));
    assert!(deliver(&mut sink, NativeCallback::DidFinishNavigation));
    assert!(!deliver(&mut sink, NativeCallback::DidReceiveScriptMessage(None)));
    assert_eq!(*seen.borrow(), vec!["start", "commit", "finish"]);
}

#[test]
fn channel_sink_gets_messages_and_drops_when_closed() {
    let (tx, rx) = mpsc::channel::<Event>();
    let mut tx = tx;
    assert!(deliver(&mut tx, NativeCallback::DidReceiveScriptMessage(Some("hello".to_string()))));
    match rx.recv().unwrap() {
        Event::Message(m) => assert_eq!(m, "hello"),
        _ => panic!("expected a message"),
    }
    drop(rx);
    tx.handle_event(Event::Navigation(NavigationEvent::Finish));
}

#[test]
fn request_hit_answers_with_bytes_type_and_completion() {
    let found = Some(Response { body: b"<html>ok</html>".to_vec(), mime_type: "text/html".to_string() });
    let actions = answer_task("winit:///index.html".to_string(), found);
    assert_eq!(actions.len(), 3);
    match &actions[0] {
        TaskAction::ReceiveResponse { url, mime_type, content_length } => {
            assert_eq!(url, "winit:///index.html");
            assert_eq!(mime_type, "text/html");
            assert_eq!(*content_length, 15);
        }
        _ => panic!("expected the response head first"),
    }
    match &actions[1] {
        TaskAction::ReceiveData(b) => assert_eq!(b.as_slice(), b"<html>ok</html>"),
        _ => panic!("expected the body second"),
    }
    assert!(matches!(actions[2], TaskAction::Finish));
}

#[test]
fn request_miss_answers_nothing() {
    let mut handler = NullRequestHandler;
    let found = handler.handle_platform_request(PlatformRequest { uri: "/missing.html" });
    assert!(found.is_none());
    let actions = answer_task("winit:///missing.html".to_string(), None);
    assert!(actions.is_empty());
}

#[test]
fn platform_request_gives_its_path() {
    let r = PlatformRequest { uri: "/index.html" };
    assert_eq!(r.as_uri(), "/index.html");
}

#[test]
fn title_normalization() {
    assert_eq!(normalize_title(Some(String::new())), None);
    assert_eq!(normalize_title(Some("Example".to_string())), Some("Example".to_string()));
    assert_eq!(normalize_title(None), None);
}

#[test]
fn navigation_targets_become_loads() {
    match NavigationTarget::Url("https://example.com/").load_request() {
        LoadRequest::Url(u) => assert_eq!(u, "https://example.com/"),
        _ => panic!("expected a URL load"),
    }
    match NavigationTarget::Html("<p>hi</p>").load_request() {
        LoadRequest::Html { html, base_url } => {
            assert_eq!(html, "<p>hi</p>");
            assert_eq!(base_url, "winit://");
        }
        _ => panic!("expected a markup load"),
    }
    assert_eq!(winit_webview::in_app_scheme_name(), "winit");
}

#[test]
fn builder_keeps_scripts_in_order_and_debug() {
    let b = WebViewBuilder::new().with_init_script("one()").with_init_script("two()").with_debug(true);
    let (_handler, scripts, platform) = b.into_parts();
    assert_eq!(scripts, vec!["one()".to_string(), "two()".to_string()]);
    assert!(platform.enable_debug);
    let b = WebViewBuilder::with_request_handler(NullRequestHandler);
    let (_h, scripts, platform) = b.into_parts();
    assert!(scripts.is_empty());
    assert!(!platform.enable_debug);
}
