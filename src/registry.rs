//! The native delegate class: what it declares, and the registry that
//! registers it at most once for each pair of handler types.

use vstd::prelude::*;

verus! {

/// A method that the delegate class implements for the native runtime.
#[derive(Debug, Clone, Copy, PartialEq, Eq, Structural)]
pub enum DelegateMethod {
    InitWithHandlers,
    Dealloc,
    DidReceiveScriptMessage,
    DidStartProvisionalNavigation,
    DidReceiveServerRedirect,
    DidCommitNavigation,
    DidFinishNavigation,
    StartUrlSchemeTask,
    StopUrlSchemeTask,
}

/// A protocol that the delegate class declares conformance to.
#[derive(Debug, Clone, Copy, PartialEq, Eq, Structural)]
pub enum Protocol {
    NavigationDelegate,
    UrlSchemeHandler,
}

/// A storage slot of a delegate instance; each holds a reference to handler
/// state owned by the application.
#[derive(Debug, Clone, Copy, PartialEq, Eq, Structural)]
pub enum StorageSlot {
    EventHandler,
    RequestHandler,
}

/// The native selector under which a method is registered.
pub open spec fn selector_of(m: DelegateMethod) -> Seq<char> {
    match m {
        DelegateMethod::InitWithHandlers => "initWithHandler:requestHandler:"@,
        DelegateMethod::Dealloc => "dealloc"@,
        DelegateMethod::DidReceiveScriptMessage => "userContentController:didReceiveScriptMessage:"@,
        DelegateMethod::DidStartProvisionalNavigation => "webView:didStartProvisionalNavigation:"@,
        DelegateMethod::DidReceiveServerRedirect => "webView:didReceiveServerRedirectForProvisionalNavigation:"@,
        DelegateMethod::DidCommitNavigation => "webView:didCommitNavigation:"@,
        DelegateMethod::DidFinishNavigation => "webView:didFinishNavigation:"@,
        DelegateMethod::StartUrlSchemeTask => "webView:startURLSchemeTask:"@,
        DelegateMethod::StopUrlSchemeTask => "webView:stopURLSchemeTask:"@,
    }
}

/// The native name of a protocol.
pub open spec fn protocol_name_of(p: Protocol) -> Seq<char> {
    match p {
        Protocol::NavigationDelegate => "WKNavigationDelegate"@,
        Protocol::UrlSchemeHandler => "WKURLSchemeHandler"@,
    }
}

/// The native name of a storage slot.
pub open spec fn slot_name_of(s: StorageSlot) -> Seq<char> {
    match s {
        StorageSlot::EventHandler => "event_handler"@,
        StorageSlot::RequestHandler => "request_handler"@,
    }
}

impl DelegateMethod {
    /// The native selector under which this method is registered.
    pub fn selector(self) -> (r: &'static str)
        ensures
            r@ == selector_of(self),
    {
        match self {
            DelegateMethod::InitWithHandlers => {
                proof { reveal_strlit("initWithHandler:requestHandler:"); }
                "initWithHandler:requestHandler:"
            },
            DelegateMethod::Dealloc => {
                proof { reveal_strlit("dealloc"); }
                "dealloc"
            },
            DelegateMethod::DidReceiveScriptMessage => {
                proof { reveal_strlit("userContentController:didReceiveScriptMessage:"); }
                "userContentController:didReceiveScriptMessage:"
            },
            DelegateMethod::DidStartProvisionalNavigation => {
                proof { reveal_strlit("webView:didStartProvisionalNavigation:"); }
                "webView:didStartProvisionalNavigation:"
            },
            DelegateMethod::DidReceiveServerRedirect => {
                proof { reveal_strlit("webView:didReceiveServerRedirectForProvisionalNavigation:"); }
                "webView:didReceiveServerRedirectForProvisionalNavigation:"
            },
            DelegateMethod::DidCommitNavigation => {
                proof { reveal_strlit("webView:didCommitNavigation:"); }
                "webView:didCommitNavigation:"
            },
            DelegateMethod::DidFinishNavigation => {
                proof { reveal_strlit("webView:didFinishNavigation:"); }
                "webView:didFinishNavigation:"
            },
            DelegateMethod::StartUrlSchemeTask => {
                proof { reveal_strlit("webView:startURLSchemeTask:"); }
                "webView:startURLSchemeTask:"
            },
            DelegateMethod::StopUrlSchemeTask => {
                proof { reveal_strlit("webView:stopURLSchemeTask:"); }
                "webView:stopURLSchemeTask:"
            },
        }
    }
}

impl Protocol {
    /// The native name of this protocol.
    pub fn name(self) -> (r: &'static str)
        ensures
            r@ == protocol_name_of(self),
    {
        match self {
            Protocol::NavigationDelegate => {
                proof { reveal_strlit("WKNavigationDelegate"); }
                "WKNavigationDelegate"
            },
            Protocol::UrlSchemeHandler => {
                proof { reveal_strlit("WKURLSchemeHandler"); }
                "WKURLSchemeHandler"
            },
        }
    }
}

impl StorageSlot {
    /// The native name of this storage slot.
    pub fn name(self) -> (r: &'static str)
        ensures
            r@ == slot_name_of(self),
    {
        match self {
            StorageSlot::EventHandler => {
                proof { reveal_strlit("event_handler"); }
                "event_handler"
            },
            StorageSlot::RequestHandler => {
                proof { reveal_strlit("request_handler"); }
                "request_handler"
            },
        }
    }
}

} // verus!

verus! {

/// The superclass of the delegate class.
pub open spec fn delegate_superclass() -> Seq<char> {
    "NSObject"@
}

/// Every method of the delegate class, in the order of registration.
pub open spec fn delegate_methods() -> Seq<DelegateMethod> {
    seq![
        DelegateMethod::InitWithHandlers,
        DelegateMethod::Dealloc,
        DelegateMethod::DidReceiveScriptMessage,
        DelegateMethod::DidStartProvisionalNavigation,
        DelegateMethod::DidReceiveServerRedirect,
        DelegateMethod::DidCommitNavigation,
        DelegateMethod::DidFinishNavigation,
        DelegateMethod::StartUrlSchemeTask,
        DelegateMethod::StopUrlSchemeTask,
    ]
}

/// The protocols that the delegate class conforms to.
pub open spec fn delegate_protocols() -> Seq<Protocol> {
    seq![Protocol::NavigationDelegate, Protocol::UrlSchemeHandler]
}

/// The storage slots of a delegate instance.
pub open spec fn delegate_slots() -> Seq<StorageSlot> {
    seq![StorageSlot::EventHandler, StorageSlot::RequestHandler]
}

/// A description of a native class, from which the native runtime's class is
/// declared and registered.
#[derive(Debug)]
pub struct ClassDescriptor {
    pub name: String,
    pub superclass: &'static str,
    pub protocols: Vec<Protocol>,
    pub methods: Vec<DelegateMethod>,
    pub slots: Vec<StorageSlot>,
}

/// `d` describes the delegate class under the name `name`.
pub open spec fn is_delegate_class(d: ClassDescriptor, name: Seq<char>) -> bool {
    &&& d.name@ == name
    &&& d.superclass@ == delegate_superclass()
    &&& d.protocols@ == delegate_protocols()
    &&& d.methods@ == delegate_methods()
    &&& d.slots@ == delegate_slots()
}

impl ClassDescriptor {
    /// Describes the delegate class under `name`: an `NSObject` with the two
    /// handler slots, the navigation and script-message callbacks, the
    /// in-app scheme callbacks and teardown.
    pub fn delegate(name: &str) -> (d: ClassDescriptor)
        ensures
            is_delegate_class(d, name@),
    {
        let methods = vec![
            DelegateMethod::InitWithHandlers,
            DelegateMethod::Dealloc,
            DelegateMethod::DidReceiveScriptMessage,
            DelegateMethod::DidStartProvisionalNavigation,
            DelegateMethod::DidReceiveServerRedirect,
            DelegateMethod::DidCommitNavigation,
            DelegateMethod::DidFinishNavigation,
            DelegateMethod::StartUrlSchemeTask,
            DelegateMethod::StopUrlSchemeTask,
        ];
        let protocols = vec![Protocol::NavigationDelegate, Protocol::UrlSchemeHandler];
        let slots = vec![StorageSlot::EventHandler, StorageSlot::RequestHandler];
        proof { reveal_strlit("NSObject"); }
        let d = ClassDescriptor {
            name: name.to_owned(),
            superclass: "NSObject",
            protocols,
            methods,
            slots,
        };
        assert(d.methods@ =~= delegate_methods());
        assert(d.protocols@ =~= delegate_protocols());
        assert(d.slots@ =~= delegate_slots());
        d
    }
}

/// The names registered after one request for `key`: unchanged when `key` is
/// already there, else `key` appended.
pub open spec fn register_once(names: Seq<Seq<char>>, key: Seq<char>) -> Seq<Seq<char>> {
    if names.contains(key) {
        names
    } else {
        names.push(key)
    }
}

/// The names registered after requests for each of `keys`, in order.
pub open spec fn register_all(names: Seq<Seq<char>>, keys: Seq<Seq<char>>) -> Seq<Seq<char>>
    decreases keys.len(),
{
    if keys.len() == 0 {
        names
    } else {
        register_once(register_all(names, keys.drop_last()), keys.last())
    }
}

/// The classes registered so far, one for each distinct pair of handler
/// types, each under the key that names that pair.
pub struct ClassRegistry {
    classes: Vec<ClassDescriptor>,
}

impl ClassRegistry {
    /// The keys registered so far, in order of registration.
    pub closed spec fn names(&self) -> Seq<Seq<char>> {
        self.classes@.map_values(|c: ClassDescriptor| c.name@)
    }

    /// The class registered under the `i`-th key.
    pub closed spec fn class_at(&self, i: int) -> ClassDescriptor {
        self.classes@[i]
    }

    /// Each key is registered once, and each class is the delegate class.
    pub closed spec fn wf(&self) -> bool {
        &&& self.names().no_duplicates()
        &&& forall|i: int|
            0 <= i < self.classes@.len() ==> is_delegate_class(#[trigger] self.classes@[i], self.classes@[i].name@)
    }

    /// A registry with nothing registered.
    pub fn new() -> (r: ClassRegistry)
        ensures
            r.wf(),
            r.names() == Seq::<Seq<char>>::empty(),
    {
        let r = ClassRegistry { classes: Vec::new() };
        assert(r.names() =~= Seq::<Seq<char>>::empty());
        r
    }

    /// The number of classes registered so far.
    pub fn registrations(&self) -> (n: usize)
        ensures
            n == self.names().len(),
    {
        self.classes.len()
    }

    /// The position of the class registered under `key`, if any.
    pub fn lookup(&self, key: &str) -> (r: Option<usize>)
        requires
            self.wf(),
        ensures
            r.is_none() <==> !self.names().contains(key@),
            r matches Some(i) ==> i < self.names().len() && self.names()[i as int] == key@,
    {
        let wanted = key.to_owned();
        let mut i: usize = 0;
        while i < self.classes.len()
            invariant
                i <= self.classes@.len(),
                wanted@ == key@,
                forall|j: int| 0 <= j < i ==> self.names()[j] != key@,
            decreases self.classes@.len() - i,
        {
            if self.classes[i].name == wanted {
                assert(self.names()[i as int] == key@);
                return Some(i);
            }
            i = i + 1;
        }
        proof {
            if self.names().contains(key@) {
                let j = choose|j: int| 0 <= j < self.names().len() && self.names()[j] == key@;
                assert(self.names()[j] != key@);
            }
        }
        None
    }

    /// The class for `key`, registered by this call when it is the first
    /// request for `key`; a later request returns the class registered first.
    pub fn get_or_register(&mut self, key: &str) -> (r: usize)
        requires
            old(self).wf(),
            old(self).names().len() < usize::MAX,
        ensures
            final(self).wf(),
            final(self).names() == register_once(old(self).names(), key@),
            r < final(self).names().len(),
            final(self).names()[r as int] == key@,
            is_delegate_class(final(self).class_at(r as int), key@),
            forall|i: int| 0 <= i < old(self).names().len() ==> final(self).class_at(i) == old(self).class_at(i),
    {
        match self.lookup(key) {
            Some(i) => i,
            None => {
                let d = ClassDescriptor::delegate(key);
                self.classes.push(d);
                proof {
                    assert(self.names() =~= old(self).names().push(key@));
                    assert forall|a: int, b: int|
                        0 <= a < self.names().len() && 0 <= b < self.names().len() && a != b
                            implies self.names()[a] != self.names()[b] by {
                        if a < old(self).names().len() && b < old(self).names().len() {
                            assert(old(self).names()[a] == self.names()[a]);
                            assert(old(self).names()[b] == self.names()[b]);
                        } else if a < old(self).names().len() {
                            assert(old(self).names()[a] == self.names()[a]);
                        } else {
                            assert(old(self).names()[b] == self.names()[b]);
                        }
                    }
                }
                self.classes.len() - 1
            },
        }
    }

    /// The class registered under position `i`.
    pub fn class(&self, i: usize) -> (d: &ClassDescriptor)
        requires
            i < self.names().len(),
        ensures
            *d == self.class_at(i as int),
    {
        &self.classes[i]
    }
}

} // verus!

verus! {

/// Requesting the class for one key any number of times registers it at most
/// once: the names end as after a single request, which adds the key only
/// when it was not yet registered.
pub proof fn lemma_registration_idempotent(names: Seq<Seq<char>>, key: Seq<char>, n: nat)
    requires
        n >= 1,
    ensures
        register_all(names, Seq::new(n, |i: int| key)) == register_once(names, key),
        names.contains(key) ==> register_once(names, key) == names,
        !names.contains(key) ==> register_once(names, key).len() == names.len() + 1,
    decreases n,
{
    let keys = Seq::new(n, |i: int| key);
    assert(keys.last() == key);
    if n == 1 {
        assert(keys.drop_last() =~= Seq::<Seq<char>>::empty());
        reveal_with_fuel(register_all, 2);
    } else {
        assert(keys.drop_last() =~= Seq::new((n - 1) as nat, |i: int| key));
        lemma_registration_idempotent(names, key, (n - 1) as nat);
        let once = register_once(names, key);
        assert(once.contains(key)) by {
            if !names.contains(key) {
                assert(once[names.len() as int] == key);
            }
        }
    }
}

/// Whatever the order of the requests, every requested key ends registered
/// exactly once, nothing else is added, and what was registered before stays
/// where it was.
pub proof fn lemma_registration_in_any_order(names: Seq<Seq<char>>, keys: Seq<Seq<char>>)
    requires
        names.no_duplicates(),
    ensures
        register_all(names, keys).no_duplicates(),
        forall|k: Seq<char>|
            #[trigger] register_all(names, keys).contains(k) <==> names.contains(k) || keys.contains(k),
        register_all(names, keys).len() >= names.len(),
        register_all(names, keys).subrange(0, names.len() as int) == names,
    decreases keys.len(),
{
    if keys.len() > 0 {
        let rest = keys.drop_last();
        let key = keys.last();
        lemma_registration_in_any_order(names, rest);
        let before = register_all(names, rest);
        let after = register_once(before, key);
        assert(after.subrange(0, names.len() as int) =~= before.subrange(0, names.len() as int));
        assert forall|k: Seq<char>| #[trigger] after.contains(k) <==> names.contains(k) || keys.contains(k) by {
            if keys.contains(k) && !rest.contains(k) {
                assert(k == key) by {
                    let j = choose|j: int| 0 <= j < keys.len() && keys[j] == k;
                    if j < keys.len() - 1 {
                        assert(rest[j] == k);
                    }
                }
            }
            if rest.contains(k) {
                let j = choose|j: int| 0 <= j < rest.len() && rest[j] == k;
                assert(keys[j] == k);
            }
            if !before.contains(key) {
                assert(after[before.len() as int] == key);
                if after.contains(k) && k != key {
                    let j = choose|j: int| 0 <= j < after.len() && after[j] == k;
                    assert(before[j] == k);
                }
                if before.contains(k) {
                    let j = choose|j: int| 0 <= j < before.len() && before[j] == k;
                    assert(after[j] == k);
                }
            }
            if k == key {
                assert(keys[keys.len() - 1] == k);
            }
        }
        if !before.contains(key) {
            assert forall|a: int, b: int| 0 <= a < after.len() && 0 <= b < after.len() && a != b
                implies after[a] != after[b] by {
                if a == before.len() {
                    assert(before[b] == after[b]);
                } else if b == before.len() {
                    assert(before[a] == after[a]);
                } else {
                    assert(before[a] == after[a] && before[b] == after[b]);
                }
            }
        }
    }
}

} // verus!
