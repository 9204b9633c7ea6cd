use vstd::prelude::*;
use crate::protocol::error::ProtocolError;
use crate::host_services::response::HostServiceResponse;
use crate::host_services::list::{HostListService, device_list_text};
use vstd::utf8::encode_utf8;
use crate::host_services::version::HostVersionService;
use crate::text::{str_eq, to_owned_string, starts_with, has_prefix};

verus! {

/// A service the server answers itself, such as "host:list".
pub trait HostService {
    /// Whether `r` is an answer this service gives to a request with `args`.
    /// A service that does not say allows any answer.
    open spec fn answers(&self, args: Seq<char>, r: Result<HostServiceResponse, ProtocolError>) -> bool {
        true
    }

    /// The name the service is asked for by.
    fn service_name(&self) -> &str;

    /// Answers a request with `args`.
    fn handle(&self, args: &str) -> (r: Result<HostServiceResponse, ProtocolError>)
        ensures
            self.answers(args@, r);
}

impl HostService for HostVersionService {
    /// The version text, whatever the arguments.
    open spec fn answers(&self, args: Seq<char>, r: Result<HostServiceResponse, ProtocolError>) -> bool {
        r matches Ok(HostServiceResponse::Okay(d)) && d@ == encode_utf8(self.spec_version())
    }

    fn service_name(&self) -> (r: &str)
        ensures
            r@ == "host:version"@,
    {
        HostVersionService::service_name(self)
    }

    /// The answer: the version text, whatever the arguments.
    fn handle(&self, args: &str) -> (r: Result<HostServiceResponse, ProtocolError>)
        ensures
            r matches Ok(HostServiceResponse::Okay(d)) && d@ == encode_utf8(self.spec_version()),
    {
        Ok(HostServiceResponse::okay_str(self.version_string()))
    }
}

impl HostService for HostListService {
    /// The device list of the registry, whatever the arguments.
    open spec fn answers(&self, args: Seq<char>, r: Result<HostServiceResponse, ProtocolError>) -> bool {
        r matches Ok(HostServiceResponse::Okay(d)) && d@ == encode_utf8(device_list_text(self.registry().spec_devices()))
    }

    fn service_name(&self) -> (r: &str)
        ensures
            r@ == "host:list"@,
    {
        HostListService::service_name(self)
    }

    /// The answer: the device list, whatever the arguments.
    fn handle(&self, args: &str) -> (r: Result<HostServiceResponse, ProtocolError>)
        ensures
            r matches Ok(HostServiceResponse::Okay(d)) && d@ == encode_utf8(device_list_text(self.registry().spec_devices())),
    {
        let list = self.generate_device_list();
        Ok(HostServiceResponse::okay_str(list.as_str()))
    }
}

/// A boxed service is a service: calls go to the service inside.
impl HostService for Box<dyn HostService> {
    open spec fn answers(&self, args: Seq<char>, r: Result<HostServiceResponse, ProtocolError>) -> bool {
        (**self).answers(args, r)
    }

    fn service_name(&self) -> &str {
        (**self).service_name()
    }

    fn handle(&self, args: &str) -> Result<HostServiceResponse, ProtocolError> {
        (**self).handle(args)
    }
}

/// The service registered under `name` among `entries`, if any.
pub open spec fn service_named<S>(entries: Seq<(String, S)>, name: Seq<char>) -> Option<S> {
    if exists|i: int| 0 <= i < entries.len() && entries[i].0@ == name {
        Some(entries[choose|i: int| 0 <= i < entries.len() && entries[i].0@ == name].1)
    } else {
        None
    }
}

/// The host services, each under the name it gave when registered.
pub struct HostServiceRegistry<S: HostService> {
    services: Vec<(String, S)>,
}

impl<S: HostService> HostServiceRegistry<S> {
    /// The services with their names, in the order they were first
    /// registered.
    pub closed spec fn spec_entries(&self) -> Seq<(String, S)> {
        self.services@
    }

    /// No name is registered twice.
    pub closed spec fn wf(&self) -> bool {
        forall|i: int, j: int| 0 <= i < j < self.services@.len() ==> #[trigger] self.services@[i].0@ != #[trigger] self.services@[j].0@
    }

    /// An empty registry.
    pub fn new() -> (r: Self)
        ensures
            r.wf(),
            r.spec_entries().len() == 0,
    {
        HostServiceRegistry { services: Vec::new() }
    }

    fn position(&self, name: &str) -> (r: Option<usize>)
        ensures
            match r {
                Some(i) => i < self.services@.len() && self.services@[i as int].0@ == name@,
                None => forall|j: int| 0 <= j < self.services@.len() ==> self.services@[j].0@ != name@,
            },
    {
        let mut i: usize = 0;
        while i < self.services.len()
            invariant
                i <= self.services@.len(),
                forall|j: int| 0 <= j < i ==> self.services@[j].0@ != name@,
            decreases self.services@.len() - i,
        {
            if str_eq(self.services[i].0.as_str(), name) {
                return Some(i);
            }
            i = i + 1;
        }
        None
    }

    /// In a well-formed registry the service found under a name is the one
    /// at the place holding that name.
    proof fn lemma_named_at(&self, i: int)
        requires
            self.wf(),
            0 <= i < self.services@.len(),
        ensures
            service_named(self.services@, self.services@[i].0@) == Some(self.services@[i].1),
    {
        let e = self.services@;
        let n = e[i].0@;
        let k = choose|k: int| 0 <= k < e.len() && e[k].0@ == n;
        if k != i {
            if k < i {
                assert(e[k].0@ != e[i].0@);
            } else {
                assert(e[i].0@ != e[k].0@);
            }
        }
    }

    /// Registers `service` under the name it gives, replacing a service
    /// registered under that name before.
    pub fn register(&mut self, service: S)
        requires
            old(self).wf(),
        ensures
            final(self).wf(),
            exists|n: Seq<char>| {
                &&& service_named(final(self).spec_entries(), n) == Some(service)
                &&& forall|q: Seq<char>| q != n ==>
                    service_named(final(self).spec_entries(), q) == service_named(old(self).spec_entries(), q)
                &&& final(self).spec_entries().len() == old(self).spec_entries().len()
                    + if service_named(old(self).spec_entries(), n) is Some { 0int } else { 1int }
            },
    {
        let name = to_owned_string(service.service_name());
        let ghost n = name@;
        let ghost before = self.services@;
        match self.position(name.as_str()) {
            Some(i) => {
                self.services.set(i, (name, service));
                proof {
                    let e = self.services@;
                    assert forall|a: int, b: int| 0 <= a < b < e.len() implies #[trigger] e[a].0@ != #[trigger] e[b].0@ by {
                        if a == i {
                            assert(before[a].0@ == n);
                        } else if b == i {
                            assert(before[b].0@ == n);
                        }
                        assert(before[a].0@ != before[b].0@);
                    }
                    self.lemma_named_at(i as int);
                    assert forall|q: Seq<char>| q != n implies service_named(e, q) == service_named(before, q) by {
                        if exists|k: int| 0 <= k < before.len() && before[k].0@ == q {
                            let k = choose|k: int| 0 <= k < before.len() && before[k].0@ == q;
                            assert(k != i);
                            assert(e[k] == before[k]);
                            self.lemma_named_at(k);
                            old(self).lemma_named_at(k);
                        } else {
                            assert forall|k: int| 0 <= k < e.len() implies e[k].0@ != q by {
                                if k != i {
                                    assert(e[k] == before[k]);
                                }
                            }
                        }
                    }
                    assert(service_named(before, n) is Some);
                }
            },
            None => {
                self.services.push((name, service));
                proof {
                    let e = self.services@;
                    assert forall|a: int, b: int| 0 <= a < b < e.len() implies #[trigger] e[a].0@ != #[trigger] e[b].0@ by {
                        if b == before.len() {
                            assert(e[a] == before[a]);
                        } else {
                            assert(e[a] == before[a]);
                            assert(e[b] == before[b]);
                        }
                    }
                    self.lemma_named_at(before.len() as int);
                    assert forall|q: Seq<char>| q != n implies service_named(e, q) == service_named(before, q) by {
                        if exists|k: int| 0 <= k < before.len() && before[k].0@ == q {
                            let k = choose|k: int| 0 <= k < before.len() && before[k].0@ == q;
                            assert(e[k] == before[k]);
                            self.lemma_named_at(k);
                            old(self).lemma_named_at(k);
                        } else {
                            assert forall|k: int| 0 <= k < e.len() implies e[k].0@ != q by {
                                if k < before.len() {
                                    assert(e[k] == before[k]);
                                }
                            }
                        }
                    }
                    assert(service_named(before, n) is None);
                }
            },
        }
        proof {
            assert({
                &&& service_named(self.spec_entries(), n) == Some(service)
                &&& forall|q: Seq<char>| q != n ==>
                    service_named(self.spec_entries(), q) == service_named(before, q)
                &&& self.spec_entries().len() == before.len()
                    + if service_named(before, n) is Some { 0int } else { 1int }
            });
        }
    }

    /// The service registered under `service_name`.
    pub fn get_service(&self, service_name: &str) -> (r: Option<&S>)
        requires
            self.wf(),
        ensures
            match (r, service_named(self.spec_entries(), service_name@)) {
                (Some(a), Some(b)) => *a == b,
                (None, None) => true,
                _ => false,
            },
    {
        match self.position(service_name) {
            Some(i) => {
                proof {
                    self.lemma_named_at(i as int);
                }
                Some(&self.services[i].1)
            },
            None => None,
        }
    }

    /// Runs the service registered under `service_name` with `args` and
    /// gives its answer. A name nobody registered is answered with
    /// "Service not found".
    pub fn handle_service(&self, service_name: &str, args: &str) -> (r: Result<HostServiceResponse, ProtocolError>)
        requires
            self.wf(),
        ensures
            service_named(self.spec_entries(), service_name@) matches Some(s) ==> s.answers(args@, r),
            service_named(self.spec_entries(), service_name@) is None ==> (r matches Err(ProtocolError::HostServiceError { service, message })
                && service@ == service_name@ && message@ == "Service not found"@),
    {
        match self.get_service(service_name) {
            Some(service) => service.handle(args),
            None => Err(ProtocolError::HostServiceError {
                service: to_owned_string(service_name),
                message: to_owned_string("Service not found"),
            }),
        }
    }

    /// Whether `service_name` names a host service: it starts with "host:".
    pub fn is_host_service(service_name: &str) -> (r: bool)
        ensures
            r == has_prefix(service_name@, "host:"@),
    {
        starts_with(service_name, "host:")
    }

    /// The registered names, in the order they were first registered.
    pub fn list_services(&self) -> (r: Vec<&str>)
        ensures
            r@.len() == self.spec_entries().len(),
            forall|i: int| 0 <= i < r@.len() ==> r@[i]@ == self.spec_entries()[i].0@,
    {
        let mut out: Vec<&str> = Vec::new();
        let mut i: usize = 0;
        while i < self.services.len()
            invariant
                i <= self.services@.len(),
                out@.len() == i,
                forall|k: int| 0 <= k < i ==> out@[k]@ == self.services@[k].0@,
            decreases self.services@.len() - i,
        {
            out.push(self.services[i].0.as_str());
            i = i + 1;
        }
        out
    }

    /// How many services are registered.
    pub fn service_count(&self) -> (r: usize)
        ensures
            r == self.spec_entries().len(),
    {
        self.services.len()
    }

    /// Removes the service registered under `service_name`; says whether
    /// there was one.
    pub fn remove_service(&mut self, service_name: &str) -> (r: bool)
        requires
            old(self).wf(),
        ensures
            final(self).wf(),
            r == (service_named(old(self).spec_entries(), service_name@) is Some),
            service_named(final(self).spec_entries(), service_name@) is None,
            forall|q: Seq<char>| q != service_name@ ==>
                service_named(final(self).spec_entries(), q) == service_named(old(self).spec_entries(), q),
            final(self).spec_entries().len() == old(self).spec_entries().len() - if r { 1int } else { 0int },
    {
        let ghost before = self.services@;
        match self.position(service_name) {
            Some(i) => {
                self.services.remove(i);
                proof {
                    let e = self.services@;
                    assert forall|a: int, b: int| 0 <= a < b < e.len() implies #[trigger] e[a].0@ != #[trigger] e[b].0@ by {
                        let oa = if a < i { a } else { a + 1 };
                        let ob = if b < i { b } else { b + 1 };
                        assert(e[a] == before[oa]);
                        assert(e[b] == before[ob]);
                    }
                    assert forall|k: int| 0 <= k < e.len() implies e[k].0@ != service_name@ by {
                        let ok = if k < i { k } else { k + 1 };
                        assert(e[k] == before[ok]);
                        if ok < i {
                            assert(before[ok].0@ != before[i as int].0@);
                        } else {
                            assert(before[i as int].0@ != before[ok].0@);
                        }
                    }
                    assert forall|q: Seq<char>| q != service_name@ implies service_named(e, q) == service_named(before, q) by {
                        if exists|k: int| 0 <= k < before.len() && before[k].0@ == q {
                            let k = choose|k: int| 0 <= k < before.len() && before[k].0@ == q;
                            assert(k != i);
                            let nk = if k < i { k } else { k - 1 };
                            assert(e[nk] == before[k]);
                            self.lemma_named_at(nk);
                            old(self).lemma_named_at(k);
                        } else {
                            assert forall|k: int| 0 <= k < e.len() implies e[k].0@ != q by {
                                let ok = if k < i { k } else { k + 1 };
                                assert(e[k] == before[ok]);
                            }
                        }
                    }
                }
                true
            },
            None => false,
        }
    }

    /// Removes every service.
    pub fn clear(&mut self)
        ensures
            final(self).wf(),
            final(self).spec_entries().len() == 0,
    {
        self.services.clear();
    }
}

impl<S: HostService> Default for HostServiceRegistry<S> {
    /// An empty registry.
    fn default() -> (r: Self)
        ensures
            r.wf(),
            r.spec_entries().len() == 0,
    {
        HostServiceRegistry::new()
    }
}

} // verus!
