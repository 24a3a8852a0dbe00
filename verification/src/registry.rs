//! The handle registry: which services are loaded, under which signature,
//! and which usages of each are outstanding.
//!
//! Three indexes are kept in step: names to service signatures, service
//! signatures to their sets of usage signatures, and service signatures to
//! the loaded services. A service is torn down, out of all three at once,
//! when its last usage is released.

use crate::error::ErrorKind;
use crate::handle::{
    decimal, format_handle, handle_of, pack, parse_decimal, parse_handle, service_part, split,
    usage_part, ServiceSig, UsageSig, INVALID_HANDLE,
};
use crate::service::Service;
use rand::Rng;
use std::collections::{BTreeMap, BTreeSet};
use std::sync::Arc;
use vstd::hash_map::StringHashMap;
use vstd::prelude::*;

verus! {

/// How many signatures are drawn before a search for an unused one gives up.
pub const MAX_DRAWS: usize = 64;

/// The three indexes of a registry, as mathematical maps.
pub struct RegistryView {
    /// Service name to service signature.
    pub service_map: Map<Seq<char>, ServiceSig>,
    /// Service signature to the usages that are outstanding.
    pub usage_map: Map<ServiceSig, Set<UsageSig>>,
    /// Service signature to the loaded service.
    pub services: Map<ServiceSig, Service>,
}

impl RegistryView {
    /// The indexes of a registry that holds nothing.
    pub open spec fn empty() -> RegistryView {
        RegistryView { service_map: Map::empty(), usage_map: Map::empty(), services: Map::empty() }
    }

    /// Whether some name maps to the service signature `sig`.
    pub open spec fn named(self, sig: ServiceSig) -> bool {
        exists|name: Seq<char>| #[trigger]
            self.service_map.contains_key(name) && self.service_map[name] == sig
    }

    /// The joint invariant of the three indexes.
    ///
    /// Every name maps to a signature that both other indexes hold; the
    /// two other indexes hold the same signatures, each under exactly one
    /// name; no live signature is zero; and every live service has at least
    /// one usage, out of finitely many.
    pub open spec fn consistent(self) -> bool {
        &&& forall|name: Seq<char>| #[trigger]
            self.service_map.contains_key(name) ==> self.services.contains_key(
                self.service_map[name],
            ) && self.usage_map.contains_key(self.service_map[name])
        &&& forall|sig: ServiceSig| #[trigger]
            self.services.contains_key(sig) <==> self.usage_map.contains_key(sig)
        &&& forall|sig: ServiceSig| #[trigger] self.usage_map.contains_key(sig) ==> self.named(sig)
        &&& forall|a: Seq<char>, b: Seq<char>|
            #![trigger self.service_map.contains_key(a), self.service_map.contains_key(b)]
            self.service_map.contains_key(a) && self.service_map.contains_key(b)
                && self.service_map[a] == self.service_map[b] ==> a == b
        &&& forall|sig: ServiceSig| #[trigger]
            self.usage_map.contains_key(sig) ==> sig != 0 && self.usage_map[sig].finite()
                && self.usage_map[sig].len() > 0
    }

    /// The service signature that a registration of `name` ends up under:
    /// the one the name has, or else the candidate.
    pub open spec fn service_for(self, name: Seq<char>, candidate: ServiceSig) -> ServiceSig {
        if self.service_map.contains_key(name) {
            self.service_map[name]
        } else {
            candidate
        }
    }

    /// Whether a registration of `name` can use the two candidates. Under
    /// a known name only the usage candidate counts, and it must be new to
    /// the service. Under a new name only the service candidate counts: it
    /// must be non-zero and in use by no service.
    pub open spec fn candidates_free(
        self,
        name: Seq<char>,
        service: ServiceSig,
        usage: UsageSig,
    ) -> bool {
        if self.service_map.contains_key(name) {
            !self.usage_map[self.service_map[name]].contains(usage)
        } else {
            service != 0 && !self.usage_map.contains_key(service)
        }
    }

    /// The indexes after `name` was registered with the two candidates,
    /// `fresh` holding the loaded service in case the name is new. A new
    /// name without a loaded service changes nothing.
    pub open spec fn with_registration(
        self,
        name: Seq<char>,
        service: ServiceSig,
        usage: UsageSig,
        fresh: Option<Service>,
    ) -> RegistryView {
        if self.service_map.contains_key(name) {
            let sig = self.service_map[name];
            RegistryView {
                usage_map: self.usage_map.insert(sig, self.usage_map[sig].insert(usage)),
                ..self
            }
        } else {
            match fresh {
                Some(loaded) => RegistryView {
                    service_map: self.service_map.insert(name, service),
                    usage_map: self.usage_map.insert(service, Set::empty().insert(usage)),
                    services: self.services.insert(service, loaded),
                },
                None => self,
            }
        }
    }

    /// What registering `name` with the two candidates comes to: the
    /// handle and the new indexes, or the error kind. A new name needs a
    /// loaded service; the candidates must be free.
    pub open spec fn register_outcome(
        self,
        name: Seq<char>,
        fresh: Option<Service>,
        service: ServiceSig,
        usage: UsageSig,
    ) -> Result<(u64, RegistryView), ErrorKind> {
        if !self.service_map.contains_key(name) && fresh is None {
            Err(ErrorKind::EntryMissing)
        } else if !self.candidates_free(name, service, usage) {
            Err(ErrorKind::RegistryExhausted)
        } else {
            Ok(
                (
                    handle_of(self.service_for(name, service), usage),
                    self.with_registration(name, service, usage, fresh),
                ),
            )
        }
    }

    /// Whether `handle` is a live usage registered under `name`.
    pub open spec fn holds(self, name: Seq<char>, handle: u64) -> bool {
        &&& self.service_map.contains_key(name)
        &&& self.service_map[name] == service_part(handle)
        &&& self.usage_map.contains_key(service_part(handle))
        &&& self.usage_map[service_part(handle)].contains(usage_part(handle))
    }

    /// The indexes after the usage `handle` was released under `name`.
    /// Nothing changes unless the name is loaded under the handle's service
    /// signature. The service goes from all three indexes when its last
    /// usage goes.
    pub open spec fn without_registration(self, name: Seq<char>, handle: u64) -> RegistryView {
        let sig = service_part(handle);
        if self.service_map.contains_key(name) && self.service_map[name] == sig
            && self.usage_map.contains_key(sig) {
            let rest = self.usage_map[sig].remove(usage_part(handle));
            if rest.is_empty() {
                RegistryView {
                    service_map: self.service_map.remove(name),
                    usage_map: self.usage_map.remove(sig),
                    services: self.services.remove(sig),
                }
            } else {
                RegistryView { usage_map: self.usage_map.insert(sig, rest), ..self }
            }
        } else {
            self
        }
    }

    /// What `handle` resolves to: its two signatures and the loaded
    /// service, if the service is live and the usage is one of its own.
    pub open spec fn resolved(self, handle: u64) -> Option<(ServiceSig, UsageSig, Service)> {
        let sig = service_part(handle);
        let usage = usage_part(handle);
        if self.usage_map.contains_key(sig) && self.usage_map[sig].contains(usage)
            && self.services.contains_key(sig) {
            Some((sig, usage, self.services[sig]))
        } else {
            None
        }
    }

    /// The usage signatures that are taken under the service signature
    /// `sig`: those of its outstanding usages, none if `sig` is not live.
    pub open spec fn taken(self, sig: ServiceSig) -> Set<UsageSig> {
        if self.usage_map.contains_key(sig) {
            self.usage_map[sig]
        } else {
            Set::empty()
        }
    }

    /// How many usages of `name` are outstanding.
    pub open spec fn usage_count(self, name: Seq<char>) -> nat {
        if self.service_map.contains_key(name) && self.usage_map.contains_key(
            self.service_map[name],
        ) {
            self.usage_map[self.service_map[name]].len()
        } else {
            0
        }
    }
}

impl RegistryView {
    /// A registration that goes through keeps the indexes consistent.
    pub proof fn lemma_registration_consistent(
        self,
        name: Seq<char>,
        fresh: Option<Service>,
        service: ServiceSig,
        usage: UsageSig,
    )
        requires
            self.consistent(),
            self.register_outcome(name, fresh, service, usage) is Ok,
        ensures
            self.with_registration(name, service, usage, fresh).consistent(),
    {
        let next = self.with_registration(name, service, usage, fresh);
        if self.service_map.contains_key(name) {
            let sig = self.service_map[name];
            assert forall|other: ServiceSig| #[trigger] next.usage_map.contains_key(other) implies {
                &&& next.named(other)
                &&& other != 0
                &&& next.usage_map[other].finite()
                &&& next.usage_map[other].len() > 0
            } by {
                assert(self.usage_map.contains_key(other));
                assert(self.named(other));
                let owner = choose|owner: Seq<char>| #[trigger]
                    self.service_map.contains_key(owner) && self.service_map[owner] == other;
                assert(next.service_map.contains_key(owner) && next.service_map[owner] == other);
                if other == sig {
                    vstd::set::axiom_set_insert_finite(self.usage_map[sig], usage);
                    vstd::set::axiom_set_insert_len(self.usage_map[sig], usage);
                }
            }
        } else {
            assert(next.service_map.contains_key(name));
            assert forall|other: ServiceSig| #[trigger] next.usage_map.contains_key(other) implies {
                &&& next.named(other)
                &&& other != 0
                &&& next.usage_map[other].finite()
                &&& next.usage_map[other].len() > 0
            } by {
                if other == service {
                    assert(next.service_map.contains_key(name) && next.service_map[name] == other);
                    vstd::set::axiom_set_insert_finite(Set::<UsageSig>::empty(), usage);
                    vstd::set::axiom_set_insert_len(Set::<UsageSig>::empty(), usage);
                } else {
                    assert(self.usage_map.contains_key(other));
                    assert(self.named(other));
                    let owner = choose|owner: Seq<char>| #[trigger]
                        self.service_map.contains_key(owner) && self.service_map[owner] == other;
                    assert(next.service_map.contains_key(owner) && next.service_map[owner]
                        == other);
                }
            }
            assert forall|a: Seq<char>, b: Seq<char>|
                #![trigger next.service_map.contains_key(a), next.service_map.contains_key(b)]
                next.service_map.contains_key(a) && next.service_map.contains_key(b)
                    && next.service_map[a] == next.service_map[b] implies a == b by {
                if a != name {
                    assert(self.service_map.contains_key(a));
                }
                if b != name {
                    assert(self.service_map.contains_key(b));
                }
            }
            assert forall|other: Seq<char>| #[trigger]
                next.service_map.contains_key(other) implies next.services.contains_key(
                next.service_map[other],
            ) && next.usage_map.contains_key(next.service_map[other]) by {
                if other != name {
                    assert(self.service_map.contains_key(other));
                }
            }
        }
    }

    /// Releasing a usage keeps the indexes consistent, whatever the name
    /// and the handle.
    pub proof fn lemma_release_consistent(self, name: Seq<char>, handle: u64)
        requires
            self.consistent(),
        ensures
            self.without_registration(name, handle).consistent(),
    {
        let next = self.without_registration(name, handle);
        let sig = service_part(handle);
        if self.service_map.contains_key(name) && self.service_map[name] == sig
            && self.usage_map.contains_key(sig) {
            let rest = self.usage_map[sig].remove(usage_part(handle));
            if rest.is_empty() {
                assert forall|other: ServiceSig| #[trigger]
                    next.usage_map.contains_key(other) implies next.named(other) by {
                    assert(self.usage_map.contains_key(other));
                    assert(self.named(other));
                    let owner = choose|owner: Seq<char>| #[trigger]
                        self.service_map.contains_key(owner) && self.service_map[owner] == other;
                    assert(owner != name);
                    assert(next.service_map.contains_key(owner) && next.service_map[owner]
                        == other);
                }
                assert forall|other: Seq<char>| #[trigger]
                    next.service_map.contains_key(other) implies next.services.contains_key(
                    next.service_map[other],
                ) && next.usage_map.contains_key(next.service_map[other]) by {
                    assert(self.service_map.contains_key(other));
                    assert(self.service_map.contains_key(name));
                    assert(other != name);
                }
                assert forall|a: Seq<char>, b: Seq<char>|
                    #![trigger next.service_map.contains_key(a), next.service_map.contains_key(b)]
                    next.service_map.contains_key(a) && next.service_map.contains_key(b)
                        && next.service_map[a] == next.service_map[b] implies a == b by {
                    assert(self.service_map.contains_key(a));
                    assert(self.service_map.contains_key(b));
                }
            } else {
                assert forall|other: ServiceSig| #[trigger]
                    next.usage_map.contains_key(other) implies {
                    &&& next.named(other)
                    &&& other != 0
                    &&& next.usage_map[other].finite()
                    &&& next.usage_map[other].len() > 0
                } by {
                    assert(self.usage_map.contains_key(other));
                    assert(self.named(other));
                    let owner = choose|owner: Seq<char>| #[trigger]
                        self.service_map.contains_key(owner) && self.service_map[owner] == other;
                    assert(next.service_map.contains_key(owner) && next.service_map[owner]
                        == other);
                    if other == sig {
                        vstd::set::axiom_set_remove_finite(
                            self.usage_map[sig],
                            usage_part(handle),
                        );
                        vstd::set_lib::lemma_set_empty_equivalency_len(rest);
                    }
                }
            }
        }
    }
}

/// The handle that a client's string stands for, zero if it is no number.
pub open spec fn handle_or_invalid(text: Seq<char>) -> u64 {
    match parse_decimal(text) {
        Some(handle) => handle,
        None => INVALID_HANDLE,
    }
}

/// Draws one signature from the thread's random generator
/// (`rand::thread_rng().gen()`). Nothing is claimed of the value.
#[verifier::external_body]
fn gen_sig() -> (sig: u32) {
    rand::thread_rng().gen()
}

/// Makes another pointer to the same loaded service (`Arc::clone`). The
/// service is dropped when the last pointer to it is.
#[verifier::external_body]
fn share(service: &Arc<Service>) -> (shared: Arc<Service>)
    ensures
        *shared == **service,
{
    Arc::clone(service)
}

/// The registry of loaded services.
pub struct FFIManagerStub {
    root: String,
    services: BTreeMap<ServiceSig, Arc<Service>>,
    service_map: StringHashMap<ServiceSig>,
    usage_map: BTreeMap<ServiceSig, BTreeSet<UsageSig>>,
}

impl View for FFIManagerStub {
    type V = RegistryView;

    closed spec fn view(&self) -> RegistryView {
        RegistryView {
            service_map: self.service_map@,
            usage_map: Map::new(
                |sig: ServiceSig| self.usage_map@.contains_key(sig),
                |sig: ServiceSig| self.usage_map@[sig]@,
            ),
            services: Map::new(
                |sig: ServiceSig| self.services@.contains_key(sig),
                |sig: ServiceSig| *self.services@[sig],
            ),
        }
    }
}

impl FFIManagerStub {
    /// The directory under which the services are installed.
    pub closed spec fn root_spec(&self) -> Seq<char> {
        self.root@
    }

    /// The registry's invariant: its indexes are consistent.
    pub open spec fn wf(&self) -> bool {
        self@.consistent()
    }

    /// A registry that holds nothing, for the services under `root`.
    pub fn new(root: String) -> (stub: Self)
        ensures
            stub.wf(),
            stub@ == RegistryView::empty(),
            stub.root_spec() == root@,
    {
        let stub = FFIManagerStub {
            root,
            services: BTreeMap::new(),
            service_map: StringHashMap::new(),
            usage_map: BTreeMap::new(),
        };
        assert(stub@.usage_map =~= Map::empty());
        assert(stub@.services =~= Map::empty());
        stub
    }

    /// The directory under which the services are installed.
    pub fn root(&self) -> (root: &String)
        ensures
            root@ == self.root_spec(),
    {
        &self.root
    }

    /// The signature under which `name` is loaded, if it is.
    pub fn lookup(&self, name: &str) -> (sig: Option<ServiceSig>)
        ensures
            sig == (if self@.service_map.contains_key(name@) {
                Some(self@.service_map[name@])
            } else {
                None
            }),
    {
        match self.service_map.get(name) {
            Some(sig) => Some(*sig),
            None => None,
        }
    }

    /// Whether `candidate` can become the signature of a new service.
    fn service_sig_free(&self, candidate: ServiceSig) -> (free: bool)
        ensures
            free == (candidate != 0 && !self@.usage_map.contains_key(candidate)),
    {
        candidate != 0 && !self.usage_map.contains_key(&candidate)
    }

    /// Whether `candidate` can become a new usage of the service `sig`.
    fn usage_sig_free(&self, sig: ServiceSig, candidate: UsageSig) -> (free: bool)
        ensures
            free == !(self@.usage_map.contains_key(sig) && self@.usage_map[sig].contains(
                candidate,
            )),
    {
        match self.usage_map.get(&sig) {
            Some(usages) => !usages.contains(&candidate),
            None => true,
        }
    }

    /// Draws signatures until one can become the signature of a new
    /// service, `MAX_DRAWS` times at most.
    fn draw_service_sig(&self) -> (drawn: Option<ServiceSig>)
        ensures
            drawn matches Some(sig) ==> sig != 0 && !self@.usage_map.contains_key(sig),
    {
        let mut draws: usize = 0;
        while draws < MAX_DRAWS
            invariant
                draws <= MAX_DRAWS,
            decreases MAX_DRAWS - draws,
        {
            let candidate = gen_sig();
            if self.service_sig_free(candidate) {
                return Some(candidate);
            }
            draws = draws + 1;
        }
        None
    }

    /// Draws signatures until one can become a new usage of the service
    /// `sig`, `MAX_DRAWS` times at most. What comes back is taken by no
    /// usage of `sig`. Where no usage signature is taken under `sig`, the
    /// first draw is accepted whatever it is, so one comes back.
    fn draw_usage_sig(&self, sig: ServiceSig) -> (drawn: Option<UsageSig>)
        ensures
            drawn matches Some(usage) ==> !self@.taken(sig).contains(usage),
            self@.taken(sig).is_empty() ==> drawn is Some,
    {
        let mut draws: usize = 0;
        while draws < MAX_DRAWS
            invariant
                draws <= MAX_DRAWS,
                self@.taken(sig).is_empty() ==> draws == 0,
            decreases MAX_DRAWS - draws,
        {
            let candidate = gen_sig();
            if self.usage_sig_free(sig, candidate) {
                return Some(candidate);
            }
            draws = draws + 1;
        }
        None
    }

    /// Enters a new service under `name` with the signature `sig` and no
    /// usage yet.
    fn insert_service_map(&mut self, name: &String, sig: ServiceSig)
        ensures
            final(self)@ == (RegistryView {
                service_map: old(self)@.service_map.insert(name@, sig),
                usage_map: old(self)@.usage_map.insert(sig, Set::empty()),
                ..old(self)@
            }),
            final(self).root_spec() == old(self).root_spec(),
    {
        self.service_map.insert(name.clone(), sig);
        self.usage_map.insert(sig, BTreeSet::new());
        assert(self@.usage_map =~= old(self)@.usage_map.insert(sig, Set::empty()));
        assert(self@.services =~= old(self)@.services);
    }

    /// Adds `usage` to the usages of the service `sig`.
    fn insert_usage_map(&mut self, sig: ServiceSig, usage: UsageSig)
        requires
            old(self)@.usage_map.contains_key(sig),
        ensures
            final(self)@ == (RegistryView {
                usage_map: old(self)@.usage_map.insert(
                    sig,
                    old(self)@.usage_map[sig].insert(usage),
                ),
                ..old(self)@
            }),
            final(self).root_spec() == old(self).root_spec(),
    {
        if let Some(mut usages) = self.usage_map.remove(&sig) {
            usages.insert(usage);
            self.usage_map.insert(sig, usages);
        }
        assert(self@.usage_map =~= old(self)@.usage_map.insert(
            sig,
            old(self)@.usage_map[sig].insert(usage),
        ));
        assert(self@.services =~= old(self)@.services);
    }

    /// Takes `usage` out of the usages of the service `sig`.
    fn remove_usage(&mut self, sig: ServiceSig, usage: UsageSig)
        requires
            old(self)@.usage_map.contains_key(sig),
        ensures
            final(self)@ == (RegistryView {
                usage_map: old(self)@.usage_map.insert(
                    sig,
                    old(self)@.usage_map[sig].remove(usage),
                ),
                ..old(self)@
            }),
            final(self).root_spec() == old(self).root_spec(),
    {
        if let Some(mut usages) = self.usage_map.remove(&sig) {
            usages.remove(&usage);
            self.usage_map.insert(sig, usages);
        }
        assert(self@.usage_map =~= old(self)@.usage_map.insert(
            sig,
            old(self)@.usage_map[sig].remove(usage),
        ));
        assert(self@.services =~= old(self)@.services);
    }

    /// Keeps the loaded service under the signature `sig`.
    fn insert_service(&mut self, sig: ServiceSig, service: Service)
        ensures
            final(self)@ == (RegistryView {
                services: old(self)@.services.insert(sig, service),
                ..old(self)@
            }),
            final(self).root_spec() == old(self).root_spec(),
    {
        self.services.insert(sig, Arc::new(service));
        assert(self@.usage_map =~= old(self)@.usage_map);
        assert(self@.services =~= old(self)@.services.insert(sig, service));
    }

    /// Tears the service `sig` of `name` down if no usage of it is left:
    /// it goes from all three indexes, and the loaded service is dropped.
    fn cleanup(&mut self, name: &str, sig: ServiceSig)
        ensures
            final(self)@ == (if old(self)@.usage_map.contains_key(sig)
                && old(self)@.usage_map[sig].is_empty() {
                RegistryView {
                    service_map: old(self)@.service_map.remove(name@),
                    usage_map: old(self)@.usage_map.remove(sig),
                    services: old(self)@.services.remove(sig),
                }
            } else {
                old(self)@
            }),
            final(self).root_spec() == old(self).root_spec(),
    {
        let unused = match self.usage_map.get(&sig) {
            Some(usages) => usages.is_empty(),
            None => false,
        };
        if unused {
            self.usage_map.remove(&sig);
            self.service_map.remove(name);
            self.services.remove(&sig);
            assert(self@.usage_map =~= old(self)@.usage_map.remove(sig));
            assert(self@.services =~= old(self)@.services.remove(sig));
        }
    }

    /// Registers one more usage of `name` with the given candidate
    /// signatures, and returns the handle as a decimal string.
    ///
    /// Under a name that is loaded, `fresh` is dropped and only the usage
    /// candidate counts. Under a new name, `fresh` is the loaded service
    /// and becomes live under the service candidate.
    pub fn register_with(
        &mut self,
        name: &String,
        fresh: Option<Service>,
        service: ServiceSig,
        usage: UsageSig,
    ) -> (registered: Result<String, ErrorKind>)
        requires
            old(self).wf(),
        ensures
            final(self).wf(),
            final(self).root_spec() == old(self).root_spec(),
            match old(self)@.register_outcome(name@, fresh, service, usage) {
                Ok((handle, view)) => {
                    &&& registered matches Ok(text)
                    &&& text@ == decimal(handle as nat)
                    &&& parse_decimal(text@) == Some(handle)
                    &&& final(self)@ == view
                },
                Err(kind) => {
                    &&& registered == Err::<String, ErrorKind>(kind)
                    &&& final(self)@ == old(self)@
                },
            },
    {
        let sig = match self.lookup(name.as_str()) {
            Some(sig) => {
                if !self.usage_sig_free(sig, usage) {
                    return Err(ErrorKind::RegistryExhausted);
                }
                sig
            },
            None => {
                let loaded = match fresh {
                    Some(loaded) => loaded,
                    None => {
                        return Err(ErrorKind::EntryMissing);
                    },
                };
                if !self.service_sig_free(service) {
                    return Err(ErrorKind::RegistryExhausted);
                }
                self.insert_service_map(name, service);
                self.insert_service(service, loaded);
                service
            },
        };
        self.insert_usage_map(sig, usage);
        proof {
            let next = old(self)@.with_registration(name@, service, usage, fresh);
            assert(self@.usage_map =~= next.usage_map);
            assert(self@.service_map =~= next.service_map);
            assert(self@.services =~= next.services);
            old(self)@.lemma_registration_consistent(name@, fresh, service, usage);
        }
        Ok(format_handle(pack(sig, usage)))
    }

    /// Registers one more usage of `name` and returns its handle as a
    /// decimal string. `fresh` is the loaded service where the name is not
    /// loaded yet; where it is, `fresh` is dropped.
    ///
    /// The signatures are drawn at random. Whatever is drawn, a handle that
    /// comes back is the outcome of `register_with` on the two signatures
    /// that it packs. A new name without a loaded service is refused as
    /// `EntryMissing`; the only other failure is `RegistryExhausted`, when
    /// `MAX_DRAWS` draws gave no unused signature.
    pub fn register(&mut self, name: &String, fresh: Option<Service>) -> (registered: Result<
        String,
        ErrorKind,
    >)
        requires
            old(self).wf(),
        ensures
            final(self).wf(),
            final(self).root_spec() == old(self).root_spec(),
            match registered {
                Ok(text) => {
                    &&& parse_decimal(text@) matches Some(handle)
                    &&& text@ == decimal(handle as nat)
                    &&& old(self)@.register_outcome(
                        name@,
                        fresh,
                        service_part(handle),
                        usage_part(handle),
                    ) == Ok::<(u64, RegistryView), ErrorKind>((handle, final(self)@))
                },
                Err(kind) => {
                    &&& final(self)@ == old(self)@
                    &&& kind == ErrorKind::EntryMissing || kind == ErrorKind::RegistryExhausted
                },
            },
            registered == Err::<String, ErrorKind>(ErrorKind::EntryMissing) <==> !old(
                self,
            )@.service_map.contains_key(name@) && fresh is None,
    {
        let (service, usage) = match self.lookup(name.as_str()) {
            Some(sig) => {
                match self.draw_usage_sig(sig) {
                    Some(usage) => (sig, usage),
                    None => {
                        return Err(ErrorKind::RegistryExhausted);
                    },
                }
            },
            None => {
                if fresh.is_none() {
                    return Err(ErrorKind::EntryMissing);
                }
                match self.draw_service_sig() {
                    Some(service) => (service, gen_sig()),
                    None => {
                        return Err(ErrorKind::RegistryExhausted);
                    },
                }
            },
        };
        proof {
            crate::handle::lemma_split_of_pack(old(self)@.service_for(name@, service), usage);
            crate::handle::lemma_parse_of_decimal(
                handle_of(old(self)@.service_for(name@, service), usage),
            );
        }
        self.register_with(name, fresh, service, usage)
    }

    /// Releases the usage that the handle string `srv_use_sig` names, if
    /// `name` is loaded under the handle's service signature. A string that
    /// is no number counts as the invalid handle, which releases nothing.
    /// The service is torn down when its last usage goes.
    pub fn unregister(&mut self, name: &String, srv_use_sig: &String)
        requires
            old(self).wf(),
        ensures
            final(self).wf(),
            final(self).root_spec() == old(self).root_spec(),
            final(self)@ == old(self)@.without_registration(
                name@,
                handle_or_invalid(srv_use_sig@),
            ),
    {
        let handle = match parse_handle(srv_use_sig.as_str()) {
            Some(handle) => handle,
            None => INVALID_HANDLE,
        };
        let (service_sig, usage_sig) = split(handle);
        if let Some(sig) = self.lookup(name.as_str()) {
            if sig == service_sig {
                self.remove_usage(sig, usage_sig);
                self.cleanup(name.as_str(), sig);
                proof {
                    let next = old(self)@.without_registration(name@, handle);
                    assert(self@.usage_map =~= next.usage_map);
                    assert(self@.service_map =~= next.service_map);
                    assert(self@.services =~= next.services);
                }
            }
        }
        proof {
            old(self)@.lemma_release_consistent(name@, handle);
        }
    }

    /// Resolves a handle: its two signatures and the loaded service, if the
    /// service is live and the usage is one of its own.
    pub fn resolve(&self, handle: u64) -> (found: Option<(ServiceSig, UsageSig, &Service)>)
        requires
            self.wf(),
        ensures
            match found {
                Some((sig, usage, service)) => self@.resolved(handle) == Some(
                    (sig, usage, *service),
                ),
                None => self@.resolved(handle) is None,
            },
    {
        let (sig, usage) = split(handle);
        if self.usage_sig_free(sig, usage) {
            return None;
        }
        match self.services.get(&sig) {
            Some(service) => Some((sig, usage, &**service)),
            None => None,
        }
    }

    /// Pins the service that a handle resolves to: hands out a pointer
    /// that keeps the loaded service alive for as long as it is held, also
    /// after the registry has torn the service down.
    pub fn pin(&self, handle: u64) -> (pinned: Option<Arc<Service>>)
        requires
            self.wf(),
        ensures
            match pinned {
                Some(service) => self@.resolved(handle) matches Some(found) && found.2 == *service,
                None => self@.resolved(handle) is None,
            },
    {
        let (sig, usage) = split(handle);
        if self.usage_sig_free(sig, usage) {
            return None;
        }
        match self.services.get(&sig) {
            Some(service) => Some(share(service)),
            None => None,
        }
    }
}

} // verus!
