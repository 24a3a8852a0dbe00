//! What holds of a registry over any sequence of registrations and
//! releases.

use crate::error::ErrorKind;
use crate::handle::{
    handle_of, lemma_pack_of_split, lemma_split_of_pack, service_part, usage_part, ServiceSig,
    UsageSig, INVALID_HANDLE,
};
use crate::registry::RegistryView;
use crate::service::Service;
use vstd::prelude::*;

verus! {

/// One operation on a registry, with everything that decides its outcome.
pub enum Op {
    /// A registration of `name` with the two signatures that were drawn,
    /// `fresh` holding the loaded service if one was handed over.
    Register { name: Seq<char>, fresh: Option<Service>, service: ServiceSig, usage: UsageSig },
    /// A release of `handle` under `name`.
    Unregister { name: Seq<char>, handle: u64 },
}

impl RegistryView {
    /// The indexes after one operation. A registration that is refused
    /// leaves them as they are.
    pub open spec fn apply(self, op: Op) -> RegistryView {
        match op {
            Op::Register { name, fresh, service, usage } => match self.register_outcome(
                name,
                fresh,
                service,
                usage,
            ) {
                Ok((_, next)) => next,
                Err(_) => self,
            },
            Op::Unregister { name, handle } => self.without_registration(name, handle),
        }
    }

    /// The indexes after a sequence of operations, first to last.
    pub open spec fn run(self, ops: Seq<Op>) -> RegistryView
        decreases ops.len(),
    {
        if ops.len() == 0 {
            self
        } else {
            self.run(ops.drop_last()).apply(ops.last())
        }
    }

    /// Whether `op` is a registration of `name` that goes through here.
    pub open spec fn registers(self, op: Op, name: Seq<char>) -> bool {
        op matches Op::Register { name: target, fresh, service, usage } && target == name
            && self.register_outcome(name, fresh, service, usage) is Ok
    }

    /// Whether `op` releases a usage of `name` that is live here.
    pub open spec fn releases(self, op: Op, name: Seq<char>) -> bool {
        op matches Op::Unregister { name: target, handle } && target == name && self.holds(
            name,
            handle,
        )
    }

    /// How many operations of `ops` are registrations of `name` that go
    /// through.
    pub open spec fn registrations(self, ops: Seq<Op>, name: Seq<char>) -> nat
        decreases ops.len(),
    {
        if ops.len() == 0 {
            0
        } else {
            self.registrations(ops.drop_last(), name) + (if self.run(ops.drop_last()).registers(
                ops.last(),
                name,
            ) {
                1nat
            } else {
                0nat
            })
        }
    }

    /// How many operations of `ops` release a usage of `name` that is live
    /// when they run.
    pub open spec fn matching_releases(self, ops: Seq<Op>, name: Seq<char>) -> nat
        decreases ops.len(),
    {
        if ops.len() == 0 {
            0
        } else {
            self.matching_releases(ops.drop_last(), name) + (if self.run(
                ops.drop_last(),
            ).releases(ops.last(), name) {
                1nat
            } else {
                0nat
            })
        }
    }

    /// One operation keeps the indexes consistent.
    pub proof fn lemma_apply_consistent(self, op: Op)
        requires
            self.consistent(),
        ensures
            self.apply(op).consistent(),
    {
        match op {
            Op::Register { name, fresh, service, usage } => {
                if self.register_outcome(name, fresh, service, usage) is Ok {
                    self.lemma_registration_consistent(name, fresh, service, usage);
                }
            },
            Op::Unregister { name, handle } => {
                self.lemma_release_consistent(name, handle);
            },
        }
    }

    /// At every point of every sequence of registrations and releases, the
    /// three indexes agree: a name is loaded exactly when its signature is
    /// in both other indexes, which hold the same signatures, each of them
    /// under some name.
    pub proof fn lemma_run_consistent(self, ops: Seq<Op>)
        requires
            self.consistent(),
        ensures
            self.run(ops).consistent(),
            forall|name: Seq<char>| #[trigger]
                self.run(ops).service_map.contains_key(name) ==> self.run(
                    ops,
                ).services.contains_key(self.run(ops).service_map[name]) && self.run(
                    ops,
                ).usage_map.contains_key(self.run(ops).service_map[name]),
            forall|sig: ServiceSig| #[trigger]
                self.run(ops).services.contains_key(sig) <==> self.run(ops).usage_map.contains_key(
                    sig,
                ),
            forall|sig: ServiceSig| #[trigger]
                self.run(ops).services.contains_key(sig) ==> self.run(ops).named(sig),
        decreases ops.len(),
    {
        if ops.len() > 0 {
            self.lemma_run_consistent(ops.drop_last());
            self.run(ops.drop_last()).lemma_apply_consistent(ops.last());
        }
        let end = self.run(ops);
        assert forall|sig: ServiceSig| #[trigger] end.services.contains_key(sig) implies end.named(
            sig,
        ) by {
            assert(end.usage_map.contains_key(sig));
        }
    }

    /// A name is loaded exactly when it has a usage outstanding.
    pub proof fn lemma_usage_count_zero(self, name: Seq<char>)
        requires
            self.consistent(),
        ensures
            self.usage_count(name) == 0 <==> !self.service_map.contains_key(name),
    {
        if self.service_map.contains_key(name) {
            assert(self.usage_map.contains_key(self.service_map[name]));
        }
    }

    /// A live handle is held under the one name of its service.
    pub proof fn lemma_resolved_is_held(self, handle: u64)
        requires
            self.consistent(),
            self.resolved(handle) is Some,
        ensures
            exists|name: Seq<char>| self.holds(name, handle),
    {
        let sig = service_part(handle);
        assert(self.usage_map.contains_key(sig));
        assert(self.named(sig));
        let owner = choose|owner: Seq<char>| #[trigger]
            self.service_map.contains_key(owner) && self.service_map[owner] == sig;
        assert(self.holds(owner, handle));
    }

    /// Any operation but the release of `handle` under its own name leaves
    /// a live handle live, with the same signatures and the same service.
    pub proof fn lemma_apply_keeps_handle(self, op: Op, name: Seq<char>, handle: u64)
        requires
            self.consistent(),
            self.holds(name, handle),
            op != (Op::Unregister { name, handle }),
        ensures
            self.apply(op).holds(name, handle),
            self.apply(op).resolved(handle) == self.resolved(handle),
            self.resolved(handle) matches Some(found) && found.0 == service_part(handle),
    {
        let sig = service_part(handle);
        let usage = usage_part(handle);
        assert(self.services.contains_key(sig));
        match op {
            Op::Register { name: target, fresh, service, usage: drawn } => {},
            Op::Unregister { name: target, handle: released } => {
                if self.service_map.contains_key(target) && self.service_map[target]
                    == service_part(released) && service_part(released) == sig {
                    assert(target == name);
                    lemma_pack_of_split(handle);
                    lemma_pack_of_split(released);
                    assert(usage_part(released) != usage);
                    let rest = self.usage_map[sig].remove(usage_part(released));
                    assert(rest.contains(usage));
                }
            },
        }
    }

    /// A handle that a registration returned resolves, to the same service
    /// signature and the same service, until it is released under its
    /// name, whatever else is registered or released meanwhile.
    pub proof fn lemma_run_keeps_handle(self, ops: Seq<Op>, name: Seq<char>, handle: u64)
        requires
            self.consistent(),
            self.holds(name, handle),
            forall|i: int| 0 <= i < ops.len() ==> #[trigger] ops[i] != (Op::Unregister {
                name,
                handle,
            }),
        ensures
            self.run(ops).holds(name, handle),
            self.run(ops).resolved(handle) == self.resolved(handle),
            self.run(ops).resolved(handle) matches Some(found) && found.0 == service_part(handle),
        decreases ops.len(),
    {
        if ops.len() == 0 {
            assert(self.services.contains_key(service_part(handle)));
        } else {
            let before = ops.drop_last();
            assert forall|i: int| 0 <= i < before.len() implies #[trigger] before[i] != (
            Op::Unregister { name, handle }) by {
                assert(before[i] == ops[i]);
            }
            self.lemma_run_keeps_handle(before, name, handle);
            self.lemma_run_consistent(before);
            assert(ops.last() == ops[ops.len() - 1]);
            self.run(before).lemma_apply_keeps_handle(ops.last(), name, handle);
        }
    }

    /// A registration that goes through returns a handle that is then held
    /// under the name.
    pub proof fn lemma_registration_holds(
        self,
        name: Seq<char>,
        fresh: Option<Service>,
        service: ServiceSig,
        usage: UsageSig,
    )
        requires
            self.consistent(),
            self.register_outcome(name, fresh, service, usage) is Ok,
        ensures
            self.register_outcome(name, fresh, service, usage) matches Ok((handle, next))
                && next.holds(name, handle) && !self.holds(name, handle),
    {
        lemma_split_of_pack(self.service_for(name, service), usage);
    }

    /// One operation changes the number of outstanding usages of a name by
    /// one up if it registers the name, by one down if it releases a live
    /// usage of the name, and not at all otherwise.
    pub proof fn lemma_apply_usage_count(self, op: Op, name: Seq<char>)
        requires
            self.consistent(),
        ensures
            self.apply(op).usage_count(name) + (if self.releases(op, name) {
                1nat
            } else {
                0nat
            }) == self.usage_count(name) + (if self.registers(op, name) {
                1nat
            } else {
                0nat
            }),
    {
        let next = self.apply(op);
        self.lemma_apply_consistent(op);
        if self.service_map.contains_key(name) {
            assert(self.usage_map.contains_key(self.service_map[name]));
        }
        match op {
            Op::Register { name: target, fresh, service, usage } => {
                if self.register_outcome(target, fresh, service, usage) is Ok {
                    if self.service_map.contains_key(target) {
                        let sig = self.service_map[target];
                        assert(self.usage_map.contains_key(sig));
                        vstd::set::axiom_set_insert_len(self.usage_map[sig], usage);
                    } else {
                        vstd::set::axiom_set_insert_len(Set::<UsageSig>::empty(), usage);
                    }
                }
            },
            Op::Unregister { name: target, handle } => {
                let sig = service_part(handle);
                if self.service_map.contains_key(target) && self.service_map[target] == sig
                    && self.usage_map.contains_key(sig) {
                    let rest = self.usage_map[sig].remove(usage_part(handle));
                    vstd::set::axiom_set_remove_len(self.usage_map[sig], usage_part(handle));
                    vstd::set::axiom_set_remove_finite(self.usage_map[sig], usage_part(handle));
                    vstd::set_lib::lemma_set_empty_equivalency_len(rest);
                    if target != name && self.service_map.contains_key(name) {
                        assert(self.service_map[name] != sig);
                    }
                }
            },
        }
    }

    /// Over any sequence of operations, the outstanding usages of a name
    /// are those it had, plus its registrations, less its matching
    /// releases.
    pub proof fn lemma_run_usage_count(self, ops: Seq<Op>, name: Seq<char>)
        requires
            self.consistent(),
        ensures
            self.run(ops).usage_count(name) + self.matching_releases(ops, name)
                == self.usage_count(name) + self.registrations(ops, name),
        decreases ops.len(),
    {
        if ops.len() > 0 {
            self.lemma_run_usage_count(ops.drop_last(), name);
            self.lemma_run_consistent(ops.drop_last());
            self.run(ops.drop_last()).lemma_apply_usage_count(ops.last(), name);
        }
    }

    /// Once a name that was not loaded has been registered and released
    /// equally often, in any interleaving and among any other operations,
    /// it is not loaded.
    pub proof fn lemma_balanced_name_is_unloaded(self, ops: Seq<Op>, name: Seq<char>)
        requires
            self.consistent(),
            !self.service_map.contains_key(name),
            self.registrations(ops, name) == self.matching_releases(ops, name),
        ensures
            !self.run(ops).service_map.contains_key(name),
    {
        self.lemma_run_usage_count(ops, name);
        self.lemma_run_consistent(ops);
        self.lemma_usage_count_zero(name);
        self.run(ops).lemma_usage_count_zero(name);
    }

    /// Two registrations of one name, one after the other, return distinct
    /// handles with the same service signature.
    pub proof fn lemma_registrations_share_service(
        self,
        name: Seq<char>,
        first: (Option<Service>, ServiceSig, UsageSig),
        second: (Option<Service>, ServiceSig, UsageSig),
    )
        requires
            self.consistent(),
            self.register_outcome(name, first.0, first.1, first.2) is Ok,
            self.apply(
                Op::Register { name, fresh: first.0, service: first.1, usage: first.2 },
            ).register_outcome(name, second.0, second.1, second.2) is Ok,
        ensures
            ({
                let one = self.register_outcome(name, first.0, first.1, first.2).unwrap();
                let two = one.1.register_outcome(name, second.0, second.1, second.2).unwrap();
                &&& one.0 != two.0
                &&& service_part(one.0) == service_part(two.0)
                &&& service_part(one.0) == two.1.service_map[name]
            }),
    {
        let one = self.register_outcome(name, first.0, first.1, first.2).unwrap();
        let sig = self.service_for(name, first.1);
        lemma_split_of_pack(sig, first.2);
        lemma_split_of_pack(sig, second.2);
        assert(one.1.service_map.contains_key(name) && one.1.service_map[name] == sig);
        assert(one.1.usage_map[sig].contains(first.2));
    }

    /// The invalid handle resolves to nothing, and releasing it changes
    /// nothing.
    pub proof fn lemma_invalid_handle_is_inert(self, name: Seq<char>)
        requires
            self.consistent(),
        ensures
            self.resolved(INVALID_HANDLE) is None,
            self.without_registration(name, INVALID_HANDLE) == self,
    {
        if self.service_map.contains_key(name) {
            assert(self.usage_map.contains_key(self.service_map[name]));
        }
    }
}

} // verus!
