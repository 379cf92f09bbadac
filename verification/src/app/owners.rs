//! What put a scope tab's pods there, and how many replicas each of those
//! has.

use vstd::prelude::*;

use super::lists::object_said;
use crate::kube::{ObjectRef, ObjectView, Pod, Replicas};
use crate::store::put_at;
use crate::text::{equal, lower, to_lower};

verus! {

/// The owner kinds `kubectl scale` takes.
pub open spec fn scalable(kind: Seq<char>) -> bool {
    kind == "deployment"@ || kind == "statefulset"@ || kind == "replicaset"@
}

pub fn is_scalable(kind: &str) -> (r: bool)
    ensures
        r == scalable(kind@),
{
    equal(kind, "deployment") || equal(kind, "statefulset") || equal(kind, "replicaset")
}

/// The owner kinds `kubectl rollout restart` takes.
pub open spec fn rollable(kind: Seq<char>) -> bool {
    kind == "deployment"@ || kind == "statefulset"@ || kind == "daemonset"@
}

pub fn is_rollable(kind: &str) -> (r: bool)
    ensures
        r == rollable(kind@),
{
    equal(kind, "deployment") || equal(kind, "statefulset") || equal(kind, "daemonset")
}

/// A pod's owner as an object `kubectl` can be asked about.
pub open spec fn owner_view(pod: Pod) -> Option<ObjectView> {
    match pod.owner {
        Some((kind, name)) => Some(
            ObjectView { kind: lower(kind@), namespace: pod.key.namespace@, name: name@ },
        ),
        None => None,
    }
}

/// The pod's owner as an object `kubectl` can be asked about:
/// `deployment/orders-api`.
#[must_use]
pub fn owner_object(pod: &Pod) -> (r: Option<ObjectRef>)
    ensures
        object_said(r) == owner_view(*pod),
{
    match &pod.owner {
        Some((kind, name)) => Some(
            ObjectRef {
                kind: to_lower(kind.as_str()),
                namespace: pod.key.namespace.clone(),
                name: name.clone(),
            },
        ),
        None => None,
    }
}

/// What an owner said about its replicas.
pub struct OwnerRead {
    pub object: ObjectRef,
    pub replicas: Result<Replicas, String>,
}

pub struct OwnerView {
    pub object: ObjectView,
    pub replicas: Result<Replicas, Seq<char>>,
}

pub open spec fn replicas_said(replicas: Result<Replicas, String>) -> Result<Replicas, Seq<char>> {
    match replicas {
        Ok(replicas) => Ok(replicas),
        Err(message) => Err(message@),
    }
}

impl View for OwnerRead {
    type V = OwnerView;

    open spec fn view(&self) -> OwnerView {
        OwnerView { object: self.object@, replicas: replicas_said(self.replicas) }
    }
}

pub open spec fn owner_views(owners: Seq<OwnerRead>) -> Seq<OwnerView> {
    owners.map_values(|owner: OwnerRead| owner@)
}

/// Where an owner stands among those read, or how many there are where it is
/// not among them.
pub open spec fn owner_at(owners: Seq<OwnerView>, object: ObjectView) -> int
    decreases owners.len(),
{
    if owners.len() == 0 || owners[0].object == object {
        0
    } else {
        1 + owner_at(owners.skip(1), object)
    }
}

proof fn lemma_owner_at(owners: Seq<OwnerView>, object: ObjectView, i: int)
    requires
        0 <= i <= owners.len(),
        forall|k: int| 0 <= k < i ==> (#[trigger] owners[k]).object != object,
        i < owners.len() ==> owners[i].object == object,
    ensures
        owner_at(owners, object) == i,
    decreases i,
{
    if i > 0 {
        assert forall|k: int| 0 <= k < i - 1 implies (#[trigger] owners.skip(1)[k]).object
            != object by {
            assert(owners.skip(1)[k] == owners[k + 1]);
        }
        lemma_owner_at(owners.skip(1), object, i - 1);
    }
}

/// What each owner said this run, and the one asked and not yet answered.
pub struct OwnersView {
    pub held: Seq<OwnerView>,
    pub pending: Option<ObjectView>,
}

impl OwnersView {
    pub open spec fn empty() -> Self {
        OwnersView { held: Seq::empty(), pending: None }
    }

    /// Whether an owner has answered, with its counts or without.
    pub open spec fn has(self, object: ObjectView) -> bool {
        owner_at(self.held, object) < self.held.len()
    }

    /// The replica counts of an owner, once they have come back.
    pub open spec fn replicas_of(self, object: ObjectView) -> Option<Replicas> {
        if self.has(object) {
            match self.held[owner_at(self.held, object)].replicas {
                Ok(replicas) => Some(replicas),
                Err(_) => None,
            }
        } else {
            None
        }
    }

    pub open spec fn with(
        self,
        object: ObjectView,
        replicas: Result<Replicas, Seq<char>>,
    ) -> Self {
        OwnersView {
            pending: if self.pending == Some(object) {
                None
            } else {
                self.pending
            },
            held: put_at(
                self.held,
                owner_at(self.held, object),
                OwnerView { object, replicas },
            ),
        }
    }

    pub open spec fn awaiting(self, object: ObjectView) -> Self {
        OwnersView { pending: Some(object), ..self }
    }
}

pub struct Owners {
    pub held: Vec<OwnerRead>,
    pub pending: Option<ObjectRef>,
}

impl View for Owners {
    type V = OwnersView;

    open spec fn view(&self) -> OwnersView {
        OwnersView { held: owner_views(self.held@), pending: object_said(self.pending) }
    }
}

impl Owners {
    #[must_use]
    pub fn new() -> (r: Self)
        ensures
            r@ == OwnersView::empty(),
    {
        let r = Owners { held: Vec::new(), pending: None };
        proof {
            assert(r@.held =~= Seq::<OwnerView>::empty());
        }
        r
    }

    fn find(&self, object: &ObjectRef) -> (r: usize)
        ensures
            r == owner_at(self@.held, object@),
            r <= self.held@.len(),
    {
        let owners = &self.held;
        let mut i: usize = 0;
        while i < owners.len() && !owners[i].object.is(object)
            invariant
                i <= owners@.len(),
                owners@ == self.held@,
                forall|k: int|
                    0 <= k < i ==> (#[trigger] owner_views(owners@)[k]).object != object@,
            decreases owners@.len() - i,
        {
            i = i + 1;
        }
        proof {
            lemma_owner_at(owner_views(owners@), object@, i as int);
        }
        i
    }

    #[must_use]
    pub fn has(&self, object: &ObjectRef) -> (r: bool)
        ensures
            r == self@.has(object@),
    {
        self.find(object) < self.held.len()
    }

    #[must_use]
    pub fn is_pending(&self, object: &ObjectRef) -> (r: bool)
        ensures
            r == (self@.pending == Some(object@)),
    {
        match &self.pending {
            Some(held) => held.is(object),
            None => false,
        }
    }

    #[must_use]
    pub fn replicas_of(&self, object: &ObjectRef) -> (r: Option<Replicas>)
        ensures
            r == self@.replicas_of(object@),
    {
        let at: usize = self.find(object);
        if at < self.held.len() {
            proof {
                assert(owner_views(self.held@)[at as int] == self.held@[at as int]@);
            }
            match &self.held[at].replicas {
                Ok(replicas) => Some(*replicas),
                Err(_) => None,
            }
        } else {
            None
        }
    }

    pub fn put(&mut self, object: ObjectRef, replicas: Result<Replicas, String>)
        ensures
            final(self)@ == old(self)@.with(object@, replicas_said(replicas)),
    {
        if self.is_pending(&object) {
            self.pending = None;
        }
        let at: usize = self.find(&object);
        let ghost before = owner_views(self.held@);
        let read = OwnerRead { object, replicas };
        let ghost entry = read@;
        if at < self.held.len() {
            self.held[at] = read;
            proof {
                assert(owner_views(self.held@) =~= before.update(at as int, entry));
            }
        } else {
            self.held.push(read);
            proof {
                assert(owner_views(self.held@) =~= before.push(entry));
            }
        }
    }

    pub fn await_one(&mut self, object: ObjectRef)
        ensures
            final(self)@ == old(self)@.awaiting(object@),
    {
        self.pending = Some(object);
    }

    pub fn clear(&mut self)
        ensures
            final(self)@ == OwnersView::empty(),
    {
        self.held.clear();
        self.pending = None;
        proof {
            assert(owner_views(self.held@) =~= Seq::<OwnerView>::empty());
        }
    }
}

} // verus!
