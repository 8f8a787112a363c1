//! Controllers behind one interface: what a registered controller is known
//! by, and the registry of the host.

use crate::text::str_equal;
use vstd::prelude::*;
use vstd::string::StringExecFns;

verus! {

/// The identity of a resource kind: its API group and its kind.
pub struct ResourceIdentity {
    pub group: Seq<char>,
    pub kind: Seq<char>,
}

impl ResourceIdentity {
    /// The full name of the resource kind: `group/kind`.
    pub open spec fn path(self) -> Seq<char> {
        self.group + "/"@ + self.kind
    }

    /// Whether `name` names the resource kind: by its kind alone or by its
    /// full name.
    pub open spec fn answers_to(self, name: Seq<char>) -> bool {
        self.kind == name || self.path() == name
    }
}

/// The place of the first identity that answers to `name`.
pub open spec fn first_answering(identities: Seq<ResourceIdentity>, name: Seq<char>) -> Option<int>
    decreases identities.len(),
{
    if identities.len() == 0 {
        None
    } else {
        match first_answering(identities.drop_last(), name) {
            Some(i) => Some(i),
            None => if identities.last().answers_to(name) {
                Some(identities.len() - 1)
            } else {
                None
            },
        }
    }
}

/// The first identity that answers to a name is one that answers to it,
/// with none before it that does; there is none only where no identity
/// answers to the name.
pub proof fn lemma_first_answering(identities: Seq<ResourceIdentity>, name: Seq<char>)
    ensures
        match first_answering(identities, name) {
            Some(i) => 0 <= i < identities.len() && identities[i].answers_to(name) && forall|j: int|
                0 <= j < i ==> !(#[trigger] identities[j]).answers_to(name),
            None => forall|j: int|
                0 <= j < identities.len() ==> !(#[trigger] identities[j]).answers_to(name),
        },
    decreases identities.len(),
{
    if identities.len() > 0 {
        let front = identities.drop_last();
        lemma_first_answering(front, name);
        assert forall|j: int| 0 <= j < front.len() implies front[j] == identities[j] by {}
        match first_answering(front, name) {
            Some(i) => {
                assert(identities[i] == front[i]);
                assert forall|j: int| 0 <= j < i implies !(#[trigger] identities[j]).answers_to(
                    name,
                ) by {
                    assert(identities[j] == front[j]);
                }
            },
            None => {
                assert forall|j: int| 0 <= j < identities.len() - 1 implies !(
                #[trigger] identities[j]).answers_to(name) by {
                    assert(identities[j] == front[j]);
                }
            },
        }
    }
}

/// What a controller is registered under: the API group and the kind of
/// its resource. It is fixed when the controller is wrapped.
#[derive(Debug)]
pub struct ControllerResourceInfo {
    group: String,
    kind: String,
}

impl View for ControllerResourceInfo {
    type V = ResourceIdentity;

    closed spec fn view(&self) -> ResourceIdentity {
        ResourceIdentity { group: self.group@, kind: self.kind@ }
    }
}

impl ControllerResourceInfo {
    /// The identity of the resource kind `kind` of the API group `group`.
    pub fn new(group: &str, kind: &str) -> (r: ControllerResourceInfo)
        ensures
            r@ == (ResourceIdentity { group: group@, kind: kind@ }),
    {
        ControllerResourceInfo { group: group.to_owned(), kind: kind.to_owned() }
    }

    /// The API group of the resource kind.
    pub fn group(&self) -> (r: &str)
        ensures
            r@ == self@.group,
    {
        self.group.as_str()
    }

    /// The kind of the resource.
    pub fn kind(&self) -> (r: &str)
        ensures
            r@ == self@.kind,
    {
        self.kind.as_str()
    }

    /// The full name of the resource kind: `group/kind`.
    pub fn path(&self) -> (r: String)
        ensures
            r@ == self@.path(),
    {
        String::from_str(self.group.as_str()).concat("/").concat(self.kind.as_str())
    }

    /// Whether `name` names the resource kind: by its kind alone or by its
    /// full name.
    pub fn answers_to(&self, name: &str) -> (r: bool)
        ensures
            r == self@.answers_to(name@),
    {
        if str_equal(self.kind.as_str(), name) {
            true
        } else {
            let path = self.path();
            str_equal(path.as_str(), name)
        }
    }
}

/// The text that stands in a trace for a part of the metadata of a
/// resource: `<NULL>` where the part is missing.
pub fn trace_label<'a>(part: Option<&'a str>) -> (r: &'a str)
    ensures
        r@ == match part {
            Some(text) => text@,
            None => "<NULL>"@,
        },
{
    match part {
        Some(text) => text,
        None => "<NULL>",
    }
}

/// A controller with its resource type hidden: the identity of its resource
/// kind, and the adapter that supplies its schema and starts it.
pub struct DynController<A> {
    info: ControllerResourceInfo,
    adapter: A,
}

impl<A> DynController<A> {
    /// The identity that the controller is registered under.
    pub closed spec fn identity(self) -> ResourceIdentity {
        self.info@
    }

    /// The adapter of the controller.
    pub closed spec fn adapter(self) -> A {
        self.adapter
    }

    /// Wraps the adapter of a controller for the resource kind `info`.
    pub fn new(info: ControllerResourceInfo, adapter: A) -> (r: DynController<A>)
        ensures
            r.identity() == info@,
            r.adapter() == adapter,
    {
        DynController { info, adapter }
    }

    /// The identity that the controller is registered under.
    pub fn info(&self) -> (r: &ControllerResourceInfo)
        ensures
            r@ == self.identity(),
    {
        &self.info
    }

    /// Hands out the adapter, to ask it for the schema or to start it.
    pub fn into_adapter(self) -> (r: A)
        ensures
            r == self.adapter(),
    {
        self.adapter
    }
}

/// The identities of controllers, in their order.
pub open spec fn identities<A>(controllers: Seq<DynController<A>>) -> Seq<ResourceIdentity> {
    Seq::new(controllers.len(), |i: int| controllers[i].identity())
}

/// The place of the first controller that answers to `name`.
pub fn find_controller<A>(controllers: &Vec<DynController<A>>, name: &str) -> (r: Option<usize>)
    ensures
        match r {
            Some(i) => first_answering(identities(controllers@), name@) == Some(i as int) && i
                < controllers.len(),
            None => first_answering(identities(controllers@), name@) is None,
        },
{
    let mut i: usize = 0;
    proof {
        assert(identities(controllers@.take(0)) =~= Seq::<ResourceIdentity>::empty());
    }
    while i < controllers.len()
        invariant
            i <= controllers.len(),
            first_answering(identities(controllers@.take(i as int)), name@) is None,
        decreases controllers.len() - i,
    {
        proof {
            let next = identities(controllers@.take(i + 1));
            assert(next.drop_last() =~= identities(controllers@.take(i as int)));
            assert(next.last() == controllers[i as int].identity());
        }
        if controllers[i].info().answers_to(name) {
            proof {
                lemma_first_answering_extends(controllers@, name@, i + 1);
            }
            return Some(i);
        }
        i = i + 1;
    }
    proof {
        assert(controllers@.take(i as int) =~= controllers@);
    }
    None
}

/// The first answer among the first controllers is the first answer among
/// all of them.
proof fn lemma_first_answering_extends<A>(
    controllers: Seq<DynController<A>>,
    name: Seq<char>,
    k: int,
)
    requires
        0 <= k <= controllers.len(),
        first_answering(identities(controllers.take(k)), name) is Some,
    ensures
        first_answering(identities(controllers), name) == first_answering(
            identities(controllers.take(k)),
            name,
        ),
    decreases controllers.len() - k,
{
    if k == controllers.len() {
        assert(controllers.take(k) =~= controllers);
    } else {
        let next = identities(controllers.take(k + 1));
        assert(next.drop_last() =~= identities(controllers.take(k)));
        lemma_first_answering_extends(controllers, name, k + 1);
    }
}

/// The host of controllers while it is built: the controllers that were
/// registered, in the order of their registration.
pub struct ControllerApp<A> {
    controllers: Vec<DynController<A>>,
}

impl<A> View for ControllerApp<A> {
    type V = Seq<DynController<A>>;

    closed spec fn view(&self) -> Seq<DynController<A>> {
        self.controllers@
    }
}

impl<A> ControllerApp<A> {
    /// A host without controllers.
    pub fn new() -> (r: ControllerApp<A>)
        ensures
            r@ == Seq::<DynController<A>>::empty(),
    {
        ControllerApp { controllers: Vec::new() }
    }

    /// Registers a controller after those that are registered. A resource
    /// kind can be registered more than once.
    pub fn controller(self, controller: DynController<A>) -> (r: ControllerApp<A>)
        ensures
            r@ == self@.push(controller),
    {
        let mut app = self;
        app.controllers.push(controller);
        app
    }

    /// The controllers, in the order of their registration.
    pub fn into_controllers(self) -> (r: Vec<DynController<A>>)
        ensures
            r@ == self@,
    {
        self.controllers
    }
}

/// The identity of a registered controller stays what it was when later
/// controllers are registered, and the identity of the new one is its own.
pub proof fn lemma_identity_is_stable<A>(
    controllers: Seq<DynController<A>>,
    controller: DynController<A>,
)
    ensures
        identities(controllers.push(controller)) == identities(controllers).push(
            controller.identity(),
        ),
{
    assert(identities(controllers.push(controller)) =~= identities(controllers).push(
        controller.identity(),
    ));
}

/// The identity of a controller does not depend on the order of
/// registration: registered before or after another one, it is the same,
/// and so is the other's.
pub proof fn lemma_identity_ignores_order<A>(
    controllers: Seq<DynController<A>>,
    first: DynController<A>,
    second: DynController<A>,
)
    ensures
        ({
            let n = controllers.len() as int;
            let one = identities(controllers.push(first).push(second));
            let other = identities(controllers.push(second).push(first));
            &&& one[n] == first.identity() && other[n + 1] == first.identity()
            &&& one[n + 1] == second.identity() && other[n] == second.identity()
            &&& forall|i: int| 0 <= i < n ==> one[i] == other[i]
        }),
{
}

/// Where one controller alone answers to its kind and to its full name,
/// both names find it.
pub proof fn lemma_kind_and_path_find_the_same(identities: Seq<ResourceIdentity>, i: int)
    requires
        0 <= i < identities.len(),
        forall|j: int|
            0 <= j < identities.len() && j != i ==> !(#[trigger] identities[j]).answers_to(
                identities[i].kind,
            ),
        forall|j: int|
            0 <= j < identities.len() && j != i ==> !(#[trigger] identities[j]).answers_to(
                identities[i].path(),
            ),
    ensures
        first_answering(identities, identities[i].kind) == Some(i),
        first_answering(identities, identities[i].path()) == Some(i),
{
    lemma_first_answering(identities, identities[i].kind);
    lemma_first_answering(identities, identities[i].path());
}

} // verus!
