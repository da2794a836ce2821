//! Routing targets, decisions and routed requests.

use std::sync::Arc;
use vstd::prelude::*;

use crate::error::{Error, ErrorOf};
use crate::types::{Request, RequestView};

verus! {

/// A decision of an algorithm, as a consumer of any algorithm can read it.
pub trait Decision: Send + Sync {
    /// The model this decision selects.
    spec fn model(&self) -> Seq<char>;

    /// The explanation of the decision, if it has one.
    spec fn explanation(&self) -> Option<Seq<char>>;

    /// The model this decision selected: the name of the routed target.
    fn selected_model(&self) -> (r: &str)
        ensures
            r@ == self.model(),
    ;

    /// A human-readable explanation of the decision, for logs and traces.
    fn reasoning(&self) -> (r: Option<&str>)
        ensures
            match r {
                Some(text) => self.explanation() == Some(text@),
                None => self.explanation() is None,
            },
    ;
}

/// A named routing target, optionally backed by a client that serves its calls. How the name
/// maps to a provider model id is the client's concern.
pub struct LlmTarget<C: ?Sized> {
    /// The routing name an algorithm selects this target by.
    pub semantic_name: String,
    /// The client that serves calls, or `None` to leave them to the host.
    pub llm_client: Option<Arc<C>>,
}

/// A second handle to the same client.
pub fn share_client<C: ?Sized>(client: &Option<Arc<C>>) -> (r: Option<Arc<C>>)
    ensures
        r == *client,
{
    match client {
        Some(client) => Some(client.clone()),
        None => None,
    }
}

impl<C: ?Sized> Clone for LlmTarget<C> {
    fn clone(&self) -> (r: Self)
        ensures
            r == *self,
    {
        LlmTarget {
            semantic_name: self.semantic_name.clone(),
            llm_client: share_client(&self.llm_client),
        }
    }
}

/// Position `i` is the first in `targets` with a target of the given name.
pub open spec fn is_first_named<C: ?Sized>(
    targets: Seq<LlmTarget<C>>,
    name: Seq<char>,
    i: int,
) -> bool {
    &&& 0 <= i < targets.len()
    &&& targets[i].semantic_name@ == name
    &&& forall|j: int| 0 <= j < i ==> #[trigger] targets[j].semantic_name@ != name
}

/// Some target has the given name.
pub open spec fn has_target<C: ?Sized>(targets: Seq<LlmTarget<C>>, name: Seq<char>) -> bool {
    exists|i: int| 0 <= i < targets.len() && #[trigger] targets[i].semantic_name@ == name
}

/// The first target of the given name, if there is one.
pub open spec fn find_target<C: ?Sized>(
    targets: Seq<LlmTarget<C>>,
    name: Seq<char>,
) -> Option<LlmTarget<C>> {
    if exists|i: int| is_first_named(targets, name, i) {
        Some(targets[choose|i: int| is_first_named(targets, name, i)])
    } else {
        None
    }
}

/// A lookup finds a target of the set that has the asked name, and finds one exactly where
/// the set has one.
pub proof fn lemma_find_target<C: ?Sized>(targets: Seq<LlmTarget<C>>, name: Seq<char>)
    ensures
        find_target(targets, name) is Some <==> has_target(targets, name),
        find_target(targets, name) matches Some(t) ==> t.semantic_name@ == name
            && targets.contains(t),
    decreases targets.len(),
{
    if has_target(targets, name) {
        lemma_first_named(targets, name, 0);
    }
    if exists|i: int| is_first_named(targets, name, i) {
        let i = choose|i: int| is_first_named(targets, name, i);
        assert(targets[i].semantic_name@ == name);
    }
}

proof fn lemma_first_named<C: ?Sized>(targets: Seq<LlmTarget<C>>, name: Seq<char>, from: int)
    requires
        has_target(targets, name),
        0 <= from <= targets.len(),
        forall|j: int| 0 <= j < from ==> #[trigger] targets[j].semantic_name@ != name,
    ensures
        exists|i: int| is_first_named(targets, name, i),
    decreases targets.len() - from,
{
    assert(from < targets.len());
    if targets[from].semantic_name@ == name {
        assert(is_first_named(targets, name, from));
    } else {
        lemma_first_named(targets, name, from + 1);
    }
}

/// The set of targets an algorithm may route among.
pub struct LlmTargetSet<C: ?Sized> {
    targets: Vec<LlmTarget<C>>,
}

impl<C: ?Sized> View for LlmTargetSet<C> {
    type V = Seq<LlmTarget<C>>;

    closed spec fn view(&self) -> Seq<LlmTarget<C>> {
        self.targets@
    }
}

impl<C: ?Sized> Clone for LlmTargetSet<C> {
    fn clone(&self) -> (r: Self)
        ensures
            r@ == self@,
    {
        let mut targets: Vec<LlmTarget<C>> = Vec::new();
        for i in 0..self.targets.len()
            invariant
                targets@ == self.targets@.take(i as int),
        {
            targets.push(self.targets[i].clone());
            assert(self.targets@.take(i as int).push(self.targets@[i as int])
                =~= self.targets@.take(i + 1));
        }
        assert(self.targets@.take(self.targets@.len() as int) =~= self.targets@);
        LlmTargetSet { targets }
    }
}

impl<C: ?Sized> LlmTargetSet<C> {
    /// Build a target set from a list of targets.
    pub fn new(targets: Vec<LlmTarget<C>>) -> (r: Self)
        ensures
            r@ == targets@,
    {
        LlmTargetSet { targets }
    }

    /// All targets in the set, in order.
    pub fn targets(&self) -> (r: &[LlmTarget<C>])
        ensures
            r@ == self@,
    {
        self.targets.as_slice()
    }

    /// Look up a target by name. Where several have the name, the first is returned. Errors
    /// exactly if no target has the name.
    pub fn get_target(&self, name: &str) -> (r: Result<LlmTarget<C>, Error>)
        ensures
            match r {
                Ok(target) => find_target(self@, name@) == Some(target),
                Err(error) => find_target(self@, name@) is None && error@
                    == ErrorOf::TargetNotFound(name@),
            },
    {
        let ghost targets = self.targets@;
        let wanted: String = name.to_string();
        for i in 0..self.targets.len()
            invariant
                targets == self.targets@,
                wanted@ == name@,
                forall|j: int| 0 <= j < i ==> #[trigger] targets[j].semantic_name@ != name@,
        {
            if self.targets[i].semantic_name == wanted {
                assert(is_first_named(targets, name@, i as int));
                assert forall|k: int| is_first_named(targets, name@, k) implies k == i by {
                    if k < i {
                        assert(targets[k].semantic_name@ != name@);
                    }
                    if i < k {
                        assert(targets[i as int].semantic_name@ != name@);
                    }
                }
                return Ok(self.targets[i].clone());
            }
        }
        Err(ErrorOf::TargetNotFound(wanted))
    }
}

/// A request paired with the decision that routed it: the unit a client or an offload host is
/// handed to serve.
///
/// The model to call is `decision.selected_model()`. The request's `inbound_model_name` is the
/// name the agent asked for.
pub struct RoutedRequest<D: ?Sized, C: ?Sized> {
    /// The request to serve.
    pub request: Request,
    /// The routing decision behind this call.
    pub decision: Arc<D>,
    /// The client that serves this call by default, or `None` when the routed target has none.
    pub default_client: Option<Arc<C>>,
}

/// The view of a [`RoutedRequest`].
#[verifier::ext_equal]
pub struct RoutedView<V, C: ?Sized> {
    pub request: RequestView,
    pub decision: V,
    pub default_client: Option<Arc<C>>,
}

impl<D: View + ?Sized, C: ?Sized> View for RoutedRequest<D, C> {
    type V = RoutedView<D::V, C>;

    open spec fn view(&self) -> RoutedView<D::V, C> {
        RoutedView {
            request: self.request@,
            decision: self.decision@,
            default_client: self.default_client,
        }
    }
}

impl<D: ?Sized, C: ?Sized> Clone for RoutedRequest<D, C> {
    fn clone(&self) -> (r: Self)
        ensures
            r.request@ == self.request@,
            r.decision == self.decision,
            r.default_client == self.default_client,
    {
        RoutedRequest {
            request: self.request.clone(),
            decision: self.decision.clone(),
            default_client: share_client(&self.default_client),
        }
    }
}

impl<D: ?Sized, C: ?Sized> RoutedRequest<D, C> {
    /// Route `request` to `target`: pair it with `decision` and the target's client.
    pub fn to_target(target: &LlmTarget<C>, request: Request, decision: Arc<D>) -> (r: Self)
        ensures
            r.request == request,
            r.decision == decision,
            r.default_client == target.llm_client,
    {
        RoutedRequest { request, decision, default_client: share_client(&target.llm_client) }
    }
}

} // verus!
