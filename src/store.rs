use crate::chat_service::{views_of, Message, MessageView};
use vstd::prelude::*;

verus! {

/// A recorded relay: `target` is the mirrored copy of `source`.
pub struct Edge {
    pub source: Message,
    pub target: Message,
}

pub struct EdgeView {
    pub source: MessageView,
    pub target: MessageView,
}

impl View for Edge {
    type V = EdgeView;

    open spec fn view(&self) -> EdgeView {
        EdgeView { source: self.source@, target: self.target@ }
    }
}

/// Raised when a mirrored message would get a second, different origin.
pub struct IntegrityError {
    /// The origin already recorded for the target.
    pub recorded_origin: Message,
}

/// The append-only index from each message to its mirrored copies.
pub struct CorrelationStore {
    edges: Vec<Edge>,
}

/// Targets recorded for `s`, in the order they were recorded.
pub open spec fn relays_of(edges: Seq<EdgeView>, s: MessageView) -> Seq<MessageView>
    decreases edges.len(),
{
    if edges.len() == 0 {
        Seq::empty()
    } else {
        let rest = relays_of(edges.drop_last(), s);
        if edges.last().source == s {
            rest.push(edges.last().target)
        } else {
            rest
        }
    }
}

/// The source recorded for target `t`, if any (the latest one, should there be several).
pub open spec fn origin_of(edges: Seq<EdgeView>, t: MessageView) -> Option<MessageView>
    decreases edges.len(),
{
    if edges.len() == 0 {
        None
    } else if edges.last().target == t {
        Some(edges.last().source)
    } else {
        origin_of(edges.drop_last(), t)
    }
}

/// Every target has at most one edge.
pub open spec fn targets_unique(edges: Seq<EdgeView>) -> bool {
    forall|i: int, j: int|
        0 <= i < j < edges.len() ==> #[trigger] edges[i].target != #[trigger] edges[j].target
}

/// Whether recording `s -> t` is accepted in a store holding `edges`.
pub open spec fn record_accepted(edges: Seq<EdgeView>, s: MessageView, t: MessageView) -> bool {
    match origin_of(edges, t) {
        None => true,
        Some(o) => o == s,
    }
}

/// The edges after recording `s -> t`: appended when `t` is new, else unchanged.
pub open spec fn recorded(edges: Seq<EdgeView>, s: MessageView, t: MessageView) -> Seq<EdgeView> {
    if origin_of(edges, t) is None {
        edges.push(EdgeView { source: s, target: t })
    } else {
        edges
    }
}

impl View for CorrelationStore {
    type V = Seq<EdgeView>;

    closed spec fn view(&self) -> Seq<EdgeView> {
        self.edges@.map_values(|e: Edge| e@)
    }
}

impl CorrelationStore {
    pub open spec fn wf(&self) -> bool {
        targets_unique(self@)
    }

    pub fn new() -> (r: CorrelationStore)
        ensures
            r@ == Seq::<EdgeView>::empty(),
            r.wf(),
    {
        CorrelationStore { edges: Vec::new() }
    }

    pub fn len(&self) -> (r: usize)
        ensures
            r == self@.len(),
    {
        self.edges.len()
    }
}

/// A target that no edge mentions has no origin, and the converse.
pub proof fn lemma_origin_none(edges: Seq<EdgeView>, t: MessageView)
    ensures
        origin_of(edges, t) is None <==> forall|i: int| 0 <= i < edges.len() ==> #[trigger] edges[i].target != t,
    decreases edges.len(),
{
    if edges.len() > 0 {
        lemma_origin_none(edges.drop_last(), t);
        if origin_of(edges, t) is None {
            assert forall|i: int| 0 <= i < edges.len() implies #[trigger] edges[i].target != t by {
                if i < edges.len() - 1 {
                    assert(edges.drop_last()[i] == edges[i]);
                }
            }
        } else {
            if edges.last().target != t {
                let j = choose|j: int| 0 <= j < edges.drop_last().len() && #[trigger] edges.drop_last()[j].target == t;
                assert(edges[j] == edges.drop_last()[j]);
            }
        }
    }
}

/// An origin that is found belongs to an edge whose target is `t`.
pub proof fn lemma_origin_some(edges: Seq<EdgeView>, t: MessageView)
    ensures
        origin_of(edges, t) matches Some(o) ==> exists|i: int|
            0 <= i < edges.len() && #[trigger] edges[i] == (EdgeView { source: o, target: t }),
    decreases edges.len(),
{
    if edges.len() > 0 {
        lemma_origin_some(edges.drop_last(), t);
        if edges.last().target != t {
            if let Some(o) = origin_of(edges, t) {
                let j = choose|j: int| 0 <= j < edges.drop_last().len() && #[trigger] edges.drop_last()[j] == (EdgeView { source: o, target: t });
                assert(edges[j] == edges.drop_last()[j]);
            }
        }
    }
}

/// In a store with unique targets, the edge that names `t` gives its origin.
pub proof fn lemma_origin_of_edge(edges: Seq<EdgeView>, i: int)
    requires
        targets_unique(edges),
        0 <= i < edges.len(),
    ensures
        origin_of(edges, edges[i].target) == Some(edges[i].source),
    decreases edges.len(),
{
    if i < edges.len() - 1 {
        assert(edges.drop_last()[i] == edges[i]);
        assert(edges.last().target != edges[i].target);
        lemma_origin_of_edge(edges.drop_last(), i);
    }
}

/// The message that `relayed` was relayed from, if it was. Targets are unique in a
/// well-formed store, so there is never more than one.
pub fn message_origin(store: &CorrelationStore, relayed: &Message) -> (r: Option<Message>)
    ensures
        r matches Some(m) ==> origin_of(store@, relayed@) == Some(m@),
        r is None ==> origin_of(store@, relayed@) is None,
{
    let ghost v = store@;
    let mut found: Option<usize> = None;
    let mut i: usize = 0;
    while i < store.edges.len()
        invariant
            i <= store.edges.len(),
            v == store@,
            found matches Some(k) ==> k < i && origin_of(v.subrange(0, i as int), relayed@) == Some(
                v[k as int].source,
            ),
            found is None ==> origin_of(v.subrange(0, i as int), relayed@) is None,
        decreases store.edges.len() - i,
    {
        assert(v.subrange(0, i + 1).drop_last() == v.subrange(0, i as int));
        if store.edges[i].target.same_as(relayed) {
            found = Some(i);
        }
        i = i + 1;
    }
    assert(v.subrange(0, i as int) == v);
    match found {
        Some(k) => Some(store.edges[k].source.copy()),
        None => None,
    }
}

/// Every copy recorded for `source`, in the order the relays were recorded.
pub fn message_relays(store: &CorrelationStore, source: &Message) -> (r: Vec<Message>)
    ensures
        views_of(r@) == relays_of(store@, source@),
{
    let ghost v = store@;
    let mut out: Vec<Message> = Vec::new();
    let mut i: usize = 0;
    while i < store.edges.len()
        invariant
            i <= store.edges.len(),
            v == store@,
            views_of(out@) == relays_of(v.subrange(0, i as int), source@),
        decreases store.edges.len() - i,
    {
        assert(v.subrange(0, i + 1).drop_last() == v.subrange(0, i as int));
        if store.edges[i].source.same_as(source) {
            let t = store.edges[i].target.copy();
            out.push(t);
            assert(views_of(out@) == views_of(out@.drop_last()).push(t@));
        }
        i = i + 1;
    }
    assert(v.subrange(0, i as int) == v);
    out
}

/// Records that `relayed` is the copy of `source`. Recording a known relay again changes
/// nothing; giving a known copy a different origin is refused with the origin on record.
pub fn create_message(store: &mut CorrelationStore, source: Message, relayed: Message) -> (r: Result<
    (),
    IntegrityError,
>)
    requires
        old(store).wf(),
    ensures
        final(store).wf(),
        final(store)@ == recorded(old(store)@, source@, relayed@),
        r is Ok <==> record_accepted(old(store)@, source@, relayed@),
        r matches Err(e) ==> origin_of(old(store)@, relayed@) == Some(e.recorded_origin@),
{
    match message_origin(store, &relayed) {
        Some(o) => {
            if o.same_as(&source) {
                Ok(())
            } else {
                Err(IntegrityError { recorded_origin: o })
            }
        },
        None => {
            proof {
                lemma_origin_none(store@, relayed@);
            }
            store.edges.push(Edge { source, target: relayed });
            proof {
                assert(store@ == old(store)@.push(EdgeView { source: source@, target: relayed@ }));
            }
            Ok(())
        },
    }
}

/// Every target listed for `s` comes from an edge out of `s`.
pub proof fn lemma_relays_are_targets(edges: Seq<EdgeView>, s: MessageView)
    ensures
        forall|k: int|
            0 <= k < relays_of(edges, s).len() ==> exists|i: int|
                0 <= i < edges.len() && #[trigger] edges[i] == (EdgeView {
                    source: s,
                    target: #[trigger] relays_of(edges, s)[k],
                }),
    decreases edges.len(),
{
    if edges.len() > 0 {
        let rest = edges.drop_last();
        lemma_relays_are_targets(rest, s);
        assert forall|k: int| 0 <= k < relays_of(edges, s).len() implies exists|i: int|
            0 <= i < edges.len() && #[trigger] edges[i] == (EdgeView {
                source: s,
                target: #[trigger] relays_of(edges, s)[k],
            }) by {
            if k < relays_of(rest, s).len() {
                let i = choose|i: int| 0 <= i < rest.len() && #[trigger] rest[i] == (EdgeView {
                    source: s,
                    target: relays_of(rest, s)[k],
                });
                assert(edges[i] == rest[i]);
            } else {
                assert(edges[edges.len() - 1] == edges.last());
            }
        }
    }
}

/// With unique targets, no message is listed twice among the relays of `s`.
pub proof fn lemma_relays_distinct(edges: Seq<EdgeView>, s: MessageView)
    requires
        targets_unique(edges),
    ensures
        forall|a: int, b: int|
            0 <= a < b < relays_of(edges, s).len() ==> #[trigger] relays_of(edges, s)[a]
                != #[trigger] relays_of(edges, s)[b],
    decreases edges.len(),
{
    if edges.len() > 0 {
        let rest = edges.drop_last();
        assert(targets_unique(rest)) by {
            assert forall|i: int, j: int| 0 <= i < j < rest.len() implies #[trigger] rest[i].target
                != #[trigger] rest[j].target by {
                assert(rest[i] == edges[i] && rest[j] == edges[j]);
            }
        }
        lemma_relays_distinct(rest, s);
        lemma_relays_are_targets(rest, s);
        if edges.last().source == s {
            let rs = relays_of(rest, s);
            assert forall|k: int| 0 <= k < rs.len() implies #[trigger] rs[k] != edges.last().target by {
                let i = choose|i: int| 0 <= i < rest.len() && #[trigger] rest[i] == (EdgeView {
                    source: s,
                    target: rs[k],
                });
                assert(edges[i] == rest[i]);
                assert(edges[i].target != edges[edges.len() - 1].target);
            }
        }
    }
}

/// An edge `s -> t` puts `t` among the relays of `s`.
pub proof fn lemma_edge_listed(edges: Seq<EdgeView>, s: MessageView, i: int)
    requires
        0 <= i < edges.len(),
        edges[i].source == s,
    ensures
        relays_of(edges, s).contains(edges[i].target),
    decreases edges.len(),
{
    let rest = edges.drop_last();
    if i == edges.len() - 1 {
        assert(relays_of(edges, s).last() == edges[i].target);
    } else {
        assert(rest[i] == edges[i]);
        lemma_edge_listed(rest, s, i);
        let k = choose|k: int| 0 <= k < relays_of(rest, s).len() && relays_of(rest, s)[k] == edges[i].target;
        assert(relays_of(edges, s)[k] == edges[i].target);
    }
}

/// Fan-out keeps order: in a new store, relaying `s` to `t1` and then to `t2` lists
/// `[t1, t2]` as the relays of `s`, gives both targets the origin `s`, and leaves `s`
/// itself without an origin.
pub proof fn lemma_fan_out_in_order(s: MessageView, t1: MessageView, t2: MessageView)
    requires
        t1 != t2,
        s != t1,
        s != t2,
    ensures
        ({
            let e0 = Seq::<EdgeView>::empty();
            let e1 = recorded(e0, s, t1);
            let e2 = recorded(e1, s, t2);
            &&& record_accepted(e0, s, t1)
            &&& record_accepted(e1, s, t2)
            &&& relays_of(e2, s) == seq![t1, t2]
            &&& origin_of(e2, t1) == Some(s)
            &&& origin_of(e2, t2) == Some(s)
            &&& origin_of(e2, s) is None
        }),
{
    let e0 = Seq::<EdgeView>::empty();
    let e1 = recorded(e0, s, t1);
    let e2 = recorded(e1, s, t2);
    assert(origin_of(e0, t1) is None);
    assert(e1 == seq![EdgeView { source: s, target: t1 }]);
    assert(e1.drop_last() == e0);
    assert(origin_of(e0, t2) is None && origin_of(e0, s) is None);
    assert(relays_of(e0, s) == Seq::<MessageView>::empty());
    assert(origin_of(e1, t2) is None);
    assert(e2 == e1.push(EdgeView { source: s, target: t2 }));
    assert(e2.drop_last() == e1);
    assert(relays_of(e1, s) == seq![t1]);
    assert(relays_of(e2, s) == seq![t1, t2]);
    assert(origin_of(e1, s) is None);
    assert(origin_of(e1, t1) == Some(s));
    assert(origin_of(e2, t1) == Some(s));
    assert(origin_of(e2, t2) == Some(s));
    assert(origin_of(e2, s) is None);
}

/// Recording the same relay twice succeeds both times, the second time changes
/// nothing, and the target is then listed exactly once among the relays of the source.
pub proof fn lemma_record_idempotent(edges: Seq<EdgeView>, s: MessageView, t: MessageView)
    requires
        targets_unique(edges),
        record_accepted(edges, s, t),
    ensures
        ({
            let e1 = recorded(edges, s, t);
            let rs = relays_of(e1, s);
            &&& record_accepted(e1, s, t)
            &&& recorded(e1, s, t) == e1
            &&& exists|k: int|
                0 <= k < rs.len() && rs[k] == t && forall|j: int|
                    0 <= j < rs.len() && #[trigger] rs[j] == t ==> j == k
        }),
{
    let e1 = recorded(edges, s, t);
    if origin_of(edges, t) is None {
        lemma_origin_none(edges, t);
        assert(e1.drop_last() == edges);
        assert(origin_of(e1, t) == Some(s));
        assert(targets_unique(e1));
        lemma_edge_listed(e1, s, e1.len() - 1);
    } else {
        lemma_origin_some(edges, t);
        let i = choose|i: int| 0 <= i < edges.len() && #[trigger] edges[i] == (EdgeView { source: s, target: t });
        lemma_edge_listed(edges, s, i);
    }
    lemma_relays_distinct(e1, s);
    let rs = relays_of(e1, s);
    let k = choose|k: int| 0 <= k < rs.len() && rs[k] == t;
    assert forall|j: int| 0 <= j < rs.len() && #[trigger] rs[j] == t implies j == k by {
        if j < k {
            assert(rs[j] != rs[k]);
        } else if k < j {
            assert(rs[k] != rs[j]);
        }
    }
}

/// Once `t` has the origin `s1`, recording it again from any other source is refused
/// and its origin stays `s1`.
pub proof fn lemma_second_origin_refused(
    edges: Seq<EdgeView>,
    s1: MessageView,
    s2: MessageView,
    t: MessageView,
)
    requires
        record_accepted(edges, s1, t),
        s1 != s2,
    ensures
        ({
            let e1 = recorded(edges, s1, t);
            &&& !record_accepted(e1, s2, t)
            &&& recorded(e1, s2, t) == e1
            &&& origin_of(e1, t) == Some(s1)
        }),
{
    let e1 = recorded(edges, s1, t);
    if origin_of(edges, t) is None {
        assert(e1.last().target == t);
    }
}

} // verus!
