use crate::chat_service::{views_of, Message, MessageView};
use crate::store::{
    lemma_origin_of_edge, message_origin, message_relays, origin_of, relays_of, targets_unique,
    CorrelationStore, EdgeView,
};
use vstd::prelude::*;

verus! {

/// The last message of `rs` that lives on `service`.
pub open spec fn last_on_service(rs: Seq<MessageView>, service: Seq<char>) -> Option<MessageView>
    decreases rs.len(),
{
    if rs.len() == 0 {
        None
    } else if rs.last().service == service {
        Some(rs.last())
    } else {
        last_on_service(rs.drop_last(), service)
    }
}

/// The message to thread a reply against on `service`, when the reply's parent is
/// `parent`: the parent's latest mirror there, else the parent's origin if it lives there.
pub open spec fn reply_target(edges: Seq<EdgeView>, service: Seq<char>, parent: MessageView) -> Option<
    MessageView,
> {
    match last_on_service(relays_of(edges, parent), service) {
        Some(m) => Some(m),
        None => match origin_of(edges, parent) {
            Some(o) => if o.service == service {
                Some(o)
            } else {
                None
            },
            None => None,
        },
    }
}

/// Finds the message on `service` that a reply to `parent` should be threaded against.
pub fn resolve_reply_target(store: &CorrelationStore, service: &String, parent: &Message) -> (r: Option<
    Message,
>)
    ensures
        r matches Some(m) ==> reply_target(store@, service@, parent@) == Some(m@),
        r is None ==> reply_target(store@, service@, parent@) is None,
{
    let relays = message_relays(store, parent);
    let ghost rs = relays_of(store@, parent@);
    let mut i: usize = relays.len();
    assert(rs.subrange(0, i as int) == rs);
    while i > 0
        invariant
            i <= relays.len(),
            views_of(relays@) == rs,
            rs == relays_of(store@, parent@),
            last_on_service(rs.subrange(0, i as int), service@) == last_on_service(rs, service@),
        decreases i,
    {
        assert(rs.subrange(0, i as int).drop_last() == rs.subrange(0, i - 1));
        assert(rs[i - 1] == relays@[i - 1]@);
        assert(rs.subrange(0, i as int).last() == rs[i - 1]);
        if relays[i - 1].service == *service {
            let found = relays[i - 1].copy();
            assert(last_on_service(rs.subrange(0, i as int), service@) == Some(found@));
            assert(last_on_service(rs, service@) == Some(found@));
            return Some(found);
        }
        i = i - 1;
    }
    match message_origin(store, parent) {
        Some(o) => if o.service == *service {
            Some(o)
        } else {
            None
        },
        None => None,
    }
}

/// Replies thread across the bridge in both directions: after relaying `x` (on service
/// `s1`) to `y` (on service `s2`) in a new store, a reply to `x` is threaded against `y`
/// on `s2`, and a reply to `y` against its origin `x` on `s1`.
pub proof fn lemma_reply_threads_both_ways(x: MessageView, y: MessageView)
    requires
        x.service != y.service,
    ensures
        ({
            let e = crate::store::recorded(Seq::empty(), x, y);
            &&& reply_target(e, y.service, x) == Some(y)
            &&& reply_target(e, x.service, y) == Some(x)
        }),
{
    let e0 = Seq::<EdgeView>::empty();
    let e = crate::store::recorded(e0, x, y);
    assert(origin_of(e0, y) is None && origin_of(e0, x) is None);
    assert(e.drop_last() == e0);
    assert(relays_of(e0, x).len() == 0 && relays_of(e0, y).len() == 0);
    let rx = relays_of(e, x);
    assert(rx == seq![y]);
    assert(rx.drop_last() =~= Seq::<MessageView>::empty());
    assert(last_on_service(rx, y.service) == Some(y));
    assert(relays_of(e, y).len() == 0);
    assert(origin_of(e, y) == Some(x));
}

/// A relay `x -> y` that no later relay of `x` onto the service of `y` follows is where
/// replies to `x` are threaded on that service.
pub proof fn lemma_reply_to_latest_mirror(edges: Seq<EdgeView>, i: int, x: MessageView, y: MessageView)
    requires
        0 <= i < edges.len(),
        edges[i] == (EdgeView { source: x, target: y }),
        forall|j: int|
            i < j < edges.len() && (#[trigger] edges[j]).source == x ==> edges[j].target.service
                != y.service,
    ensures
        last_on_service(relays_of(edges, x), y.service) == Some(y),
        reply_target(edges, y.service, x) == Some(y),
    decreases edges.len(),
{
    let rest = edges.drop_last();
    if i < edges.len() - 1 {
        assert(rest[i] == edges[i]);
        assert forall|j: int|
            i < j < rest.len() && (#[trigger] rest[j]).source == x implies rest[j].target.service
                != y.service by {
            assert(rest[j] == edges[j]);
        }
        lemma_reply_to_latest_mirror(rest, i, x, y);
        assert(edges[edges.len() - 1] == edges.last());
        if edges.last().source == x {
            assert(relays_of(edges, x).drop_last() == relays_of(rest, x));
        }
    } else {
        assert(edges.last() == edges[i]);
    }
}

/// In a store with unique targets, a reply to a mirror `y` of `x` is threaded against
/// its origin `x` on the service of `x`, when `y` has no copy of its own there.
pub proof fn lemma_reply_to_origin(edges: Seq<EdgeView>, i: int, x: MessageView, y: MessageView)
    requires
        targets_unique(edges),
        0 <= i < edges.len(),
        edges[i] == (EdgeView { source: x, target: y }),
        last_on_service(relays_of(edges, y), x.service) is None,
    ensures
        reply_target(edges, x.service, y) == Some(x),
{
    lemma_origin_of_edge(edges, i);
}

} // verus!
