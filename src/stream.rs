//! Building a document from a stream of already-nested tag events.
use vstd::prelude::*;
use crate::builder::{element_actions, takes_subpage, ActionView, TreeBuilder};
use crate::element::{tag_type, ElementTypeId};
use crate::tree::{Document, NodeData};

verus! {

/// One event of a tokenized tag stream.
pub enum TagEvent {
    /// An element opens: its tag name and attributes.
    Open(String, Vec<(String, String)>),
    /// The innermost open element closes.
    Close,
    /// A run of text inside the innermost open element.
    Text(String),
}

/// Whether the event creates a node.
pub open spec fn creates(e: TagEvent) -> bool {
    !(e is Close)
}

/// How many nodes the events create.
pub open spec fn count_nodes(events: Seq<TagEvent>) -> nat
    decreases events.len(),
{
    if events.len() == 0 {
        0
    } else {
        count_nodes(events.drop_last()) + if creates(events.last()) {
            1nat
        } else {
            0nat
        }
    }
}

/// How many of the events open an `iframe` with a `src`.
pub open spec fn count_frames(events: Seq<TagEvent>) -> nat
    decreases events.len(),
{
    if events.len() == 0 {
        0
    } else {
        count_frames(events.drop_last()) + match events.last() {
            TagEvent::Open(t, a) => if takes_subpage(tag_type(t@), a@) {
                1nat
            } else {
                0nat
            },
            _ => 0nat,
        }
    }
}

/// The node that event `i` creates: the root is 0, then nodes in event order.
pub open spec fn node_of(events: Seq<TagEvent>, i: int) -> int {
    1 + count_nodes(events.take(i)) as int
}

/// The open elements after the events, innermost last; the root never closes.
pub open spec fn open_stack(events: Seq<TagEvent>) -> Seq<usize>
    decreases events.len(),
{
    if events.len() == 0 {
        seq![0usize]
    } else {
        let s = open_stack(events.drop_last());
        match events.last() {
            TagEvent::Open(_, _) => s.push((1 + count_nodes(events.drop_last())) as usize),
            TagEvent::Close => if s.len() > 1 {
                s.drop_last()
            } else {
                s
            },
            TagEvent::Text(_) => s,
        }
    }
}

/// The requests that the events make, given the first subpage identifier.
pub open spec fn event_actions(events: Seq<TagEvent>, start: u64) -> Seq<ActionView>
    decreases events.len(),
{
    if events.len() == 0 {
        Seq::empty()
    } else {
        event_actions(events.drop_last(), start) + match events.last() {
            TagEvent::Open(t, a) => element_actions(
                tag_type(t@),
                a@,
                (start + count_frames(events.drop_last())) as u64,
            ),
            _ => Seq::empty(),
        }
    }
}

/// Strictly increasing: children listed in the order they were created.
pub open spec fn increasing(s: Seq<usize>) -> bool {
    forall|a: int, b: int| 0 <= a < b < s.len() ==> s[a] < s[b]
}

/// The node of event `i` hangs under the innermost element open before it,
/// and holds what the event carried.
pub open spec fn placed(d: Document, events: Seq<TagEvent>, i: int, start: u64) -> bool {
    creates(events[i]) ==> {
        &&& d.parent(node_of(events, i)) == Some(open_stack(events.take(i)).last())
        &&& match events[i] {
            TagEvent::Open(t, a) => {
                &&& d.data(node_of(events, i)) is Element
                &&& d.data(node_of(events, i))->Element_0.type_id == tag_type(t@)
                &&& d.data(node_of(events, i))->Element_0.tag_name@ == t@
                &&& d.data(node_of(events, i))->Element_0.attrs@ == a@
                &&& d.data(node_of(events, i))->Element_0.subpage_id == if takes_subpage(
                    tag_type(t@),
                    a@,
                ) {
                    Some((start + count_frames(events.take(i))) as u64)
                } else {
                    None
                }
            },
            TagEvent::Text(t) => d.data(node_of(events, i)) == NodeData::Text(t),
            TagEvent::Close => true,
        }
    }
}

/// Node `x` was created by one of the first `k` events.
pub open spec fn made_within(events: Seq<TagEvent>, k: int, x: int) -> bool {
    exists|i: int| 0 <= i < k && creates(events[i]) && #[trigger] node_of(events, i) == x
}

/// What a build from `events` leaves in the document: the root, one node per
/// creating event and no other, each placed under the innermost open element,
/// and children listed in creation order.
pub open spec fn built_from(d: Document, events: Seq<TagEvent>, start: u64) -> bool {
    &&& d.wf()
    &&& d.len() == 1 + count_nodes(events)
    &&& d.parent(0).is_none()
    &&& d.data(0) is Element
    &&& d.data(0)->Element_0.type_id == ElementTypeId::Html
    &&& d.data(0)->Element_0.tag_name@ == "html"@
    &&& d.data(0)->Element_0.attrs@.len() == 0
    &&& d.data(0)->Element_0.subpage_id.is_none()
    &&& forall|i: int| 0 <= i < events.len() ==> #[trigger] placed(d, events, i, start)
    &&& forall|x: int| 1 <= x < d.len() ==> #[trigger] made_within(events, events.len() as int, x)
    &&& forall|p: int| 0 <= p < d.len() ==> #[trigger] increasing(d.children(p))
}

/// Two nodes hold the same content: elements of the same kind, name,
/// attributes and subpage identifier, or equal non-element data.
pub open spec fn same_content(a: NodeData, b: NodeData) -> bool {
    match (a, b) {
        (NodeData::Element(x), NodeData::Element(y)) => {
            &&& x.type_id == y.type_id
            &&& x.tag_name@ == y.tag_name@
            &&& x.attrs@ == y.attrs@
            &&& x.subpage_id == y.subpage_id
        },
        _ => a == b,
    }
}

/// Same number of nodes, same links, same content at each node.
pub open spec fn same_structure(d1: Document, d2: Document) -> bool {
    &&& d1.len() == d2.len()
    &&& forall|i: int| 0 <= i < d1.len() ==> #[trigger] d1.parent(i) == d2.parent(i)
    &&& forall|i: int| 0 <= i < d1.len() ==> #[trigger] d1.children(i) == d2.children(i)
    &&& forall|i: int| 0 <= i < d1.len() ==> same_content(#[trigger] d1.data(i), d2.data(i))
}

proof fn lemma_increasing_eq(s1: Seq<usize>, s2: Seq<usize>)
    requires
        increasing(s1),
        increasing(s2),
        forall|v: usize| s1.contains(v) == s2.contains(v),
    ensures
        s1 == s2,
    decreases s1.len() + s2.len(),
{
    if s1.len() == 0 {
        if s2.len() > 0 {
            assert(s2.contains(s2[0]));
        }
        assert(s1 =~= s2);
    } else if s2.len() == 0 {
        assert(s1.contains(s1[0]));
    } else {
        let a = s1.last();
        let b = s2.last();
        assert(s1.contains(a));
        assert(s2.contains(b));
        let ja = s2.index_of(a);
        let jb = s1.index_of(b);
        assert(s2[ja] <= b) by {
            if ja < s2.len() - 1 {
                assert(s2[ja] < s2[s2.len() - 1]);
            }
        }
        assert(s1[jb] <= a) by {
            if jb < s1.len() - 1 {
                assert(s1[jb] < s1[s1.len() - 1]);
            }
        }
        assert(a == b);
        let t1 = s1.drop_last();
        let t2 = s2.drop_last();
        assert forall|v: usize| t1.contains(v) == t2.contains(v) by {
            if t1.contains(v) {
                let i = t1.index_of(v);
                assert(s1[i] < a);
                assert(s2.contains(v));
                let j = s2.index_of(v);
                assert(j != s2.len() - 1);
                assert(t2[j] == v);
            }
            if t2.contains(v) {
                let i = t2.index_of(v);
                assert(s2[i] < b);
                assert(s1.contains(v));
                let j = s1.index_of(v);
                assert(j != s1.len() - 1);
                assert(t1[j] == v);
            }
        }
        lemma_increasing_eq(t1, t2);
        assert(s1 =~= t1.push(a));
        assert(s2 =~= t2.push(b));
    }
}

/// Parsing is deterministic: two documents built from the same events with
/// the same first subpage identifier have the same structure.
pub proof fn lemma_same_events_same_tree(d1: Document, d2: Document, events: Seq<TagEvent>, start: u64)
    requires
        built_from(d1, events, start),
        built_from(d2, events, start),
    ensures
        same_structure(d1, d2),
{
    d1.lemma_links();
    d2.lemma_links();
    assert forall|x: int| 0 <= x < d1.len() implies #[trigger] d1.parent(x) == d2.parent(x) && same_content(
        d1.data(x),
        d2.data(x),
    ) by {
        if x >= 1 {
            assert(made_within(events, events.len() as int, x));
            let i = choose|i: int| 0 <= i < events.len() && creates(events[i]) && #[trigger] node_of(events, i) == x;
            assert(placed(d1, events, i, start));
            assert(placed(d2, events, i, start));
            match events[i] {
                TagEvent::Open(t, a) => {
                    assert(d1.data(x) is Element);
                    assert(d2.data(x) is Element);
                },
                TagEvent::Text(t) => {
                    assert(d1.data(x) == NodeData::Text(t));
                    assert(d2.data(x) == NodeData::Text(t));
                },
                TagEvent::Close => {},
            }
        } else {
            assert(d1.data(0) is Element);
            assert(d2.data(0) is Element);
            assert(d1.data(0)->Element_0.attrs@ =~= d2.data(0)->Element_0.attrs@);
        }
    }
    assert forall|i: int| 0 <= i < d1.len() implies same_content(#[trigger] d1.data(i), d2.data(i)) by {
        assert(d1.parent(i) == d2.parent(i));
    }
    assert forall|p: int| 0 <= p < d1.len() implies #[trigger] d1.children(p) == d2.children(p) by {
        assert(increasing(d1.children(p)));
        assert(increasing(d2.children(p)));
        assert forall|v: usize| d1.children(p).contains(v) == d2.children(p).contains(v) by {
            if d1.children(p).contains(v) {
                let j = d1.children(p).index_of(v);
                assert(d1.children(p)[j] == v);
                assert(v < d1.len());
                assert(d1.parent(v as int) == Some(p as usize));
                assert(d1.parent(v as int) == d2.parent(v as int));
                assert(d2.parent(v as int) == Some(p as usize));
            }
            if d2.children(p).contains(v) {
                let j = d2.children(p).index_of(v);
                assert(d2.children(p)[j] == v);
                assert(v < d2.len());
                assert(d2.parent(v as int) == Some(p as usize));
                assert(d1.parent(v as int) == d2.parent(v as int));
                assert(d1.parent(v as int) == Some(p as usize));
            }
        }
        lemma_increasing_eq(d1.children(p), d2.children(p));
    }
}

/// Parsing is deterministic, requests included: two builders that ran over the
/// same events from the same first subpage identifier hold the same structure,
/// the same requests in the same order, and the same next identifier.
pub proof fn lemma_same_events_same_parse(b1: TreeBuilder, b2: TreeBuilder, events: Seq<TagEvent>, start: u64)
    requires
        built_from(b1.document(), events, start),
        built_from(b2.document(), events, start),
        b1.actions() == event_actions(events, start),
        b2.actions() == event_actions(events, start),
        b1.next_subpage() == start + count_frames(events),
        b2.next_subpage() == start + count_frames(events),
    ensures
        same_structure(b1.document(), b2.document()),
        b1.actions() == b2.actions(),
        b1.next_subpage() == b2.next_subpage(),
{
    lemma_same_events_same_tree(b1.document(), b2.document(), events, start);
}

proof fn lemma_frames_prefix(s: Seq<TagEvent>, k: int)
    requires
        0 <= k <= s.len(),
    ensures
        count_frames(s.take(k)) <= count_frames(s),
    decreases s.len(),
{
    if k == s.len() {
        assert(s.take(k) =~= s);
    } else {
        assert(s.take(k) =~= s.drop_last().take(k));
        lemma_frames_prefix(s.drop_last(), k);
    }
}

proof fn lemma_nodes_bound(s: Seq<TagEvent>)
    ensures
        count_nodes(s) <= s.len(),
    decreases s.len(),
{
    if s.len() > 0 {
        lemma_nodes_bound(s.drop_last());
    }
}

/// Builds a document from a nested tag stream. Each node hangs under the
/// innermost element still open when it was created, children are listed in
/// event order, each `iframe src` gets the next subpage identifier from
/// `first_subpage_id` on, and the requests of the opened elements are made in
/// event order.
pub fn build_from_events(events: Vec<TagEvent>, first_subpage_id: u64) -> (r: TreeBuilder)
    requires
        events@.len() < usize::MAX,
        first_subpage_id + count_frames(events@) <= u64::MAX,
    ensures
        r.wf(),
        built_from(r.document(), events@, first_subpage_id),
        r.next_subpage() == first_subpage_id + count_frames(events@),
        r.actions() == event_actions(events@, first_subpage_id),
{
    let ghost orig = events@;
    let n = events.len();
    let mut events = events;
    let mut b = TreeBuilder::new(first_subpage_id);
    let mut stack: Vec<usize> = Vec::new();
    stack.push(0);
    let mut k: usize = 0;
    assert(orig.take(0) =~= Seq::<TagEvent>::empty());
    assert(events@ =~= orig.subrange(0, n as int));
    assert(b.actions() =~= event_actions(orig.take(0), first_subpage_id));
    while events.len() > 0
        invariant
            n == orig.len(),
            n < usize::MAX,
            first_subpage_id + count_frames(orig) <= u64::MAX,
            k + events@.len() == n,
            events@ == orig.subrange(k as int, n as int),
            b.wf(),
            b.document().len() == 1 + count_nodes(orig.take(k as int)),
            b.document().parent(0).is_none(),
            b.document().data(0) is Element,
            b.document().data(0)->Element_0.tag_name@ == "html"@,
            b.document().data(0)->Element_0.type_id == ElementTypeId::Html,
            b.document().data(0)->Element_0.attrs@.len() == 0,
            b.document().data(0)->Element_0.subpage_id.is_none(),
            forall|x: int| 1 <= x < b.document().len() ==> #[trigger] made_within(orig, k as int, x),
            stack@ == open_stack(orig.take(k as int)),
            stack@.len() >= 1,
            forall|j: int| 0 <= j < stack@.len() ==> #[trigger] stack@[j] < b.document().len(),
            forall|i: int| 0 <= i < k && creates(orig[i]) ==> #[trigger] node_of(orig, i) < b.document().len(),
            forall|i: int| 0 <= i < k ==> #[trigger] placed(b.document(), orig, i, first_subpage_id),
            forall|p: int| 0 <= p < b.document().len() ==> #[trigger] increasing(b.document().children(p)),
            b.next_subpage() == first_subpage_id + count_frames(orig.take(k as int)),
            b.actions() == event_actions(orig.take(k as int), first_subpage_id),
        decreases events@.len(),
    {
        let ghost pre = b;
        let ghost pk = orig.take(k as int);
        let ghost nk = orig.take(k + 1);
        proof {
            assert(nk.drop_last() =~= pk);
            assert(nk.last() == orig[k as int]);
            lemma_frames_prefix(orig, k + 1);
            lemma_nodes_bound(pk);
            pre.document().lemma_links();
        }
        let ev = events.remove(0);
        assert(events@ =~= orig.subrange(k + 1, n as int));
        let top = stack[stack.len() - 1];
        match ev {
            TagEvent::Open(t, a) => {
                let id = b.create_element(t.as_str(), a);
                let ghost mid = b.document();
                let res = b.append_child(top, id);
                proof {
                    assert(res.is_ok());
                    assert forall|p: int| 0 <= p < pre.document().len() && p != top as int implies b.document().children(p)
                        == pre.document().children(p) by {
                        assert(mid.data(p) == pre.document().data(p));
                    }
                    assert(mid.data(top as int) == pre.document().data(top as int));
                    assert(b.document().children(top as int) == pre.document().children(top as int).push(id));
                }
                stack.push(id);
            },
            TagEvent::Close => {
                if stack.len() > 1 {
                    stack.pop();
                }
            },
            TagEvent::Text(t) => {
                let id = b.create_text(t);
                let ghost mid = b.document();
                let res = b.append_child(top, id);
                proof {
                    assert(res.is_ok());
                    assert forall|p: int| 0 <= p < pre.document().len() && p != top as int implies b.document().children(p)
                        == pre.document().children(p) by {
                        assert(mid.data(p) == pre.document().data(p));
                    }
                    assert(mid.data(top as int) == pre.document().data(top as int));
                    assert(b.document().children(top as int) == pre.document().children(top as int).push(id));
                }
            },
        }
        proof {
            let d0 = pre.document();
            let d1 = b.document();
            assert(node_of(orig, k as int) == d0.len());
            assert forall|i: int| 0 <= i < k + 1 && creates(orig[i]) implies #[trigger] node_of(orig, i) < d1.len() by {
            }
            assert forall|x: int| 1 <= x < d1.len() implies #[trigger] made_within(orig, k + 1, x) by {
                if x < d0.len() {
                    assert(made_within(orig, k as int, x));
                    let i = choose|i: int| 0 <= i < k && creates(orig[i]) && #[trigger] node_of(orig, i) == x;
                    assert(node_of(orig, i) == x);
                } else {
                    assert(node_of(orig, k as int) == x);
                }
            }
            assert forall|i: int| 0 <= i < k + 1 implies #[trigger] placed(d1, orig, i, first_subpage_id) by {
                if i < k && creates(orig[i]) {
                    let x = node_of(orig, i);
                    assert(x < d0.len());
                    assert(placed(d0, orig, i, first_subpage_id));
                    assert(d1.data(x) == d0.data(x));
                    assert(d1.parent(x) == d0.parent(x));
                }
            }
            assert forall|p: int| 0 <= p < d1.len() implies #[trigger] increasing(d1.children(p)) by {
                if p < d0.len() && p != top as int {
                    assert(d1.children(p) == d0.children(p));
                    assert(increasing(d0.children(p)));
                } else if p == top as int && creates(orig[k as int]) {
                    let c = d1.children(p);
                    assert(increasing(d0.children(p)));
                    assert(c == d0.children(p).push(d0.len() as usize));
                    assert forall|x: int, y: int| 0 <= x < y < c.len() implies c[x] < c[y] by {
                        if y == c.len() - 1 {
                            assert(d0.children(p)[x] < d0.len());
                        }
                    }
                } else if p == top as int {
                    assert(d1.children(p) == d0.children(p));
                    assert(increasing(d0.children(p)));
                }
            }
        }
        k = k + 1;
    }
    assert(orig.take(n as int) =~= orig);
    b
}

} // verus!
