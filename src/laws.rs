use vstd::prelude::*;
use crate::note::{NoteView, updated_note};
use crate::store::lists;
use crate::handlers::{
    ReplyView, create_outcome, delete_outcome, get_outcome, is_empty_body, status_of,
    update_outcome,
};

verus! {

/// The store after creating each note of `ns` in turn, with each note's own
/// id, title, content and creation time.
pub open spec fn create_all(m: Map<Seq<char>, NoteView>, ns: Seq<NoteView>) -> Map<Seq<char>, NoteView>
    decreases ns.len(),
{
    if ns.len() == 0 {
        m
    } else {
        let n = ns.last();
        create_outcome(create_all(m, ns.drop_last()), n.id, n.title, n.content, n.created_at).0
    }
}

/// No two notes of `ns` share an id.
pub open spec fn ids_distinct(ns: Seq<NoteView>) -> bool {
    forall|i: int, j: int| 0 <= i < j < ns.len() ==> ns[i].id != ns[j].id
}

/// A note that was just created: its two times agree.
pub open spec fn fresh(n: NoteView) -> bool {
    n.created_at == n.updated_at
}

/// Fetching a note just created returns it, with the title and content it was
/// created with and its update time equal to its creation time.
pub proof fn lemma_round_trip(
    m: Map<Seq<char>, NoteView>,
    id: Seq<char>,
    title: Seq<char>,
    content: Seq<char>,
    now: int,
)
    ensures
        ({
            let (m2, r) = create_outcome(m, id, title, content, now);
            &&& r is Created
            &&& get_outcome(m2, id) == ReplyView::One(r->Created_0)
            &&& r->Created_0.title == title
            &&& r->Created_0.content == content
            &&& r->Created_0.created_at == r->Created_0.updated_at
        }),
{
}

/// An update that gives only a title keeps the content and does not move the
/// update time back; one that gives only a content keeps the title.
pub proof fn lemma_update_partial(
    m: Map<Seq<char>, NoteView>,
    id: Seq<char>,
    title: Seq<char>,
    content: Seq<char>,
    now: int,
)
    requires
        m.contains_key(id),
    ensures
        ({
            let (m2, r) = update_outcome(m, id, Some(title), None, now);
            &&& r is One
            &&& r->One_0.title == title
            &&& r->One_0.content == m[id].content
            &&& r->One_0.updated_at >= m[id].updated_at
            &&& get_outcome(m2, id) == r
        }),
        ({
            let (m2, r) = update_outcome(m, id, None, Some(content), now);
            &&& r is One
            &&& r->One_0.content == content
            &&& r->One_0.title == m[id].title
            &&& r->One_0.updated_at >= m[id].updated_at
            &&& get_outcome(m2, id) == r
        }),
{
}

/// Fetching, updating and deleting an id that the store does not hold all
/// answer 404 with an empty body, and leave the store as it was.
pub proof fn lemma_not_found(
    m: Map<Seq<char>, NoteView>,
    id: Seq<char>,
    title: Option<Seq<char>>,
    content: Option<Seq<char>>,
    now: int,
)
    requires
        !m.contains_key(id),
    ensures
        get_outcome(m, id) == ReplyView::NotFound,
        update_outcome(m, id, title, content, now) == (m, ReplyView::NotFound),
        delete_outcome(m, id) == (m, ReplyView::NotFound),
        status_of(ReplyView::NotFound) == 404,
        is_empty_body(ReplyView::NotFound),
{
}

/// Once a delete has answered 204, fetching the same id answers not found.
pub proof fn lemma_delete_removes(m: Map<Seq<char>, NoteView>, id: Seq<char>)
    ensures
        delete_outcome(m, id).1 == ReplyView::NoContent ==> get_outcome(delete_outcome(m, id).0, id)
            == ReplyView::NotFound,
        m.contains_key(id) ==> status_of(delete_outcome(m, id).1) == 204,
{
}

proof fn lemma_create_all_contents(ns: Seq<NoteView>)
    requires
        ids_distinct(ns),
        forall|i: int| 0 <= i < ns.len() ==> fresh(#[trigger] ns[i]),
    ensures
        forall|k: Seq<char>| #[trigger] create_all(Map::empty(), ns).contains_key(k) <==> exists|i: int|
            0 <= i < ns.len() && ns[i].id == k,
        forall|i: int| 0 <= i < ns.len() ==> create_all(Map::empty(), ns).contains_key(#[trigger] ns[i].id)
            && create_all(Map::empty(), ns)[ns[i].id] == ns[i],
    decreases ns.len(),
{
    if ns.len() > 0 {
        let p = ns.drop_last();
        assert forall|i: int, j: int| 0 <= i < j < p.len() implies p[i].id != p[j].id by {
            assert(p[i] == ns[i] && p[j] == ns[j]);
        }
        assert forall|i: int| 0 <= i < p.len() implies fresh(#[trigger] p[i]) by {
            assert(p[i] == ns[i]);
        }
        lemma_create_all_contents(p);
        let last = ns.len() - 1;
        let m = create_all(Map::empty(), ns);
        let m0 = create_all(Map::empty(), p);
        assert(fresh(ns[last]));
        assert(m == m0.insert(ns[last].id, ns[last]));
        assert forall|k: Seq<char>| #[trigger] m.contains_key(k) implies exists|i: int|
            0 <= i < ns.len() && ns[i].id == k by {
            if k != ns[last].id {
                assert(m0.contains_key(k));
                let i = choose|i: int| 0 <= i < p.len() && p[i].id == k;
                assert(p[i] == ns[i]);
            } else {
                assert(ns[last].id == k);
            }
        }
        assert forall|i: int| 0 <= i < ns.len() implies m.contains_key(#[trigger] ns[i].id) && m[ns[i].id]
            == ns[i] by {
            if i < last {
                assert(p[i] == ns[i]);
                assert(ns[i].id != ns[last].id);
            }
        }
    }
}

/// After creating notes under distinct ids in an empty store, listing the
/// store gives exactly those notes, each once, in some order.
pub proof fn lemma_list_complete(ns: Seq<NoteView>, l: Seq<NoteView>)
    requires
        ids_distinct(ns),
        forall|i: int| 0 <= i < ns.len() ==> fresh(#[trigger] ns[i]),
        lists(create_all(Map::empty(), ns), l),
    ensures
        l.len() == ns.len(),
        l.to_set() == ns.to_set(),
{
    lemma_create_all_contents(ns);
    let m = create_all(Map::empty(), ns);
    assert forall|x: NoteView| l.to_set().contains(x) <==> ns.to_set().contains(x) by {
        if l.to_set().contains(x) {
            let i = choose|i: int| 0 <= i < l.len() && l[i] == x;
            assert(m.contains_key(l[i].id));
            let j = choose|j: int| 0 <= j < ns.len() && ns[j].id == l[i].id;
            assert(m[ns[j].id] == ns[j]);
            assert(ns.to_set().contains(ns[j]));
        }
        if ns.to_set().contains(x) {
            let j = choose|j: int| 0 <= j < ns.len() && ns[j] == x;
            assert(m.contains_key(ns[j].id));
            let i = choose|i: int| 0 <= i < l.len() && l[i].id == ns[j].id;
            assert(l.to_set().contains(l[i]));
        }
    }
    assert(l.to_set() =~= ns.to_set());
    assert forall|i: int, j: int| 0 <= i < l.len() && 0 <= j < l.len() && i != j implies l[i] != l[j] by {
        if i < j {
            assert(l[i].id != l[j].id);
        } else {
            assert(l[j].id != l[i].id);
        }
    }
    assert forall|i: int, j: int| 0 <= i < ns.len() && 0 <= j < ns.len() && i != j implies ns[i]
        != ns[j] by {
        if i < j {
            assert(ns[i].id != ns[j].id);
        } else {
            assert(ns[j].id != ns[i].id);
        }
    }
    l.unique_seq_to_set();
    ns.unique_seq_to_set();
}

/// The health check answers 200, with its body, whatever the store holds.
pub proof fn lemma_health()
    ensures
        status_of(ReplyView::Health) == 200,
        !is_empty_body(ReplyView::Health),
{
}

} // verus!
