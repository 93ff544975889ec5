//! The subobject hierarchy: child lists rebuilt from parent links, and debris flags.
use vstd::prelude::*;
use crate::model::{ObjectId, ParseError, SubObject};

verus! {

/// Each subobject's id is its position.
pub open spec fn ids_are_positions(s: Seq<SubObject>) -> bool {
    forall|i: int| 0 <= i < s.len() ==> (#[trigger] s[i]).obj_id.0 == i
}

/// Each parent link names a subobject that exists.
pub open spec fn parents_in_range(s: Seq<SubObject>) -> bool {
    forall|i: int| 0 <= i < s.len() && (#[trigger] s[i]).parent is Some ==> s[i].parent->Some_0.0 < s.len()
}

/// The ids, in order, of those among the first `n` subobjects whose parent is `p`.
pub open spec fn children_upto(s: Seq<SubObject>, p: u32, n: int) -> Seq<ObjectId>
    decreases n,
{
    if n <= 0 {
        seq![]
    } else if s[n - 1].parent == Some(ObjectId(p)) {
        children_upto(s, p, n - 1).push(s[n - 1].obj_id)
    } else {
        children_upto(s, p, n - 1)
    }
}

/// The ids, in order, of the subobjects whose parent is `p`.
pub open spec fn children_of(s: Seq<SubObject>, p: u32) -> Seq<ObjectId> {
    children_upto(s, p, s.len() as int)
}

/// Ids are positions, parents exist, and each child list holds exactly the
/// subobjects that name it as parent, in order.
pub open spec fn hierarchy_wf(s: Seq<SubObject>) -> bool {
    &&& ids_are_positions(s)
    &&& parents_in_range(s)
    &&& forall|p: int| 0 <= p < s.len() ==> (#[trigger] s[p]).children@ == children_of(s, p as u32)
}

/// `b` is `a` with its child list set to `kids` and its debris flag to `debris`.
pub open spec fn relinked(a: SubObject, b: SubObject, kids: Seq<ObjectId>, debris: bool) -> bool {
    &&& b.obj_id == a.obj_id
    &&& b.radius == a.radius
    &&& b.parent == a.parent
    &&& b.offset == a.offset
    &&& b.geo_center == a.geo_center
    &&& b.bbox == a.bbox
    &&& b.name == a.name
    &&& b.properties == a.properties
    &&& b.movement_type == a.movement_type
    &&& b.movement_axis == a.movement_axis
    &&& b.bsp_data == a.bsp_data
    &&& b.children@ == kids
    &&& b.is_debris_model == debris
}

proof fn lemma_children_upto(s: Seq<SubObject>, p: u32, n: int)
    requires
        ids_are_positions(s),
        0 <= n <= s.len(),
    ensures
        forall|k: int| 0 <= k < children_upto(s, p, n).len() ==> {
            let c = #[trigger] children_upto(s, p, n)[k];
            &&& c.0 < n
            &&& s[c.0 as int].parent == Some(ObjectId(p))
        },
        forall|j: int| 0 <= j < n && s[j].parent == Some(ObjectId(p)) ==> #[trigger] children_upto(s, p, n).contains(s[j].obj_id),
        children_upto(s, p, n).no_duplicates(),
    decreases n,
{
    if n > 0 {
        lemma_children_upto(s, p, n - 1);
        let prev = children_upto(s, p, n - 1);
        if s[n - 1].parent == Some(ObjectId(p)) {
            let cur = prev.push(s[n - 1].obj_id);
            assert forall|k: int| 0 <= k < cur.len() implies {
                let c = #[trigger] cur[k];
                &&& c.0 < n
                &&& s[c.0 as int].parent == Some(ObjectId(p))
            } by {
                if k < prev.len() {
                    assert(cur[k] == prev[k]);
                }
            }
            assert forall|j: int| 0 <= j < n && s[j].parent == Some(ObjectId(p)) implies #[trigger] cur.contains(s[j].obj_id) by {
                if j < n - 1 {
                    assert(prev.contains(s[j].obj_id));
                    let k = choose|k: int| 0 <= k < prev.len() && prev[k] == s[j].obj_id;
                    assert(cur[k] == s[j].obj_id);
                } else {
                    assert(cur[prev.len() as int] == s[j].obj_id);
                }
            }
            assert forall|a: int, b: int| 0 <= a < cur.len() && 0 <= b < cur.len() && a != b implies cur[a] != cur[b] by {
                if a < prev.len() && b < prev.len() {
                    assert(cur[a] == prev[a] && cur[b] == prev[b]);
                } else if a < prev.len() {
                    assert(cur[a] == prev[a]);
                    assert(prev[a].0 < n - 1);
                } else if b < prev.len() {
                    assert(cur[b] == prev[b]);
                    assert(prev[b].0 < n - 1);
                }
            }
        } else {
            assert forall|j: int| 0 <= j < n && s[j].parent == Some(ObjectId(p)) implies #[trigger] prev.contains(s[j].obj_id) by {
                assert(j < n - 1);
            }
        }
    }
}

/// In a well-formed hierarchy, a subobject with parent `p` appears exactly once
/// among `p`'s children, and every child of `p` has `p` as its parent.
pub proof fn lemma_hierarchy_consistent(s: Seq<SubObject>, i: int, p: int)
    requires
        hierarchy_wf(s),
        0 <= i < s.len(),
        0 <= p < s.len(),
    ensures
        s[i].parent == Some(ObjectId(p as u32)) ==> {
            &&& s[p].children@.contains(s[i].obj_id)
            &&& forall|a: int, b: int| 0 <= a < b < s[p].children@.len() ==> s[p].children@[a] != s[p].children@[b]
        },
        forall|k: int| 0 <= k < s[p].children@.len() ==> {
            let c = #[trigger] s[p].children@[k];
            &&& c.0 < s.len()
            &&& s[c.0 as int].parent == Some(ObjectId(p as u32))
        },
        s[i].parent is Some ==> s[i].parent->Some_0.0 < s.len(),
{
    assert(s[p].children@ == children_of(s, p as u32));
    assert(s[i].obj_id.0 == i);
    lemma_children_upto(s, p as u32, s.len() as int);
}

proof fn lemma_children_same_links(a: Seq<SubObject>, b: Seq<SubObject>, p: u32, n: int)
    requires
        a.len() == b.len(),
        0 <= n <= a.len(),
        forall|i: int| 0 <= i < a.len() ==> (#[trigger] a[i]).parent == b[i].parent && a[i].obj_id == b[i].obj_id,
    ensures
        children_upto(a, p, n) == children_upto(b, p, n),
    decreases n,
{
    if n > 0 {
        lemma_children_same_links(a, b, p, n - 1);
        assert(a[n - 1].parent == b[n - 1].parent);
    }
}

/// The ids, in order, of the subobjects whose parent is `p`.
fn collect_children(subs: &Vec<SubObject>, p: u32) -> (r: Vec<ObjectId>)
    ensures
        r@ == children_of(subs@, p),
{
    let mut kids: Vec<ObjectId> = Vec::new();
    let mut j: usize = 0;
    while j < subs.len()
        invariant
            j <= subs@.len(),
            kids@ == children_upto(subs@, p, j as int),
        decreases subs@.len() - j,
    {
        let is_child = match subs[j].parent {
            Some(q) => q.0 == p,
            None => false,
        };
        if is_child {
            kids.push(subs[j].obj_id);
        }
        j = j + 1;
    }
    kids
}

/// Whether `id` is among `ids`.
fn contains_id(ids: &Vec<ObjectId>, id: u32) -> (r: bool)
    ensures
        r == ids@.contains(ObjectId(id)),
{
    let mut k: usize = 0;
    while k < ids.len()
        invariant
            k <= ids@.len(),
            forall|m: int| 0 <= m < k ==> ids@[m] != ObjectId(id),
        decreases ids@.len() - k,
    {
        if ids[k].0 == id {
            assert(ids@[k as int] == ObjectId(id));
            return true;
        }
        k = k + 1;
    }
    false
}

/// Fills each subobject's child list from the parent links, in subobject order,
/// and flags as debris exactly the subobjects listed in `debris`. Fails with
/// `MalformedChunk` when a parent link or a debris id names no subobject.
pub fn link_subobjects(subs: Vec<SubObject>, debris: &Vec<ObjectId>) -> (r: Result<Vec<SubObject>, ParseError>)
    requires
        ids_are_positions(subs@),
    ensures
        r is Ok <==> parents_in_range(subs@) && forall|k: int| 0 <= k < debris@.len() ==> (#[trigger] debris@[k]).0 < subs@.len(),
        r is Err ==> r == Err::<Vec<SubObject>, ParseError>(ParseError::MalformedChunk),
        r matches Ok(out) ==> {
            &&& out@.len() == subs@.len()
            &&& forall|i: int| 0 <= i < out@.len() ==> relinked(subs@[i], #[trigger] out@[i], children_of(subs@, i as u32),
                debris@.contains(ObjectId(i as u32)))
            &&& hierarchy_wf(out@)
        },
{
    let n = subs.len();
    let mut i: usize = 0;
    while i < n
        invariant
            n == subs@.len(),
            i <= n,
            forall|m: int| 0 <= m < i && (#[trigger] subs@[m]).parent is Some ==> subs@[m].parent->Some_0.0 < n,
        decreases n - i,
    {
        if let Some(p) = subs[i].parent {
            if p.0 as usize >= n {
                return Err(ParseError::MalformedChunk);
            }
        }
        i = i + 1;
    }
    let mut k: usize = 0;
    while k < debris.len()
        invariant
            n == subs@.len(),
            k <= debris@.len(),
            parents_in_range(subs@),
            forall|m: int| 0 <= m < k ==> (#[trigger] debris@[m]).0 < n,
        decreases debris@.len() - k,
    {
        if debris[k].0 as usize >= n {
            return Err(ParseError::MalformedChunk);
        }
        k = k + 1;
    }
    let mut kids: Vec<Vec<ObjectId>> = Vec::new();
    let mut flags: Vec<bool> = Vec::new();
    let mut p: usize = 0;
    while p < n
        invariant
            n == subs@.len(),
            p <= n,
            ids_are_positions(subs@),
            kids@.len() == p,
            flags@.len() == p,
            forall|m: int| 0 <= m < p ==> (#[trigger] kids@[m])@ == children_of(subs@, m as u32),
            forall|m: int| 0 <= m < p ==> #[trigger] flags@[m] == debris@.contains(ObjectId(m as u32)),
        decreases n - p,
    {
        assert(subs@[p as int].obj_id.0 == p);
        kids.push(collect_children(&subs, p as u32));
        flags.push(contains_id(debris, p as u32));
        p = p + 1;
    }
    let ghost orig = subs@;
    let mut rest = subs;
    let mut out: Vec<SubObject> = Vec::new();
    let mut i: usize = 0;
    while i < n
        invariant
            n == orig.len(),
            i <= n,
            rest@ == orig.subrange(i as int, n as int),
            kids@.len() == n - i,
            flags@.len() == n - i,
            forall|m: int| 0 <= m < n - i ==> (#[trigger] kids@[m])@ == children_of(orig, (m + i) as u32),
            forall|m: int| 0 <= m < n - i ==> #[trigger] flags@[m] == debris@.contains(ObjectId((m + i) as u32)),
            out@.len() == i,
            forall|m: int| 0 <= m < i ==> relinked(orig[m], #[trigger] out@[m], children_of(orig, m as u32),
                debris@.contains(ObjectId(m as u32))),
        decreases n - i,
    {
        assert(rest@[0] == orig[i as int]);
        let s = rest.remove(0);
        let ch = kids.remove(0);
        let fl = flags.remove(0);
        assert(ch@ == children_of(orig, i as u32)) by {
            assert(kids@.len() >= 0);
        }
        let linked = SubObject {
            obj_id: s.obj_id,
            radius: s.radius,
            parent: s.parent,
            offset: s.offset,
            geo_center: s.geo_center,
            bbox: s.bbox,
            name: s.name,
            properties: s.properties,
            movement_type: s.movement_type,
            movement_axis: s.movement_axis,
            bsp_data: s.bsp_data,
            children: ch,
            is_debris_model: fl,
        };
        out.push(linked);
        assert(rest@ =~= orig.subrange(i + 1, n as int));
        i = i + 1;
    }
    proof {
        assert forall|q: int| 0 <= q < out@.len() implies (#[trigger] out@[q]).children@ == children_of(out@, q as u32) by {
            lemma_children_same_links(orig, out@, q as u32, n as int);
        }
    }
    Ok(out)
}

/// With no parent links, every child list is empty.
pub proof fn lemma_no_parents(s: Seq<SubObject>, p: u32, n: int)
    requires
        0 <= n <= s.len(),
        forall|i: int| 0 <= i < s.len() ==> (#[trigger] s[i]).parent is None,
    ensures
        children_upto(s, p, n) == Seq::<ObjectId>::empty(),
    decreases n,
{
    if n > 0 {
        lemma_no_parents(s, p, n - 1);
        assert(s[n - 1].parent is None);
    }
}

} // verus!
