use vstd::prelude::*;
use std::collections::HashMap;

verus! {

broadcast use vstd::std_specs::hash::group_hash_axioms;

/// The joint `i` exists in `children`, and so does every joint below it,
/// no deeper than `depth` levels (`i` itself counting as the first).
pub open spec fn tree_within(children: Seq<Vec<usize>>, i: usize, depth: nat) -> bool
    decreases depth,
{
    &&& depth > 0
    &&& i < children.len()
    &&& forall|k: int|
        0 <= k < children[i as int]@.len() ==> tree_within(
            children,
            #[trigger] children[i as int]@[k],
            (depth - 1) as nat,
        )
}

/// The joint tree below `i` is finite: each joint is listed, and no path
/// down from `i` runs forever.
pub open spec fn is_joint_tree(children: Seq<Vec<usize>>, i: usize) -> bool {
    exists|depth: nat| tree_within(children, i, depth)
}

/// The joints below `i`, `i` first, each followed by the joints below it, its
/// children in their listed order, as pairs of the joint and the position of
/// its parent: `parent` for `i`, and for the others the position in the
/// result, counted from `base`, where their parent stands.
pub open spec fn flatten(
    children: Seq<Vec<usize>>,
    i: usize,
    parent: usize,
    base: nat,
    depth: nat,
) -> Seq<(usize, usize)>
    decreases depth, 0nat, 0nat,
{
    if depth == 0 || i >= children.len() {
        Seq::empty()
    } else {
        seq![(i, parent)] + flatten_kids(
            children,
            children[i as int]@,
            base as usize,
            base + 1,
            (depth - 1) as nat,
        )
    }
}

/// `flatten` of each of `kids` in turn, all under the parent at position
/// `parent`, the first of them placed at position `base`.
pub open spec fn flatten_kids(
    children: Seq<Vec<usize>>,
    kids: Seq<usize>,
    parent: usize,
    base: nat,
    depth: nat,
) -> Seq<(usize, usize)>
    decreases depth, 1nat, kids.len(),
{
    if kids.len() == 0 {
        Seq::empty()
    } else {
        let before = flatten_kids(children, kids.drop_last(), parent, base, depth);
        before + flatten(children, kids.last(), parent, base + before.len(), depth)
    }
}

/// The order in which `load_joints` lays out the joint tree below `i`
/// (see `flatten`).
pub open spec fn joint_order(children: Seq<Vec<usize>>, i: usize, parent: usize, base: nat) -> Seq<
    (usize, usize),
> {
    flatten(children, i, parent, base, choose|depth: nat| tree_within(children, i, depth))
}

/// `m` after recording, for each entry of `entries` in turn, the entry's
/// position (counted from `base`) under its joint number cut to 16 bits.
pub open spec fn with_positions(m: Map<u16, usize>, entries: Seq<(usize, usize)>, base: nat) -> Map<
    u16,
    usize,
>
    decreases entries.len(),
{
    if entries.len() == 0 {
        m
    } else {
        with_positions(m, entries.drop_last(), base).insert(
            entries.last().0 as u16,
            (base + entries.len() - 1) as usize,
        )
    }
}

proof fn lemma_with_positions_append(
    m: Map<u16, usize>,
    a: Seq<(usize, usize)>,
    b: Seq<(usize, usize)>,
    base: nat,
)
    ensures
        with_positions(with_positions(m, a, base), b, base + a.len()) == with_positions(
            m,
            a + b,
            base,
        ),
    decreases b.len(),
{
    if b.len() == 0 {
        assert(a + b =~= a);
    } else {
        lemma_with_positions_append(m, a, b.drop_last(), base);
        assert((a + b).drop_last() =~= a + b.drop_last());
    }
}

/// Append the joints below `index` to `order` in the order of `flatten`,
/// `index` under the parent at `parent_index`, and record in `index_map`
/// where each joint went.
fn load_joints_within(
    children: &Vec<Vec<usize>>,
    index: usize,
    parent_index: usize,
    order: &mut Vec<(usize, usize)>,
    index_map: &mut HashMap<u16, usize>,
    Ghost(depth): Ghost<nat>,
)
    requires
        tree_within(children@, index, depth),
    ensures
        final(order)@ == old(order)@ + flatten(
            children@,
            index,
            parent_index,
            old(order).len() as nat,
            depth,
        ),
        final(index_map)@ == with_positions(
            old(index_map)@,
            flatten(children@, index, parent_index, old(order).len() as nat, depth),
            old(order).len() as nat,
        ),
    decreases depth,
{
    let ghost start = order@;
    let ghost start_map = index_map@;
    let ghost base = order.len() as nat;
    let ghost all = flatten(children@, index, parent_index, base, depth);
    order.push((index, parent_index));
    let this_idx = order.len() - 1;
    index_map.insert(#[verifier::truncate] (index as u16), this_idx);
    proof {
        assert(this_idx == base);
        assert(seq![(index, parent_index)].last() == (index, parent_index));
        assert(with_positions(start_map, seq![(index, parent_index)], base) == start_map.insert(
            index as u16,
            this_idx,
        )) by {
            assert(seq![(index, parent_index)].drop_last() =~= Seq::<(usize, usize)>::empty());
            assert(with_positions(start_map, Seq::<(usize, usize)>::empty(), base) == start_map);
        }
    }
    let kids = &children[index];
    let mut k: usize = 0;
    while k < kids.len()
        invariant
            0 <= k <= kids.len(),
            *kids == children@[index as int],
            tree_within(children@, index, depth),
            this_idx == base,
            all == seq![(index, parent_index)] + flatten_kids(
                children@,
                kids@,
                this_idx,
                base + 1,
                (depth - 1) as nat,
            ),
            order@ == start + seq![(index, parent_index)] + flatten_kids(
                children@,
                kids@.take(k as int),
                this_idx,
                base + 1,
                (depth - 1) as nat,
            ),
            index_map@ == with_positions(
                start_map,
                seq![(index, parent_index)] + flatten_kids(
                    children@,
                    kids@.take(k as int),
                    this_idx,
                    base + 1,
                    (depth - 1) as nat,
                ),
                base,
            ),
            base == start.len(),
        decreases kids.len() - k,
    {
        let ghost pre = flatten_kids(children@, kids@.take(k as int), this_idx, base + 1, (depth - 1) as nat);
        let ghost pre_map = index_map@;
        let ghost child = kids@[k as int];
        let ghost sub = flatten(children@, child, this_idx, base + 1 + pre.len(), (depth - 1) as nat);
        proof {
            assert(kids@.take(k + 1).drop_last() =~= kids@.take(k as int));
            assert(kids@.take(k + 1).last() == child);
            assert(flatten_kids(children@, kids@.take(k + 1), this_idx, base + 1, (depth - 1) as nat)
                == pre + sub);
            assert(order.len() == base + 1 + pre.len());
        }
        load_joints_within(children, kids[k], this_idx, order, index_map, Ghost((depth - 1) as nat));
        proof {
            lemma_with_positions_append(start_map, seq![(index, parent_index)] + pre, sub, base);
            assert(seq![(index, parent_index)] + pre + sub =~= seq![(index, parent_index)] + (pre
                + sub));
        }
        k = k + 1;
    }
    proof {
        assert(kids@.take(kids.len() as int) =~= kids@);
        assert(start + seq![(index, parent_index)] + flatten_kids(
            children@,
            kids@,
            this_idx,
            base + 1,
            (depth - 1) as nat,
        ) =~= start + all);
    }
}

fn joints_within(children: &Vec<Vec<usize>>, i: usize, depth: usize) -> (b: bool)
    ensures
        b == tree_within(children@, i, depth as nat),
    decreases depth,
{
    if depth == 0 || i >= children.len() {
        return false;
    }
    let kids = &children[i];
    let mut k: usize = 0;
    while k < kids.len()
        invariant
            *kids == children@[i as int],
            depth > 0,
            i < children@.len(),
            0 <= k <= kids.len(),
            forall|j: int| 0 <= j < k ==> tree_within(children@, #[trigger] kids@[j], (depth - 1) as nat),
        decreases kids.len() - k,
    {
        if !joints_within(children, kids[k], depth - 1) {
            return false;
        }
        k = k + 1;
    }
    true
}

/// Whether the joints below `index` can be laid out: every joint they name
/// is listed, and no chain of children runs deeper than there are joints
/// (a deeper chain passes some joint twice and never ends). When the result
/// is `true`, `load_joints` accepts `index`.
pub fn check_joint_tree(children: &Vec<Vec<usize>>, index: usize) -> (b: bool)
    ensures
        b ==> is_joint_tree(children@, index),
        b == tree_within(children@, index, children@.len()),
{
    joints_within(children, index, children.len())
}

/// Lay out the joint tree below `index` after the joints already in `order`:
/// each joint as the pair of its number and the position of its parent, the
/// joint `index` under the parent at `parent_index`, every joint before the
/// joints below it and the children of a joint in their listed order (see
/// `joint_order`). `index_map` records, under each joint's number cut to 16
/// bits, the position it went to; a joint reached twice keeps the later.
pub fn load_joints(
    children: &Vec<Vec<usize>>,
    index: usize,
    parent_index: usize,
    order: &mut Vec<(usize, usize)>,
    index_map: &mut HashMap<u16, usize>,
)
    requires
        is_joint_tree(children@, index),
    ensures
        final(order)@ == old(order)@ + joint_order(
            children@,
            index,
            parent_index,
            old(order).len() as nat,
        ),
        final(index_map)@ == with_positions(
            old(index_map)@,
            joint_order(children@, index, parent_index, old(order).len() as nat),
            old(order).len() as nat,
        ),
{
    let ghost depth = choose|depth: nat| tree_within(children@, index, depth);
    load_joints_within(children, index, parent_index, order, index_map, Ghost(depth));
}

proof fn lemma_flatten_parents(children: Seq<Vec<usize>>, i: usize, parent: usize, base: nat, depth: nat)
    requires
        tree_within(children, i, depth),
        base + flatten(children, i, parent, base, depth).len() <= usize::MAX + 1,
    ensures
        flatten(children, i, parent, base, depth).len() >= 1,
        flatten(children, i, parent, base, depth)[0] == (i, parent),
        forall|p: int|
            1 <= p < flatten(children, i, parent, base, depth).len() ==> base <= (#[trigger] flatten(
                children,
                i,
                parent,
                base,
                depth,
            )[p]).1 < base + p,
    decreases depth, 0nat, 0nat,
{
    let kids = children[i as int]@;
    let ks = flatten_kids(children, kids, base as usize, base + 1, (depth - 1) as nat);
    let s = flatten(children, i, parent, base, depth);
    assert(s =~= seq![(i, parent)] + ks);
    assert forall|k: int| 0 <= k < kids.len() implies tree_within(children, #[trigger] kids[k], (depth - 1) as nat) by {
        assert(tree_within(children, children[i as int]@[k], (depth - 1) as nat));
    }
    lemma_kids_parents(children, kids, base as usize, base + 1, (depth - 1) as nat);
    assert forall|p: int| 1 <= p < s.len() implies base <= (#[trigger] s[p]).1 < base + p by {
        assert(s[p] == ks[p - 1]);
    }
}

proof fn lemma_kids_parents(
    children: Seq<Vec<usize>>,
    kids: Seq<usize>,
    parent: usize,
    base: nat,
    depth: nat,
)
    requires
        forall|k: int| 0 <= k < kids.len() ==> tree_within(children, #[trigger] kids[k], depth),
        parent < base,
        base + flatten_kids(children, kids, parent, base, depth).len() <= usize::MAX + 1,
    ensures
        forall|p: int|
            0 <= p < flatten_kids(children, kids, parent, base, depth).len() ==> {
                let q = (#[trigger] flatten_kids(children, kids, parent, base, depth)[p]).1;
                q == parent || base <= q < base + p
            },
    decreases depth, 1nat, kids.len(),
{
    if kids.len() > 0 {
        let rest = kids.drop_last();
        assert forall|k: int| 0 <= k < rest.len() implies tree_within(children, #[trigger] rest[k], depth) by {
            assert(rest[k] == kids[k]);
        }
        let s0 = flatten_kids(children, kids, parent, base, depth);
        assert(s0.len() == flatten_kids(children, rest, parent, base, depth).len() + flatten(
            children,
            kids.last(),
            parent,
            base + flatten_kids(children, rest, parent, base, depth).len(),
            depth,
        ).len());
        lemma_kids_parents(children, rest, parent, base, depth);
        let before = flatten_kids(children, rest, parent, base, depth);
        let b2 = base + before.len();
        let last = flatten(children, kids.last(), parent, b2, depth);
        let s = flatten_kids(children, kids, parent, base, depth);
        assert(s =~= before + last);
        assert(tree_within(children, kids[kids.len() - 1], depth));
        lemma_flatten_parents(children, kids.last(), parent, b2, depth);
        assert forall|p: int| 0 <= p < s.len() implies {
            let q = (#[trigger] s[p]).1;
            q == parent || base <= q < base + p
        } by {
            if p < before.len() {
                assert(s[p] == before[p]);
            } else {
                assert(s[p] == last[p - before.len()]);
            }
        }
    }
}

/// In the layout of a joint tree, the joint `index` comes first, under the
/// parent it was given, and every other joint's parent stands before it:
/// walking the layout in order meets each parent before its children.
pub proof fn lemma_parents_come_first(
    children: Seq<Vec<usize>>,
    index: usize,
    parent_index: usize,
    base: nat,
)
    requires
        is_joint_tree(children, index),
        base + joint_order(children, index, parent_index, base).len() <= usize::MAX,
    ensures
        joint_order(children, index, parent_index, base).len() >= 1,
        joint_order(children, index, parent_index, base)[0] == (index, parent_index),
        forall|p: int|
            1 <= p < joint_order(children, index, parent_index, base).len() ==> base <= (
            #[trigger] joint_order(children, index, parent_index, base)[p]).1 < base + p,
{
    let depth = choose|depth: nat| tree_within(children, index, depth);
    lemma_flatten_parents(children, index, parent_index, base, depth);
}

/// Looking up a joint's number (cut to 16 bits) in the recorded positions
/// gives a position, no earlier than the joint's own, where a joint with
/// that number stands.
pub proof fn lemma_positions_point_to_joint(m: Map<u16, usize>, entries: Seq<(usize, usize)>, base: nat)
    requires
        base + entries.len() <= usize::MAX,
    ensures
        forall|p: int|
            0 <= p < entries.len() ==> {
                let key = (#[trigger] entries[p]).0 as u16;
                let v = with_positions(m, entries, base)[key];
                &&& with_positions(m, entries, base).contains_key(key)
                &&& base + p <= v < base + entries.len()
                &&& entries[v - base].0 as u16 == key
            },
    decreases entries.len(),
{
    if entries.len() > 0 {
        let rest = entries.drop_last();
        lemma_positions_point_to_joint(m, rest, base);
        assert forall|p: int| 0 <= p < entries.len() implies {
            let key = (#[trigger] entries[p]).0 as u16;
            let v = with_positions(m, entries, base)[key];
            &&& with_positions(m, entries, base).contains_key(key)
            &&& base + p <= v < base + entries.len()
            &&& entries[v - base].0 as u16 == key
        } by {
            if p < rest.len() {
                assert(entries[p] == rest[p]);
                let key = entries[p].0 as u16;
                if key != entries.last().0 as u16 {
                    let v = with_positions(m, rest, base)[key];
                    assert(rest[v - base] == entries[v - base]);
                }
            }
        }
    }
}

} // verus!
