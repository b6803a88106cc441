use vstd::prelude::*;
use std::collections::HashMap;
use crate::text::chars_of;

verus! {

broadcast use vstd::std_specs::hash::group_hash_axioms;

/// Why the joints of a vertex could not be mapped to skeleton joints; each
/// carries the vertex's joint number (an index into the skin's joint list).
#[derive(Debug, Copy, Clone, PartialEq, Eq, Structural)]
pub enum JointMapError {
    /// The skin has no joint with that number.
    NotInSkin(u16),
    /// The skin's joint with that number is not in the skeleton, yet the
    /// vertex has a weight for it.
    NotInSkeleton(u16),
}

/// What `map_vertex_joints` gives for the joint numbers `joints`: each
/// number is looked up in the skin's joint list `skin_nodes`, whose entry
/// is a node number, and the node number in `index_map`, which gives the
/// joint's position in the skeleton. The first number that fails stops the
/// mapping.
pub open spec fn spec_map_joints(
    joints: Seq<u16>,
    skin_nodes: Seq<u16>,
    index_map: Map<u16, usize>,
) -> Result<Seq<usize>, JointMapError>
    decreases joints.len(),
{
    if joints.len() == 0 {
        Ok(Seq::empty())
    } else {
        match spec_map_joints(joints.drop_last(), skin_nodes, index_map) {
            Err(e) => Err(e),
            Ok(done) => {
                let j = joints.last();
                if j >= skin_nodes.len() {
                    Err(JointMapError::NotInSkin(j))
                } else if !index_map.contains_key(skin_nodes[j as int]) {
                    Err(JointMapError::NotInSkeleton(j))
                } else {
                    Ok(done.push(index_map[skin_nodes[j as int]]))
                }
            },
        }
    }
}

proof fn lemma_map_error_persists(
    joints: Seq<u16>,
    skin_nodes: Seq<u16>,
    index_map: Map<u16, usize>,
    n: int,
)
    requires
        0 <= n <= joints.len(),
        spec_map_joints(joints.take(n), skin_nodes, index_map) is Err,
    ensures
        spec_map_joints(joints, skin_nodes, index_map) == spec_map_joints(
            joints.take(n),
            skin_nodes,
            index_map,
        ),
    decreases joints.len() - n,
{
    if joints.len() == n {
        assert(joints.take(n) =~= joints);
    } else {
        assert(joints.drop_last().take(n) =~= joints.take(n));
        lemma_map_error_persists(joints.drop_last(), skin_nodes, index_map, n);
    }
}

/// The skin's joint `j` leads to a joint of the skeleton.
pub open spec fn joint_maps(j: u16, skin_nodes: Seq<u16>, index_map: Map<u16, usize>) -> bool {
    (j as int) < skin_nodes.len() && index_map.contains_key(skin_nodes[j as int])
}

/// Mapping joint numbers treats each of them alike: it succeeds exactly
/// when every number leads to a skeleton joint, and then the result has one
/// entry per number, the skeleton position that number leads to; the error
/// names the first number that leads nowhere.
pub proof fn lemma_map_joints_pointwise(
    joints: Seq<u16>,
    skin_nodes: Seq<u16>,
    index_map: Map<u16, usize>,
)
    ensures
        spec_map_joints(joints, skin_nodes, index_map) is Ok <==> forall|k: int|
            0 <= k < joints.len() ==> joint_maps(joints[k], skin_nodes, index_map),
        spec_map_joints(joints, skin_nodes, index_map) matches Ok(m) ==> {
            &&& m.len() == joints.len()
            &&& forall|k: int|
                0 <= k < joints.len() ==> m[k] == index_map[skin_nodes[joints[k] as int]]
        },
        spec_map_joints(joints, skin_nodes, index_map) matches Err(e) ==> exists|k: int|
            {
                &&& 0 <= k < joints.len()
                &&& !joint_maps(joints[k], skin_nodes, index_map)
                &&& forall|i: int| 0 <= i < k ==> joint_maps(joints[i], skin_nodes, index_map)
                &&& e == if (joints[k] as int) < skin_nodes.len() {
                    JointMapError::NotInSkeleton(joints[k])
                } else {
                    JointMapError::NotInSkin(joints[k])
                }
            },
    decreases joints.len(),
{
    if joints.len() > 0 {
        let rest = joints.drop_last();
        lemma_map_joints_pointwise(rest, skin_nodes, index_map);
        assert forall|k: int| 0 <= k < rest.len() implies rest[k] == joints[k] by {}
        match spec_map_joints(rest, skin_nodes, index_map) {
            Err(e) => {
                let k = choose|k: int|
                    {
                        &&& 0 <= k < rest.len()
                        &&& !joint_maps(rest[k], skin_nodes, index_map)
                        &&& forall|i: int| 0 <= i < k ==> joint_maps(rest[i], skin_nodes, index_map)
                        &&& e == if (rest[k] as int) < skin_nodes.len() {
                            JointMapError::NotInSkeleton(rest[k])
                        } else {
                            JointMapError::NotInSkin(rest[k])
                        }
                    };
                assert(joints[k] == rest[k]);
            },
            Ok(done) => {
                let last = joints.len() - 1;
                assert(joints.last() == joints[last]);
                if !joint_maps(joints[last], skin_nodes, index_map) {
                    assert forall|i: int| 0 <= i < last implies joint_maps(
                        joints[i],
                        skin_nodes,
                        index_map,
                    ) by {
                        assert(rest[i] == joints[i]);
                    }
                }
            },
        }
    }
}

/// Map the four joint numbers of a vertex to skeleton positions (see
/// `spec_map_joints`).
pub fn map_vertex_joints(
    joints: [u16; 4],
    skin_nodes: &Vec<u16>,
    index_map: &HashMap<u16, usize>,
) -> (r: Result<[usize; 4], JointMapError>)
    ensures
        match r {
            Ok(mapped) => spec_map_joints(joints@, skin_nodes@, index_map@) == Ok::<
                Seq<usize>,
                JointMapError,
            >(mapped@),
            Err(e) => spec_map_joints(joints@, skin_nodes@, index_map@) == Err::<
                Seq<usize>,
                JointMapError,
            >(e),
        },
        r matches Ok(mapped) ==> forall|k: int|
            0 <= k < 4 ==> {
                &&& (joints[k] as int) < skin_nodes@.len()
                &&& index_map@.contains_key(skin_nodes@[joints[k] as int])
                &&& mapped[k] == index_map@[skin_nodes@[joints[k] as int]]
            },
        r is Err <==> exists|k: int|
            0 <= k < 4 && !joint_maps(joints[k], skin_nodes@, index_map@),
{
    let mut data: [usize; 4] = [0; 4];
    let mut i: usize = 0;
    proof {
        assert(joints@.take(0) =~= Seq::<u16>::empty());
        assert(data@.take(0) =~= Seq::<usize>::empty());
    }
    while i < 4
        invariant
            0 <= i <= 4,
            joints@.len() == 4,
            data@.len() == 4,
            spec_map_joints(joints@.take(i as int), skin_nodes@, index_map@) == Ok::<
                Seq<usize>,
                JointMapError,
            >(data@.take(i as int)),
        decreases 4 - i,
    {
        let j = joints[i];
        proof {
            assert(joints@.take(i + 1).drop_last() =~= joints@.take(i as int));
            assert(joints@.take(i + 1).last() == j);
        }
        if (j as usize) >= skin_nodes.len() {
            proof {
                lemma_map_error_persists(joints@, skin_nodes@, index_map@, i + 1);
            }
            return Err(JointMapError::NotInSkin(j));
        }
        let node = skin_nodes[j as usize];
        match index_map.get(&node) {
            Some(pos) => {
                let ghost before = data@;
                data.set(i, *pos);
                proof {
                    assert(data@.take(i + 1) =~= before.take(i as int).push(*pos));
                }
            },
            None => {
                proof {
                    lemma_map_error_persists(joints@, skin_nodes@, index_map@, i + 1);
                }
                return Err(JointMapError::NotInSkeleton(j));
            },
        }
        i = i + 1;
    }
    proof {
        assert(joints@.take(4) =~= joints@);
        assert(data@.take(4) =~= data@);
        lemma_map_joints_pointwise(joints@, skin_nodes@, index_map@);
    }
    Ok(data)
}

/// The word that marks a mesh as a hit box.
pub open spec fn hitbox_word() -> Seq<char> {
    seq!['h', 'i', 't', 'b', 'o', 'x']
}

/// Whether `text` holds `word` somewhere.
pub open spec fn holds(text: Seq<char>, word: Seq<char>) -> bool {
    exists|i: int| 0 <= i && i + word.len() <= text.len() && #[trigger] text.subrange(i, i + word.len()) == word
}

/// Whether the mesh named `name` is a hit box of the model `base_name`: its
/// name starts with the model's name and holds `hitbox`.
pub open spec fn spec_is_hitbox_of(name: Seq<char>, base_name: Seq<char>) -> bool {
    base_name.is_prefix_of(name) && holds(name, hitbox_word())
}

/// Whether the mesh named `name` is a hit box of the model `base_name`.
pub fn is_hitbox_of(name: &str, base_name: &str) -> (b: bool)
    ensures
        b == spec_is_hitbox_of(name@, base_name@),
{
    let v = chars_of(name);
    let p = chars_of(base_name);
    if p.len() > v.len() {
        return false;
    }
    let mut i: usize = 0;
    while i < p.len()
        invariant
            v@ == name@,
            p@ == base_name@,
            p@.len() <= v@.len(),
            0 <= i <= p@.len(),
            forall|k: int| 0 <= k < i ==> v@[k] == p@[k],
        decreases p.len() - i,
    {
        if v[i] != p[i] {
            assert(!base_name@.is_prefix_of(name@)) by {
                assert(name@[i as int] != base_name@[i as int]);
            }
            return false;
        }
        i = i + 1;
    }
    assert(base_name@.is_prefix_of(name@)) by {
        assert(name@.subrange(0, base_name@.len() as int) =~= base_name@);
    }
    let w = vec!['h', 'i', 't', 'b', 'o', 'x'];
    assert(w@ =~= hitbox_word());
    let mut s: usize = 0;
    while s < v.len() && v.len() - s >= 6
        invariant
            s <= v@.len(),
            v@ == name@,
            w@ == hitbox_word(),
            base_name@.is_prefix_of(name@),
            forall|t: int| 0 <= t < s && t + 6 <= v@.len() ==> #[trigger] v@.subrange(t, t + 6) != hitbox_word(),
        decreases v.len() - s,
    {
        let mut k: usize = 0;
        let mut same = true;
        while same && k < 6
            invariant
                s + 6 <= v.len(),
                v@ == name@,
                w@ == hitbox_word(),
                0 <= k <= 6,
                forall|m: int| 0 <= m < k ==> v@[s + m] == w@[m],
                !same ==> k < 6 && v@[s + k] != w@[k as int],
            decreases 6 - k + if same { 1int } else { 0int },
        {
            if v[s + k] != w[k] {
                same = false;
            } else {
                k = k + 1;
            }
        }
        if k == 6 {
            assert(v@.subrange(s as int, s + 6) =~= hitbox_word());
            return true;
        }
        assert(v@.subrange(s as int, s + 6) != hitbox_word()) by {
            assert(v@.subrange(s as int, s + 6)[k as int] == v@[s + k]);
        }
        s = s + 1;
    }
    assert(!(s + 6 <= v@.len()));
    assert(!holds(name@, hitbox_word())) by {
        if holds(name@, hitbox_word()) {
            let t = choose|t: int|
                0 <= t && t + hitbox_word().len() <= name@.len() && #[trigger] name@.subrange(
                    t,
                    t + hitbox_word().len(),
                ) == hitbox_word();
            assert(name@.subrange(t, t + 6) == hitbox_word());
        }
    }
    false
}

} // verus!
