//! The robot's joint tables: which actuator drives which slot of the policy
//! network's action vector, and where each joint rests in the home pose.

use vstd::prelude::*;

verus! {

/// Number of joints the policy network drives.
pub const NUM_JOINTS: usize = 20;

/// Actuator ID and policy-network index of every joint, in table order.
pub open spec fn id_map() -> Seq<(u8, usize)> {
    seq![
        (11u8, 5usize), (12u8, 6usize), (13u8, 7usize), (14u8, 8usize), (15u8, 9usize),
        (21u8, 0usize), (22u8, 1usize), (23u8, 2usize), (24u8, 3usize), (25u8, 4usize),
        (31u8, 15usize), (32u8, 16usize), (33u8, 17usize), (34u8, 18usize), (35u8, 19usize),
        (41u8, 10usize), (42u8, 11usize), (43u8, 12usize), (44u8, 13usize), (45u8, 14usize),
    ]
}

/// The mapping from actuator ID to network index, as a table.
pub fn actuator_id_map() -> (m: Vec<(u8, usize)>)
    ensures
        m@ == id_map(),
{
    vec![
        (11u8, 5usize), (12u8, 6usize), (13u8, 7usize), (14u8, 8usize), (15u8, 9usize),
        (21u8, 0usize), (22u8, 1usize), (23u8, 2usize), (24u8, 3usize), (25u8, 4usize),
        (31u8, 15usize), (32u8, 16usize), (33u8, 17usize), (34u8, 18usize), (35u8, 19usize),
        (41u8, 10usize), (42u8, 11usize), (43u8, 12usize), (44u8, 13usize), (45u8, 14usize),
    ]
}


/// A row of a twenty-row table is one of the rows 0 to 19; stating it as
/// a list lets each row be looked at on its own.
pub proof fn lemma_row_cases(i: int)
    requires
        0 <= i < 20,
    ensures
        i == 0 || i == 1 || i == 2 || i == 3 || i == 4 || i == 5 || i == 6 || i == 7 || i == 8
            || i == 9 || i == 10 || i == 11 || i == 12 || i == 13 || i == 14 || i == 15 || i == 16
            || i == 17 || i == 18 || i == 19,
{
}

/// The row of the table whose network index is `nn`. The same formula
/// gives the network index of row `nn`: the arm and leg groups of five swap
/// places between the two orders.
pub open spec fn row_of_nn_index(nn: int) -> int {
    if (nn / 5) % 2 == 0 { nn + 5 } else { nn - 5 }
}

/// Each row of the table, written as the arithmetic pattern it follows:
/// row `i` belongs to limb group `i / 5`.
proof fn lemma_id_map_rows()
    ensures
        id_map().len() == 20,
        forall|i: int| 0 <= i < 20 ==> #[trigger] id_map()[i].0 == 10 * (i / 5 + 1) + i % 5 + 1,
        forall|i: int| 0 <= i < 20 ==> #[trigger] id_map()[i].1 == row_of_nn_index(i),
{
    let m = id_map();
    assert(m[0] == (11u8, 5usize) && m[1] == (12u8, 6usize) && m[2] == (13u8, 7usize));
    assert(m[3] == (14u8, 8usize) && m[4] == (15u8, 9usize) && m[5] == (21u8, 0usize));
    assert(m[6] == (22u8, 1usize) && m[7] == (23u8, 2usize) && m[8] == (24u8, 3usize));
    assert(m[9] == (25u8, 4usize) && m[10] == (31u8, 15usize) && m[11] == (32u8, 16usize));
    assert(m[12] == (33u8, 17usize) && m[13] == (34u8, 18usize) && m[14] == (35u8, 19usize));
    assert(m[15] == (41u8, 10usize) && m[16] == (42u8, 11usize) && m[17] == (43u8, 12usize));
    assert(m[18] == (44u8, 13usize) && m[19] == (45u8, 14usize));
    assert forall|i: int| 0 <= i < 20 implies #[trigger] m[i].0 == 10 * (i / 5 + 1) + i % 5 + 1
        && m[i].1 == row_of_nn_index(i) by {
        lemma_row_cases(i);
    }
}


/// Network index of actuator `actuator_id`, where the table lists it.
pub open spec fn nn_index_of(actuator_id: u8) -> Option<usize> {
    if exists|i: int| 0 <= i < id_map().len() && #[trigger] id_map()[i].0 == actuator_id {
        Some(id_map()[choose|i: int| 0 <= i < id_map().len() && #[trigger] id_map()[i].0 == actuator_id].1)
    } else {
        None
    }
}

/// Actuator that fills network slot `nn`, where the table lists one.
pub open spec fn actuator_of(nn: usize) -> Option<u8> {
    if exists|i: int| 0 <= i < id_map().len() && #[trigger] id_map()[i].1 == nn {
        Some(id_map()[choose|i: int| 0 <= i < id_map().len() && #[trigger] id_map()[i].1 == nn].0)
    } else {
        None
    }
}

/// The joint table is a one-to-one correspondence: no actuator ID is listed
/// twice, no network index is listed twice, and the network indices are
/// exactly `0..20`.
pub proof fn lemma_id_map_is_bijection()
    ensures
        id_map().len() == NUM_JOINTS,
        forall|i: int, j: int|
            0 <= i < 20 && 0 <= j < 20 && i != j ==> #[trigger] id_map()[i].0 != #[trigger] id_map()[j].0,
        forall|i: int, j: int|
            0 <= i < 20 && 0 <= j < 20 && i != j ==> #[trigger] id_map()[i].1 != #[trigger] id_map()[j].1,
        forall|i: int| 0 <= i < 20 ==> #[trigger] id_map()[i].1 < NUM_JOINTS,
        forall|n: int| 0 <= n < 20 ==> id_map()[row_of_nn_index(n)].1 == n,
        forall|n: int| 0 <= n < 20 ==> 0 <= #[trigger] row_of_nn_index(n) < 20,
{
    lemma_id_map_rows();
}

/// Looking an actuator up by network index, and that network index up by
/// actuator, leads back where it started, for every row of the table; and
/// every slot `0..20` has an actuator.
pub proof fn law_joint_lookups_round_trip()
    ensures
        forall|i: int| 0 <= i < 20 ==> #[trigger] nn_index_of(id_map()[i].0) == Some(id_map()[i].1),
        forall|i: int| 0 <= i < 20 ==> #[trigger] actuator_of(id_map()[i].1) == Some(id_map()[i].0),
        forall|n: usize| n < 20 ==> #[trigger] actuator_of(n) is Some,
        forall|n: usize| n < 20 ==> nn_index_of(#[trigger] actuator_of(n).unwrap()) == Some(n),
        forall|id: u8, n: usize| #![trigger nn_index_of(id), actuator_of(n)] nn_index_of(id) == Some(n) ==> actuator_of(n) == Some(id),
        forall|n: usize, id: u8| #![trigger nn_index_of(id), actuator_of(n)] actuator_of(n) == Some(id) ==> nn_index_of(id) == Some(n),
{
    lemma_id_map_is_bijection();
    let m = id_map();
    assert forall|i: int| 0 <= i < 20 implies #[trigger] nn_index_of(m[i].0) == Some(m[i].1) by {
        let k = choose|k: int| 0 <= k < m.len() && #[trigger] m[k].0 == m[i].0;
        assert(k == i);
    }
    assert forall|i: int| 0 <= i < 20 implies #[trigger] actuator_of(m[i].1) == Some(m[i].0) by {
        let k = choose|k: int| 0 <= k < m.len() && #[trigger] m[k].1 == m[i].1;
        assert(k == i);
    }
    assert forall|n: usize| n < 20 implies #[trigger] actuator_of(n) is Some
        && nn_index_of(actuator_of(n).unwrap()) == Some(n) by {
        let r = row_of_nn_index(n as int);
        assert(m[r].1 == n);
        assert(actuator_of(m[r].1) == Some(m[r].0));
        assert(nn_index_of(m[r].0) == Some(m[r].1));
    }
    assert forall|id: u8, n: usize| #![trigger nn_index_of(id), actuator_of(n)] nn_index_of(id) == Some(n) implies actuator_of(n) == Some(id) by {
        let k = choose|k: int| 0 <= k < m.len() && #[trigger] m[k].0 == id;
        assert(actuator_of(m[k].1) == Some(m[k].0));
    }
    assert forall|n: usize, id: u8| #![trigger nn_index_of(id), actuator_of(n)] actuator_of(n) == Some(id) implies nn_index_of(id) == Some(n) by {
        let k = choose|k: int| 0 <= k < m.len() && #[trigger] m[k].1 == n;
        assert(nn_index_of(m[k].0) == Some(m[k].1));
    }
}


/// Network index of the joint that actuator `actuator_id` drives, found by
/// scanning the joint table; `None` where the table does not list it.
pub fn nn_index_for_actuator(actuator_id: u8) -> (r: Option<usize>)
    ensures
        r == nn_index_of(actuator_id),
{
    proof {
        lemma_id_map_is_bijection();
    }
    let m = actuator_id_map();
    let mut i: usize = 0;
    while i < m.len()
        invariant
            m@ == id_map(),
            0 <= i <= m.len(),
            forall|k: int| 0 <= k < i ==> #[trigger] m@[k].0 != actuator_id,
        decreases m.len() - i,
    {
        if m[i].0 == actuator_id {
            proof {
                let k = choose|k: int| 0 <= k < id_map().len() && #[trigger] id_map()[k].0 == actuator_id;
                assert(k == i);
            }
            return Some(m[i].1);
        }
        i += 1;
    }
    None
}

/// Actuator that drives network slot `nn`, found by scanning the joint
/// table; `None` for a slot the table does not list.
pub fn actuator_for_nn_index(nn: usize) -> (r: Option<u8>)
    ensures
        r == actuator_of(nn),
{
    proof {
        lemma_id_map_is_bijection();
    }
    let m = actuator_id_map();
    let mut i: usize = 0;
    while i < m.len()
        invariant
            m@ == id_map(),
            0 <= i <= m.len(),
            forall|k: int| 0 <= k < i ==> #[trigger] m@[k].1 != nn,
        decreases m.len() - i,
    {
        if m[i].1 == nn {
            proof {
                let k = choose|k: int| 0 <= k < id_map().len() && #[trigger] id_map()[k].1 == nn;
                assert(k == i);
            }
            return Some(m[i].0);
        }
        i += 1;
    }
    None
}

/// Number of actions the policy network produces: one per row of the joint
/// table.
pub fn action_size() -> (n: usize)
    ensures
        n == id_map().len(),
        n == NUM_JOINTS,
{
    actuator_id_map().len()
}

/// The home pose: actuator ID and target angle in whole degrees.
pub open spec fn home_positions() -> Seq<(usize, i32)> {
    seq![
        (21usize, 0i32), (22usize, -10i32), (23usize, 0i32), (24usize, 15i32), (25usize, 0i32),
        (11usize, 0i32), (12usize, 10i32), (13usize, 0i32), (14usize, -15i32), (15usize, 0i32),
        (41usize, -25i32), (42usize, -5i32), (43usize, 0i32), (44usize, -50i32), (45usize, 25i32),
        (31usize, 25i32), (32usize, 5i32), (33usize, 0i32), (34usize, 50i32), (35usize, -25i32),
    ]
}

/// The home pose as a table of (actuator ID, degrees).
pub fn home_position() -> (h: Vec<(usize, i32)>)
    ensures
        h@ == home_positions(),
{
    vec![
        (21usize, 0i32), (22usize, -10i32), (23usize, 0i32), (24usize, 15i32), (25usize, 0i32),
        (11usize, 0i32), (12usize, 10i32), (13usize, 0i32), (14usize, -15i32), (15usize, 0i32),
        (41usize, -25i32), (42usize, -5i32), (43usize, 0i32), (44usize, -50i32), (45usize, 25i32),
        (31usize, 25i32), (32usize, 5i32), (33usize, 0i32), (34usize, 50i32), (35usize, -25i32),
    ]
}

/// The home pose is listed in the network's own order: row `k` of the home
/// table belongs to the actuator of network slot `k`, so the angles can be
/// read as an action vector as they stand.
pub proof fn law_home_pose_in_network_order()
    ensures
        home_positions().len() == NUM_JOINTS,
        forall|k: int| 0 <= k < 20 ==> actuator_of(k as usize) == Some(#[trigger] home_positions()[k].0 as u8),
        forall|k: int| 0 <= k < 20 ==> #[trigger] home_positions()[k].0 < 256,
{
    law_joint_lookups_round_trip();
    lemma_id_map_rows();
    let h = home_positions();
    let m = id_map();
    assert(h[0].0 == 21 && h[1].0 == 22 && h[2].0 == 23 && h[3].0 == 24 && h[4].0 == 25);
    assert(h[5].0 == 11 && h[6].0 == 12 && h[7].0 == 13 && h[8].0 == 14 && h[9].0 == 15);
    assert(h[10].0 == 41 && h[11].0 == 42 && h[12].0 == 43 && h[13].0 == 44 && h[14].0 == 45);
    assert(h[15].0 == 31 && h[16].0 == 32 && h[17].0 == 33 && h[18].0 == 34 && h[19].0 == 35);
    assert forall|k: int| 0 <= k < 20 implies actuator_of(k as usize) == Some(#[trigger] h[k].0 as u8)
        && h[k].0 < 256 by {
        let r = row_of_nn_index(k);
        assert(m[r].1 == k);
        assert(actuator_of(m[r].1) == Some(m[r].0));
        lemma_row_cases(k);
    }
}


/// Home angle, in degrees, of each joint of the left side: arm joints
/// 11-15 and leg joints 31-35.
pub open spec fn left_home_angle(id: int) -> int {
    if id == 12 {
        10
    } else if id == 14 {
        -15
    } else if id == 31 {
        25
    } else if id == 32 {
        5
    } else if id == 34 {
        50
    } else if id == 35 {
        -25
    } else {
        0
    }
}

/// The home pose is mirror-symmetric: each right-side joint (21-25,
/// 41-45) stands at the negated angle of its left-side counterpart ten IDs
/// below, and the left side stands at the angles of `left_home_angle`
/// (shoulder roll 10, elbow -15, hip pitch 25, hip roll 5, knee 50, ankle
/// -25, every other joint 0).
pub proof fn law_home_pose_is_mirror_symmetric()
    ensures
        home_positions().len() == 20,
        forall|k: int| (0 <= k < 5 || 10 <= k < 15) ==> {
            &&& #[trigger] home_positions()[k].0 == home_positions()[k + 5].0 + 10
            &&& home_positions()[k].1 == -home_positions()[k + 5].1
        },
        forall|k: int| (5 <= k < 10 || 15 <= k < 20) ==>
            #[trigger] home_positions()[k].1 == left_home_angle(home_positions()[k].0 as int),
        forall|k: int| (5 <= k < 10 || 15 <= k < 20) ==> {
            let id = #[trigger] home_positions()[k].0;
            &&& id % 10 == k % 5 + 1
            &&& (k < 10 ==> id / 10 == 1)
            &&& (k >= 10 ==> id / 10 == 3)
        },
{
    assert forall|k: int| (0 <= k < 5 || 10 <= k < 15) implies {
        &&& #[trigger] home_positions()[k].0 == home_positions()[k + 5].0 + 10
        &&& home_positions()[k].1 == -home_positions()[k + 5].1
    } by {
        lemma_row_cases(k);
    }
    assert forall|k: int| (5 <= k < 10 || 15 <= k < 20) implies
        #[trigger] home_positions()[k].1 == left_home_angle(home_positions()[k].0 as int) by {
        lemma_row_cases(k);
    }
    assert forall|k: int| (5 <= k < 10 || 15 <= k < 20) implies {
        let id = #[trigger] home_positions()[k].0;
        &&& id % 10 == k % 5 + 1
        &&& (k < 10 ==> id / 10 == 1)
        &&& (k >= 10 ==> id / 10 == 3)
    } by {
        lemma_row_cases(k);
    }
}

} // verus!
