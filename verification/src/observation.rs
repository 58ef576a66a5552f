//! Layout of the policy network's input and output: where each joint's
//! reading goes in the observation, and which actuator each action is for.
//! The functions are generic in the number type, so they say nothing of
//! arithmetic: they only move readings into place.

use vstd::prelude::*;
use crate::text::{append_str, decimal, push_decimal};
use crate::joints::{
    id_map, nn_index_of, actuator_of, nn_index_for_actuator, actuator_id_map, NUM_JOINTS,
    lemma_id_map_is_bijection, law_joint_lookups_round_trip,
};

verus! {

/// Length of the joint part of the observation: positions, then velocities.
pub const DOF_LEN: usize = 40;
/// Length of the inertial part of the observation.
pub const IMU_LEN: usize = 9;
/// Length of the observation vector.
pub const OBSERVATION_LEN: usize = 49;

/// Why the joint readings could not be arranged.
#[derive(Clone, Copy, Debug, PartialEq, Eq, Structural)]
pub enum DofError {
    /// The actuator is not in the joint table.
    NotInIdMap(u8),
    /// The actuator is in the joint table, but no reading came back for it.
    NotInStateResponse(u8),
}

/// The first reading in `states` that belongs to actuator `id`.
pub open spec fn first_state<T>(states: Seq<(u32, T, T)>, id: u8) -> Option<(u32, T, T)> {
    if exists|i: int| 0 <= i < states.len() && #[trigger] states[i].0 == id as u32 {
        let i = choose|i: int|
            0 <= i < states.len() && #[trigger] states[i].0 == id as u32
            && forall|j: int| 0 <= j < i ==> #[trigger] states[j].0 != id as u32;
        Some(states[i])
    } else {
        None
    }
}

/// Whether actuator `id` can be placed: it has a slot and a reading.
pub open spec fn placeable<T>(states: Seq<(u32, T, T)>, id: u8) -> bool {
    nn_index_of(id) is Some && first_state(states, id) is Some
}

/// The error for an actuator that cannot be placed: a missing slot is
/// reported before a missing reading.
pub open spec fn dof_error_for<T>(states: Seq<(u32, T, T)>, id: u8) -> DofError {
    if nn_index_of(id) is None {
        DofError::NotInIdMap(id)
    } else {
        DofError::NotInStateResponse(id)
    }
}

/// The reading that lands in slot `n`, position (`velocity == false`) or
/// velocity: that of the slot's actuator where `ids` asks for it, otherwise
/// `zero`.
pub open spec fn slot_reading<T>(ids: Seq<u8>, states: Seq<(u32, T, T)>, n: int, zero: T, velocity: bool) -> T {
    let a = actuator_of(n as usize).unwrap();
    if ids.contains(a) {
        let s = first_state(states, a).unwrap();
        if velocity { s.2 } else { s.1 }
    } else {
        zero
    }
}

/// Joint positions and velocities in network order, or the error of the
/// first actuator of `ids` that cannot be placed.
pub open spec fn joint_state<T>(ids: Seq<u8>, states: Seq<(u32, T, T)>, zero: T) -> Result<(Seq<T>, Seq<T>), DofError> {
    if exists|k: int| 0 <= k < ids.len() && !placeable(states, #[trigger] ids[k]) {
        let k = choose|k: int|
            0 <= k < ids.len() && !placeable(states, #[trigger] ids[k])
            && forall|j: int| 0 <= j < k ==> placeable(states, #[trigger] ids[j]);
        Err(dof_error_for(states, ids[k]))
    } else {
        Ok((
            Seq::new(NUM_JOINTS as nat, |n: int| slot_reading(ids, states, n, zero, false)),
            Seq::new(NUM_JOINTS as nat, |n: int| slot_reading(ids, states, n, zero, true)),
        ))
    }
}

/// Index of the first reading in `states` for actuator `id`.
fn find_state<T>(states: &Vec<(u32, T, T)>, id: u8) -> (r: Option<usize>)
    ensures
        match r {
            Some(i) => i < states@.len() && first_state(states@, id) == Some(states@[i as int]),
            None => first_state(states@, id) is None,
        },
{
    let mut i: usize = 0;
    while i < states.len()
        invariant
            0 <= i <= states.len(),
            forall|j: int| 0 <= j < i ==> #[trigger] states@[j].0 != id as u32,
        decreases states.len() - i,
    {
        if states[i].0 == id as u32 {
            proof {
                let w = choose|w: int|
                    0 <= w < states@.len() && #[trigger] states@[w].0 == id as u32
                    && forall|j: int| 0 <= j < w ==> #[trigger] states@[j].0 != id as u32;
                assert(0 <= i < states@.len() && states@[i as int].0 == id as u32
                    && forall|j: int| 0 <= j < i ==> #[trigger] states@[j].0 != id as u32);
                if w < i {
                } else if w > i {
                }
            }
            return Some(i);
        }
        i += 1;
    }
    None
}

/// Places the readings `states` (actuator ID, position, velocity) of the
/// actuators `ids` into network order. Slots of actuators that `ids` does
/// not ask for hold `zero`. Fails on the first actuator of `ids` that is
/// not in the joint table, or that has no reading.
pub fn arrange_joint_state<T: Copy>(ids: &Vec<u8>, states: &Vec<(u32, T, T)>, zero: T) -> (r: Result<(Vec<T>, Vec<T>), DofError>)
    ensures
        match (r, joint_state(ids@, states@, zero)) {
            (Ok((p, v)), Ok((sp, sv))) => p@ == sp && v@ == sv,
            (Err(e), Err(se)) => e == se,
            _ => false,
        },
{
    proof {
        lemma_id_map_is_bijection();
        law_joint_lookups_round_trip();
    }
    let mut positions: Vec<T> = Vec::new();
    let mut velocities: Vec<T> = Vec::new();
    let mut n: usize = 0;
    while n < NUM_JOINTS
        invariant
            0 <= n <= NUM_JOINTS,
            positions@ == Seq::new(n as nat, |k: int| zero),
            velocities@ == Seq::new(n as nat, |k: int| zero),
        decreases NUM_JOINTS - n,
    {
        positions.push(zero);
        velocities.push(zero);
        n += 1;
        assert(positions@ =~= Seq::new(n as nat, |k: int| zero));
        assert(velocities@ =~= Seq::new(n as nat, |k: int| zero));
    }
    let mut i: usize = 0;
    while i < ids.len()
        invariant
            0 <= i <= ids.len(),
            positions@.len() == NUM_JOINTS,
            velocities@.len() == NUM_JOINTS,
            forall|j: int| 0 <= j < i ==> placeable(states@, #[trigger] ids@[j]),
            forall|m: int| 0 <= m < NUM_JOINTS ==>
                #[trigger] positions@[m] == slot_reading(ids@.take(i as int), states@, m, zero, false),
            forall|m: int| 0 <= m < NUM_JOINTS ==>
                #[trigger] velocities@[m] == slot_reading(ids@.take(i as int), states@, m, zero, true),
        decreases ids.len() - i,
    {
        let id = ids[i];
        proof {
            lemma_id_map_is_bijection();
            law_joint_lookups_round_trip();
        }
        let state = find_state(states, id);
        let nn = nn_index_for_actuator(id);
        match nn {
            None => {
                proof {
                    let k = choose|k: int|
                        0 <= k < ids@.len() && !placeable(states@, #[trigger] ids@[k])
                        && forall|j: int| 0 <= j < k ==> placeable(states@, #[trigger] ids@[j]);
                    assert(!placeable(states@, ids@[i as int]));
                    if k < i {
                    } else if k > i {
                    }
                }
                return Err(DofError::NotInIdMap(id));
            },
            Some(slot) => {
                match state {
                    None => {
                        proof {
                            let k = choose|k: int|
                                0 <= k < ids@.len() && !placeable(states@, #[trigger] ids@[k])
                                && forall|j: int| 0 <= j < k ==> placeable(states@, #[trigger] ids@[j]);
                            assert(!placeable(states@, ids@[i as int]));
                            if k < i {
                            } else if k > i {
                            }
                        }
                        return Err(DofError::NotInStateResponse(id));
                    },
                    Some(si) => {
                        let ghost before_p = positions@;
                        let ghost before_v = velocities@;
                        assert(id_map()[0].1 < NUM_JOINTS);
                        assert(slot < NUM_JOINTS) by {
                            let w = choose|w: int| 0 <= w < id_map().len() && #[trigger] id_map()[w].0 == id;
                        }
                        positions.set(slot, states[si].1);
                        velocities.set(slot, states[si].2);
                        proof {
                            let pre = ids@.take(i as int);
                            let post = ids@.take(i + 1);
                            assert(post =~= pre.push(id));
                            assert(actuator_of(slot) == Some(id));
                            assert forall|m: int| #![trigger positions@[m]] #![trigger velocities@[m]] 0 <= m < NUM_JOINTS implies
                                positions@[m] == slot_reading(post, states@, m, zero, false)
                                && velocities@[m] == slot_reading(post, states@, m, zero, true) by {
                                let a = actuator_of(m as usize).unwrap();
                                assert(actuator_of(m as usize) is Some);
                                if m == slot as int {
                                    assert(post.contains(id)) by {
                                        assert(post[pre.len() as int] == id);
                                    }
                                } else {
                                    assert(a != id) by {
                                        if a == id {
                                            assert(nn_index_of(a) == Some(m as usize));
                                        }
                                    }
                                    assert(post.contains(a) == pre.contains(a)) by {
                                        if post.contains(a) {
                                            let w = choose|w: int| 0 <= w < post.len() && post[w] == a;
                                            assert(w < pre.len());
                                            assert(pre[w] == a);
                                        }
                                        if pre.contains(a) {
                                            let w = choose|w: int| 0 <= w < pre.len() && pre[w] == a;
                                            assert(post[w] == a);
                                        }
                                    }
                                    assert(positions@[m] == before_p[m]);
                                    assert(velocities@[m] == before_v[m]);
                                }
                            }
                        }
                    },
                }
            },
        }
        i += 1;
    }
    proof {
        assert(ids@.take(ids@.len() as int) =~= ids@);
        assert(positions@ =~= Seq::new(NUM_JOINTS as nat, |m: int| slot_reading(ids@, states@, m, zero, false)));
        assert(velocities@ =~= Seq::new(NUM_JOINTS as nat, |m: int| slot_reading(ids@, states@, m, zero, true)));
    }
    Ok((positions, velocities))
}


/// Each actuator of the joint table with the action of its network slot,
/// in table order.
pub open spec fn paired_actions<T>(actions: Seq<T>) -> Seq<(u32, T)> {
    Seq::new(NUM_JOINTS as nat, |i: int| (id_map()[i].0 as u32, actions[id_map()[i].1 as int]))
}

/// Pairs the network's actions with the actuators they are for: one pair
/// per row of the joint table, in table order.
pub fn pair_actions_with_actuators<T: Copy>(actions: &Vec<T>) -> (commands: Vec<(u32, T)>)
    requires
        actions@.len() >= NUM_JOINTS,
    ensures
        commands@ == paired_actions(actions@),
{
    proof {
        lemma_id_map_is_bijection();
    }
    let m = actuator_id_map();
    let mut commands: Vec<(u32, T)> = Vec::new();
    let mut i: usize = 0;
    while i < m.len()
        invariant
            m@ == id_map(),
            actions@.len() >= NUM_JOINTS,
            forall|k: int| 0 <= k < 20 ==> #[trigger] id_map()[k].1 < NUM_JOINTS,
            0 <= i <= m.len(),
            commands@ == paired_actions(actions@).take(i as int),
        decreases m.len() - i,
    {
        let (id, nn) = m[i];
        commands.push((id as u32, actions[nn]));
        i += 1;
        assert(commands@ =~= paired_actions(actions@).take(i as int));
    }
    assert(commands@ =~= paired_actions(actions@));
    commands
}

/// IDs of the joint table's actuators, in table order.
pub open spec fn table_ids() -> Seq<u8> {
    id_map().map_values(|e: (u8, usize)| e.0)
}

/// Readings that report, for each actuator of the joint table, the
/// position and velocity of its network slot.
pub open spec fn readings_of<T>(positions: Seq<T>, velocities: Seq<T>) -> Seq<(u32, T, T)> {
    Seq::new(NUM_JOINTS as nat, |i: int| (
        id_map()[i].0 as u32,
        positions[id_map()[i].1 as int],
        velocities[id_map()[i].1 as int],
    ))
}

/// Reading back what was commanded gives back the network's vectors:
/// when every actuator of the joint table reports the position and velocity
/// of its own slot, arranging the readings restores both vectors exactly.
pub proof fn law_readback_restores_network_order<T>(positions: Seq<T>, velocities: Seq<T>, zero: T)
    requires
        positions.len() == NUM_JOINTS,
        velocities.len() == NUM_JOINTS,
    ensures
        joint_state(table_ids(), readings_of(positions, velocities), zero) == Ok::<(Seq<T>, Seq<T>), DofError>((positions, velocities)),
        paired_actions(positions) == readings_of(positions, velocities).map_values(|r: (u32, T, T)| (r.0, r.1)),
{
    lemma_id_map_is_bijection();
    law_joint_lookups_round_trip();
    let ids = table_ids();
    let st = readings_of(positions, velocities);
    let m = id_map();
    assert forall|i: int, j: int| 0 <= i < 20 && 0 <= j < 20 && st[i].0 == st[j].0 implies i == j by {
        assert(m[i].0 as u32 == m[j].0 as u32);
    }
    assert forall|k: int| 0 <= k < 20 implies #[trigger] first_state(st, ids[k]) == Some(st[k]) by {
        assert(st[k].0 == ids[k] as u32);
        let w = choose|w: int|
            0 <= w < st.len() && #[trigger] st[w].0 == ids[k] as u32
            && forall|j: int| 0 <= j < w ==> #[trigger] st[j].0 != ids[k] as u32;
        assert(w == k);
    }
    assert forall|k: int| 0 <= k < ids.len() implies placeable(st, #[trigger] ids[k]) by {
        assert(nn_index_of(m[k].0) == Some(m[k].1));
    }
    assert forall|n: int| 0 <= n < 20 implies
        slot_reading(ids, st, n, zero, false) == positions[n]
        && slot_reading(ids, st, n, zero, true) == velocities[n] by {
        let r = crate::joints::row_of_nn_index(n);
        assert(m[r].1 == n);
        assert(actuator_of(m[r].1) == Some(m[r].0));
        assert(ids[r] == m[r].0);
        assert(ids.contains(m[r].0));
        assert(first_state(st, ids[r]) == Some(st[r]));
    }
    assert(Seq::new(NUM_JOINTS as nat, |n: int| slot_reading(ids, st, n, zero, false)) =~= positions);
    assert(Seq::new(NUM_JOINTS as nat, |n: int| slot_reading(ids, st, n, zero, true)) =~= velocities);
    assert(paired_actions(positions) =~= st.map_values(|r: (u32, T, T)| (r.0, r.1)));
}


/// Length of the observation vector the network reads.
pub fn observation_size() -> (n: usize)
    ensures
        n == OBSERVATION_LEN,
        n == DOF_LEN + IMU_LEN,
{
    OBSERVATION_LEN
}

fn copy_into<T: Copy>(out: &mut Vec<T>, src: &Vec<T>)
    ensures
        final(out)@ == old(out)@ + src@,
{
    let ghost start = out@;
    let mut i: usize = 0;
    while i < src.len()
        invariant
            0 <= i <= src.len(),
            out@ == start + src@.take(i as int),
        decreases src.len() - i,
    {
        out.push(src[i]);
        i += 1;
        assert(out@ =~= start + src@.take(i as int));
    }
    assert(src@.take(src@.len() as int) =~= src@);
}

/// The joint part of the observation: the positions in network order,
/// then the velocities in network order.
pub fn dof_observation<T: Copy>(positions: &Vec<T>, velocities: &Vec<T>) -> (obs: Vec<T>)
    requires
        positions@.len() == NUM_JOINTS,
        velocities@.len() == NUM_JOINTS,
    ensures
        obs@ == positions@ + velocities@,
        obs@.len() == DOF_LEN,
{
    let mut obs: Vec<T> = Vec::new();
    copy_into(&mut obs, positions);
    copy_into(&mut obs, velocities);
    assert(obs@ =~= positions@ + velocities@);
    obs
}

/// Why an inertial reading was incomplete.
#[derive(Clone, Copy, Debug, PartialEq, Eq, Structural)]
pub enum ImuReadError {
    NoAccelerometer,
    NoGyroscope,
    NoQuaternion,
}

/// The three parts of an inertial reading that the policy needs, or the
/// first one missing: accelerometer, then gyroscope, then orientation.
pub fn require_imu_parts<A, G, Q>(accelerometer: Option<A>, gyroscope: Option<G>, quaternion: Option<Q>) -> (r: Result<(A, G, Q), ImuReadError>)
    ensures
        match r {
            Ok((a, g, q)) => accelerometer == Some(a) && gyroscope == Some(g) && quaternion == Some(q),
            Err(e) => e == if accelerometer is None {
                ImuReadError::NoAccelerometer
            } else if gyroscope is None {
                ImuReadError::NoGyroscope
            } else {
                ImuReadError::NoQuaternion
            } && (accelerometer is None || gyroscope is None || quaternion is None),
        },
{
    let a = match accelerometer {
        Some(a) => a,
        None => return Err(ImuReadError::NoAccelerometer),
    };
    let g = match gyroscope {
        Some(g) => g,
        None => return Err(ImuReadError::NoGyroscope),
    };
    let q = match quaternion {
        Some(q) => q,
        None => return Err(ImuReadError::NoQuaternion),
    };
    Ok((a, g, q))
}

/// The inertial part of the observation: projected gravity, then linear
/// acceleration, then angular velocity, each as x, y, z.
pub fn imu_observation<T: Copy>(gravity: (T, T, T), acceleration: (T, T, T), angular_velocity: (T, T, T)) -> (obs: Vec<T>)
    ensures
        obs@ == seq![
            gravity.0, gravity.1, gravity.2,
            acceleration.0, acceleration.1, acceleration.2,
            angular_velocity.0, angular_velocity.1, angular_velocity.2,
        ],
        obs@.len() == IMU_LEN,
{
    let mut obs: Vec<T> = Vec::new();
    obs.push(gravity.0);
    obs.push(gravity.1);
    obs.push(gravity.2);
    obs.push(acceleration.0);
    obs.push(acceleration.1);
    obs.push(acceleration.2);
    obs.push(angular_velocity.0);
    obs.push(angular_velocity.1);
    obs.push(angular_velocity.2);
    assert(obs@ =~= seq![
        gravity.0, gravity.1, gravity.2,
        acceleration.0, acceleration.1, acceleration.2,
        angular_velocity.0, angular_velocity.1, angular_velocity.2,
    ]);
    obs
}

/// The observation the policy network reads, kept between control steps.
pub struct ObservationBuffer<T> {
    values: Vec<T>,
}

impl<T: Copy> ObservationBuffer<T> {
    /// The observation's entries.
    pub closed spec fn view(&self) -> Seq<T> {
        self.values@
    }

    /// An observation of `zero`s.
    pub fn new(zero: T) -> (b: ObservationBuffer<T>)
        ensures
            b.view() == Seq::new(OBSERVATION_LEN as nat, |i: int| zero),
    {
        let mut values: Vec<T> = Vec::new();
        let mut i: usize = 0;
        while i < OBSERVATION_LEN
            invariant
                0 <= i <= OBSERVATION_LEN,
                values@ == Seq::new(i as nat, |k: int| zero),
            decreases OBSERVATION_LEN - i,
        {
            values.push(zero);
            i += 1;
            assert(values@ =~= Seq::new(i as nat, |k: int| zero));
        }
        ObservationBuffer { values }
    }

    /// A copy of the observation's entries.
    pub fn values(&self) -> (v: Vec<T>)
        ensures
            v@ == self.view(),
    {
        let mut v: Vec<T> = Vec::new();
        copy_into(&mut v, &self.values);
        assert(v@ =~= self.view());
        v
    }

    /// Takes in the latest joint and inertial readings, in that order. A
    /// failed joint reading leaves the observation as it was; a failed
    /// inertial reading leaves the joint part updated and the inertial part
    /// as it was. Either failure is passed on; otherwise the new observation
    /// is returned.
    pub fn refresh<E>(&mut self, dof: Result<Vec<T>, E>, imu: Result<Vec<T>, E>) -> (r: Result<Vec<T>, E>)
        requires
            old(self).view().len() == OBSERVATION_LEN,
            dof matches Ok(d) ==> d@.len() == DOF_LEN,
            imu matches Ok(m) ==> m@.len() == IMU_LEN,
        ensures
            final(self).view().len() == OBSERVATION_LEN,
            match (dof, imu) {
                (Err(e), _) => r == Err::<Vec<T>, E>(e) && final(self).view() == old(self).view(),
                (Ok(d), Err(e)) => r == Err::<Vec<T>, E>(e)
                    && final(self).view() == d@ + old(self).view().subrange(DOF_LEN as int, OBSERVATION_LEN as int),
                (Ok(d), Ok(m)) => final(self).view() == d@ + m@
                    && (r matches Ok(v) && v@ == final(self).view()),
            },
    {
        let d = match dof {
            Ok(d) => d,
            Err(e) => return Err(e),
        };
        let mut i: usize = 0;
        while i < DOF_LEN
            invariant
                0 <= i <= DOF_LEN,
                d@.len() == DOF_LEN,
                self.values@.len() == OBSERVATION_LEN,
                forall|k: int| 0 <= k < i ==> #[trigger] self.values@[k] == d@[k],
                forall|k: int| i <= k < OBSERVATION_LEN ==> #[trigger] self.values@[k] == old(self).values@[k],
            decreases DOF_LEN - i,
        {
            self.values.set(i, d[i]);
            i += 1;
        }
        let m = match imu {
            Ok(m) => m,
            Err(e) => {
                assert(self.values@ =~= d@ + old(self).values@.subrange(DOF_LEN as int, OBSERVATION_LEN as int));
                return Err(e);
            },
        };
        let mut j: usize = 0;
        while j < IMU_LEN
            invariant
                0 <= j <= IMU_LEN,
                d@.len() == DOF_LEN,
                m@.len() == IMU_LEN,
                self.values@.len() == OBSERVATION_LEN,
                forall|k: int| 0 <= k < DOF_LEN ==> #[trigger] self.values@[k] == d@[k],
                forall|k: int| DOF_LEN <= k < DOF_LEN + j ==> #[trigger] self.values@[k] == m@[k - DOF_LEN],
            decreases IMU_LEN - j,
        {
            self.values.set(DOF_LEN + j, m[j]);
            j += 1;
        }
        assert(self.values@ =~= d@ + m@);
        Ok(self.values())
    }
}


/// A reported position, or `zero` where none was reported.
pub open spec fn position_or<T>(p: Option<T>, zero: T) -> T {
    match p {
        Some(x) => x,
        None => zero,
    }
}

/// Where each actuator starts a gradual move. With readings from the
/// hardware: each reporting actuator at its reported position (`zero` where
/// it reported none), in the order reported. Without hardware: each of
/// `ids` at `zero`.
pub fn start_positions<T: Copy>(readings: Option<&Vec<(u32, Option<T>)>>, ids: &Vec<u8>, zero: T) -> (start: Vec<(u32, T)>)
    ensures
        match readings {
            Some(r) => start@ == r@.map_values(|s: (u32, Option<T>)| (s.0, position_or(s.1, zero))),
            None => start@ == ids@.map_values(|id: u8| (id as u32, zero)),
        },
{
    let mut start: Vec<(u32, T)> = Vec::new();
    match readings {
        Some(r) => {
            let mut i: usize = 0;
            while i < r.len()
                invariant
                    0 <= i <= r.len(),
                    start@ == r@.take(i as int).map_values(|s: (u32, Option<T>)| (s.0, position_or(s.1, zero))),
                decreases r.len() - i,
            {
                let p = match r[i].1 {
                    Some(x) => x,
                    None => zero,
                };
                start.push((r[i].0, p));
                i += 1;
                assert(start@ =~= r@.take(i as int).map_values(|s: (u32, Option<T>)| (s.0, position_or(s.1, zero))));
            }
            assert(r@.take(r@.len() as int) =~= r@);
        },
        None => {
            let mut i: usize = 0;
            while i < ids.len()
                invariant
                    0 <= i <= ids.len(),
                    start@ == ids@.take(i as int).map_values(|id: u8| (id as u32, zero)),
                decreases ids.len() - i,
            {
                start.push((ids[i] as u32, zero));
                i += 1;
                assert(start@ =~= ids@.take(i as int).map_values(|id: u8| (id as u32, zero)));
            }
            assert(ids@.take(ids@.len() as int) =~= ids@);
        },
    }
    start
}


/// The text reported for a joint reading that could not be placed.
pub open spec fn dof_error_text(e: DofError) -> Seq<char> {
    match e {
        DofError::NotInIdMap(id) => "Actuator ID "@ + decimal(id as nat) + " not found in ACTUATOR_ID_MAP"@,
        DofError::NotInStateResponse(id) => "Actuator ID "@ + decimal(id as nat) + " not found in state response"@,
    }
}

/// The message for a joint reading that could not be placed, naming the
/// actuator.
pub fn dof_error_message(e: DofError) -> (m: String)
    ensures
        m@ == dof_error_text(e),
{
    let mut m = String::new();
    append_str(&mut m, "Actuator ID ");
    match e {
        DofError::NotInIdMap(id) => {
            push_decimal(&mut m, id as u64);
            append_str(&mut m, " not found in ACTUATOR_ID_MAP");
        },
        DofError::NotInStateResponse(id) => {
            push_decimal(&mut m, id as u64);
            append_str(&mut m, " not found in state response");
        },
    }
    assert(m@ =~= dof_error_text(e));
    m
}

/// The text reported for an incomplete inertial reading.
pub open spec fn imu_read_error_text(e: ImuReadError) -> Seq<char> {
    match e {
        ImuReadError::NoAccelerometer => "No accelerometer values"@,
        ImuReadError::NoGyroscope => "No gyroscope values"@,
        ImuReadError::NoQuaternion => "No quaternion values"@,
    }
}

/// The message for an incomplete inertial reading, naming the missing part.
pub fn imu_read_error_message(e: ImuReadError) -> (m: String)
    ensures
        m@ == imu_read_error_text(e),
{
    let mut m = String::new();
    match e {
        ImuReadError::NoAccelerometer => append_str(&mut m, "No accelerometer values"),
        ImuReadError::NoGyroscope => append_str(&mut m, "No gyroscope values"),
        ImuReadError::NoQuaternion => append_str(&mut m, "No quaternion values"),
    }
    assert(m@ =~= imu_read_error_text(e));
    m
}

} // verus!
