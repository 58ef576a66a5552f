//! The K-Bot's actuators: how each one is configured, the gains it is
//! driven with, and the sequence of bus operations that a configuration
//! request turns into.

use vstd::prelude::*;
use crate::joints::{id_map, lemma_id_map_is_bijection, lemma_row_cases};

verus! {

/// Model of a RobStride actuator.
#[derive(Clone, Copy, Debug, PartialEq, Eq, Structural)]
pub enum ActuatorKind {
    RobStride00,
    RobStride01,
    RobStride02,
    RobStride03,
    RobStride04,
}

/// How one actuator is registered with the bus supervisor. Angles are in
/// whole degrees; `None` leaves the supervisor's own limit in place.
#[derive(Clone, Copy, Debug, PartialEq, Eq, Structural)]
pub struct ActuatorSpec {
    pub actuator_id: u8,
    pub kind: ActuatorKind,
    pub max_angle_change_deg: Option<u32>,
    pub max_velocity_deg: Option<u32>,
}

/// An actuator of the K-Bot with the given limits.
pub open spec fn kbot_spec(id: u8, kind: ActuatorKind, max_angle_change_deg: u32) -> ActuatorSpec {
    ActuatorSpec {
        actuator_id: id,
        kind,
        max_angle_change_deg: Some(max_angle_change_deg),
        max_velocity_deg: Some(10),
    }
}

/// The twenty actuators of the K-Bot: left arm (11-15), right arm (21-25),
/// left leg (31-35), right leg (41-45). Shoulders and hips are RobStride 03
/// or 04, elbows, shoulder yaws and ankles RobStride 02, and the wrists
/// RobStride 00.
pub open spec fn kbot_actuator_specs() -> Seq<ActuatorSpec> {
    seq![
        kbot_spec(11, ActuatorKind::RobStride03, 30),
        kbot_spec(12, ActuatorKind::RobStride03, 30),
        kbot_spec(13, ActuatorKind::RobStride02, 30),
        kbot_spec(14, ActuatorKind::RobStride02, 30),
        kbot_spec(15, ActuatorKind::RobStride00, 30),
        kbot_spec(21, ActuatorKind::RobStride03, 30),
        kbot_spec(22, ActuatorKind::RobStride03, 30),
        kbot_spec(23, ActuatorKind::RobStride02, 30),
        kbot_spec(24, ActuatorKind::RobStride02, 30),
        kbot_spec(25, ActuatorKind::RobStride00, 30),
        kbot_spec(31, ActuatorKind::RobStride04, 30),
        kbot_spec(32, ActuatorKind::RobStride03, 45),
        kbot_spec(33, ActuatorKind::RobStride03, 90),
        kbot_spec(34, ActuatorKind::RobStride04, 45),
        kbot_spec(35, ActuatorKind::RobStride02, 90),
        kbot_spec(41, ActuatorKind::RobStride04, 30),
        kbot_spec(42, ActuatorKind::RobStride03, 30),
        kbot_spec(43, ActuatorKind::RobStride03, 90),
        kbot_spec(44, ActuatorKind::RobStride04, 45),
        kbot_spec(45, ActuatorKind::RobStride02, 90),
    ]
}

fn spec_entry(actuator_id: u8, kind: ActuatorKind, max_angle_change_deg: u32) -> (s: ActuatorSpec)
    ensures
        s == kbot_spec(actuator_id, kind, max_angle_change_deg),
{
    ActuatorSpec {
        actuator_id,
        kind,
        max_angle_change_deg: Some(max_angle_change_deg),
        max_velocity_deg: Some(10),
    }
}

/// The configuration of every actuator of the K-Bot.
pub fn create_kbot_actuators() -> (specs: Vec<ActuatorSpec>)
    ensures
        specs@ == kbot_actuator_specs(),
{
    let mut specs: Vec<ActuatorSpec> = Vec::new();
    // Left arm
    specs.push(spec_entry(11, ActuatorKind::RobStride03, 30));
    specs.push(spec_entry(12, ActuatorKind::RobStride03, 30));
    specs.push(spec_entry(13, ActuatorKind::RobStride02, 30));
    specs.push(spec_entry(14, ActuatorKind::RobStride02, 30));
    specs.push(spec_entry(15, ActuatorKind::RobStride00, 30));
    // Right arm
    specs.push(spec_entry(21, ActuatorKind::RobStride03, 30));
    specs.push(spec_entry(22, ActuatorKind::RobStride03, 30));
    specs.push(spec_entry(23, ActuatorKind::RobStride02, 30));
    specs.push(spec_entry(24, ActuatorKind::RobStride02, 30));
    specs.push(spec_entry(25, ActuatorKind::RobStride00, 30));
    // Left leg
    specs.push(spec_entry(31, ActuatorKind::RobStride04, 30));
    specs.push(spec_entry(32, ActuatorKind::RobStride03, 45));
    specs.push(spec_entry(33, ActuatorKind::RobStride03, 90));
    specs.push(spec_entry(34, ActuatorKind::RobStride04, 45));
    specs.push(spec_entry(35, ActuatorKind::RobStride02, 90));
    // Right leg
    specs.push(spec_entry(41, ActuatorKind::RobStride04, 30));
    specs.push(spec_entry(42, ActuatorKind::RobStride03, 30));
    specs.push(spec_entry(43, ActuatorKind::RobStride03, 90));
    specs.push(spec_entry(44, ActuatorKind::RobStride04, 45));
    specs.push(spec_entry(45, ActuatorKind::RobStride02, 90));
    assert(specs@ =~= kbot_actuator_specs());
    specs
}

/// IDs of the given actuators, in the same order.
pub fn actuator_ids(specs: &Vec<ActuatorSpec>) -> (ids: Vec<u8>)
    ensures
        ids@ == specs@.map_values(|s: ActuatorSpec| s.actuator_id),
{
    let mut ids: Vec<u8> = Vec::new();
    let mut i: usize = 0;
    while i < specs.len()
        invariant
            0 <= i <= specs.len(),
            ids@ == specs@.take(i as int).map_values(|s: ActuatorSpec| s.actuator_id),
        decreases specs.len() - i,
    {
        ids.push(specs[i].actuator_id);
        i += 1;
        assert(specs@.take(i as int).drop_last() =~= specs@.take(i - 1));
    }
    assert(specs@.take(i as int) =~= specs@);
    ids
}

/// IDs of the K-Bot's actuators.
pub open spec fn kbot_ids() -> Seq<u8> {
    kbot_actuator_specs().map_values(|s: ActuatorSpec| s.actuator_id)
}

/// The configuration that a bus scan uses: the broadcast ID, as a
/// RobStride 03, with no limits of its own.
pub fn scan_configuration() -> (specs: Vec<ActuatorSpec>)
    ensures
        specs@ == seq![ActuatorSpec {
            actuator_id: 0xFD,
            kind: ActuatorKind::RobStride03,
            max_angle_change_deg: None,
            max_velocity_deg: None,
        }],
{
    let mut specs: Vec<ActuatorSpec> = Vec::new();
    specs.push(ActuatorSpec {
        actuator_id: 0xFD,
        kind: ActuatorKind::RobStride03,
        max_angle_change_deg: None,
        max_velocity_deg: None,
    });
    specs
}


/// Every actuator of the K-Bot has a row in the joint table, in the same
/// order: the configured actuators are exactly the joints the policy drives.
pub proof fn law_kbot_actuators_match_joint_table()
    ensures
        kbot_ids() =~= id_map().map_values(|e: (u8, usize)| e.0),
        kbot_ids().no_duplicates(),
{
    lemma_id_map_is_bijection();
    let k = kbot_actuator_specs();
    let m = id_map();
    assert(k[0].actuator_id == m[0].0 && k[1].actuator_id == m[1].0 && k[2].actuator_id == m[2].0);
    assert(k[3].actuator_id == m[3].0 && k[4].actuator_id == m[4].0 && k[5].actuator_id == m[5].0);
    assert(k[6].actuator_id == m[6].0 && k[7].actuator_id == m[7].0 && k[8].actuator_id == m[8].0);
    assert(k[9].actuator_id == m[9].0 && k[10].actuator_id == m[10].0 && k[11].actuator_id == m[11].0);
    assert(k[12].actuator_id == m[12].0 && k[13].actuator_id == m[13].0 && k[14].actuator_id == m[14].0);
    assert(k[15].actuator_id == m[15].0 && k[16].actuator_id == m[16].0 && k[17].actuator_id == m[17].0);
    assert(k[18].actuator_id == m[18].0 && k[19].actuator_id == m[19].0);
    assert forall|i: int| 0 <= i < 20 implies #[trigger] kbot_ids()[i] == m[i].0 by {
        lemma_row_cases(i);
    }
    assert forall|i: int, j: int| 0 <= i < kbot_ids().len() && 0 <= j < kbot_ids().len() && i != j
        implies kbot_ids()[i] != kbot_ids()[j] by {
        assert(kbot_ids()[i] == m[i].0 && kbot_ids()[j] == m[j].0);
    }
}

/// Position and damping gains, and the torque limit, of one actuator, in
/// thousandths of the controller's units.
#[derive(Clone, Copy, Debug, PartialEq, Eq, Structural)]
pub struct GainRow {
    pub actuator_id: usize,
    pub kp_milli: u32,
    pub kd_milli: u32,
    pub max_torque_milli: u32,
}

/// A row of the gain table.
pub open spec fn gain(actuator_id: usize, kp_milli: u32, kd_milli: u32, max_torque_milli: u32) -> GainRow {
    GainRow { actuator_id, kp_milli, kd_milli, max_torque_milli }
}

/// Gains and torque limits of the K-Bot's joints. The position gains come
/// in five levels (20, 40, 100, 150 and 200) and the torque limits in four
/// (9.8, 11.9, 42 and 84), one per actuator model; the damping gains are
/// tuned per joint.
pub open spec fn gain_table() -> Seq<GainRow> {
    seq![
        gain(11, 100_000, 8_284, 42_000),
        gain(12, 100_000, 8_257, 42_000),
        gain(13, 40_000, 945, 11_900),
        gain(14, 40_000, 1_266, 11_900),
        gain(15, 20_000, 295, 9_800),
        gain(21, 100_000, 8_284, 42_000),
        gain(22, 100_000, 8_257, 42_000),
        gain(23, 40_000, 945, 11_900),
        gain(24, 40_000, 1_266, 11_900),
        gain(25, 20_000, 295, 9_800),
        gain(31, 150_000, 24_722, 84_000),
        gain(32, 200_000, 26_387, 42_000),
        gain(33, 100_000, 3_419, 42_000),
        gain(34, 150_000, 8_654, 84_000),
        gain(35, 40_000, 990, 11_900),
        gain(41, 150_000, 24_722, 84_000),
        gain(42, 200_000, 26_387, 42_000),
        gain(43, 100_000, 3_419, 42_000),
        gain(44, 150_000, 8_654, 84_000),
        gain(45, 40_000, 990, 11_900),
    ]
}

fn gain_entry(actuator_id: usize, kp_milli: u32, kd_milli: u32, max_torque_milli: u32) -> (g: GainRow)
    ensures
        g == gain(actuator_id, kp_milli, kd_milli, max_torque_milli),
{
    GainRow { actuator_id, kp_milli, kd_milli, max_torque_milli }
}

/// The gain table.
pub fn actuator_gains() -> (t: Vec<GainRow>)
    ensures
        t@ == gain_table(),
{
    let mut t: Vec<GainRow> = Vec::new();
    t.push(gain_entry(11, 100_000, 8_284, 42_000));
    t.push(gain_entry(12, 100_000, 8_257, 42_000));
    t.push(gain_entry(13, 40_000, 945, 11_900));
    t.push(gain_entry(14, 40_000, 1_266, 11_900));
    t.push(gain_entry(15, 20_000, 295, 9_800));
    t.push(gain_entry(21, 100_000, 8_284, 42_000));
    t.push(gain_entry(22, 100_000, 8_257, 42_000));
    t.push(gain_entry(23, 40_000, 945, 11_900));
    t.push(gain_entry(24, 40_000, 1_266, 11_900));
    t.push(gain_entry(25, 20_000, 295, 9_800));
    t.push(gain_entry(31, 150_000, 24_722, 84_000));
    t.push(gain_entry(32, 200_000, 26_387, 42_000));
    t.push(gain_entry(33, 100_000, 3_419, 42_000));
    t.push(gain_entry(34, 150_000, 8_654, 84_000));
    t.push(gain_entry(35, 40_000, 990, 11_900));
    t.push(gain_entry(41, 150_000, 24_722, 84_000));
    t.push(gain_entry(42, 200_000, 26_387, 42_000));
    t.push(gain_entry(43, 100_000, 3_419, 42_000));
    t.push(gain_entry(44, 150_000, 8_654, 84_000));
    t.push(gain_entry(45, 40_000, 990, 11_900));
    assert(t@ =~= gain_table());
    t
}

/// The first row of `table` that belongs to `actuator_id`, if any.
pub open spec fn first_gain_row(table: Seq<GainRow>, actuator_id: u8) -> Option<GainRow> {
    if exists|i: int| 0 <= i < table.len() && #[trigger] table[i].actuator_id == actuator_id as usize {
        let i = choose|i: int|
            0 <= i < table.len() && #[trigger] table[i].actuator_id == actuator_id as usize
            && forall|j: int| 0 <= j < i ==> #[trigger] table[j].actuator_id != actuator_id as usize;
        Some(table[i])
    } else {
        None
    }
}

/// The gain row of actuator `actuator_id`, found by scanning the gain table.
pub fn gains_for_actuator(actuator_id: u8) -> (g: Option<GainRow>)
    ensures
        g == first_gain_row(gain_table(), actuator_id),
{
    let t = actuator_gains();
    let mut i: usize = 0;
    while i < t.len()
        invariant
            t@ == gain_table(),
            0 <= i <= t.len(),
            forall|k: int| 0 <= k < i ==> #[trigger] t@[k].actuator_id != actuator_id as usize,
        decreases t.len() - i,
    {
        if t[i].actuator_id == actuator_id as usize {
            proof {
                let w = choose|w: int|
                    0 <= w < t@.len() && #[trigger] t@[w].actuator_id == actuator_id as usize
                    && forall|j: int| 0 <= j < w ==> #[trigger] t@[j].actuator_id != actuator_id as usize;
                assert(0 <= i < t@.len() && t@[i as int].actuator_id == actuator_id as usize
                    && forall|j: int| 0 <= j < i ==> #[trigger] t@[j].actuator_id != actuator_id as usize);
                if w < i {
                } else if w > i {
                }
                assert(w == i);
            }
            return Some(t[i]);
        }
        i += 1;
    }
    None
}

/// Every actuator of the K-Bot has a gain row of its own.
pub proof fn law_every_kbot_actuator_has_gains()
    ensures
        forall|i: int| 0 <= i < kbot_ids().len() ==>
            (#[trigger] first_gain_row(gain_table(), kbot_ids()[i])) == Some(gain_table()[i]),
{
    let t = gain_table();
    let k = kbot_ids();
    assert forall|i: int| 0 <= i < k.len() implies
        (#[trigger] first_gain_row(t, k[i])) == Some(t[i]) by {
        lemma_row_cases(i);
        assert(t[i].actuator_id == k[i] as usize);
        assert(forall|j: int| 0 <= j < i ==> #[trigger] t[j].actuator_id != k[i] as usize);
        let w = choose|w: int|
            0 <= w < t.len() && #[trigger] t[w].actuator_id == k[i] as usize
            && forall|j: int| 0 <= j < w ==> #[trigger] t[j].actuator_id != k[i] as usize;
        if w < i {
        } else if w > i {
        }
    }
}


/// The bus address of an actuator: the low byte of its ID.
pub fn motor_id(actuator_id: u32) -> (m: u8)
    ensures
        m == actuator_id % 256,
{
    assert((actuator_id as u8) == actuator_id % 256) by (bit_vector);
    actuator_id as u8
}

/// What a configuration request asks of one actuator, apart from its gains.
#[derive(Clone, Copy, Debug, PartialEq, Eq, Structural)]
pub struct ConfigureCommand {
    pub actuator_id: u32,
    pub torque_enabled: Option<bool>,
    pub zero_position: Option<bool>,
    pub new_actuator_id: Option<u32>,
}

/// One operation on the bus supervisor, addressed to a motor.
#[derive(Clone, Copy, Debug, PartialEq, Eq, Structural)]
pub enum SupervisorStep {
    /// Write the control configuration (gains and limits).
    Configure { motor: u8 },
    /// Turn torque on.
    Enable { motor: u8 },
    /// Turn torque off, clearing faults when `clear_fault` holds.
    Disable { motor: u8, clear_fault: bool },
    /// Take the present position as zero.
    Zero { motor: u8 },
    /// Move the motor to a new bus address.
    ChangeId { motor: u8, new_id: u8 },
}

/// The operations a configuration request turns into, in order: write the
/// configuration; enable or disable torque where asked; zero where asked;
/// change the address where asked.
pub open spec fn configure_plan(cmd: ConfigureCommand) -> Seq<SupervisorStep> {
    let m = (cmd.actuator_id % 256) as u8;
    let torque = match cmd.torque_enabled {
        Some(true) => seq![SupervisorStep::Enable { motor: m }],
        Some(false) => seq![SupervisorStep::Disable { motor: m, clear_fault: true }],
        None => Seq::<SupervisorStep>::empty(),
    };
    let zero = if cmd.zero_position == Some(true) {
        seq![SupervisorStep::Zero { motor: m }]
    } else {
        Seq::<SupervisorStep>::empty()
    };
    let change = match cmd.new_actuator_id {
        Some(n) => seq![SupervisorStep::ChangeId { motor: m, new_id: (n % 256) as u8 }],
        None => Seq::<SupervisorStep>::empty(),
    };
    seq![SupervisorStep::Configure { motor: m }] + torque + zero + change
}

/// The supervisor operations that `cmd` calls for, in the order they are
/// to be carried out.
pub fn configure_steps(cmd: &ConfigureCommand) -> (steps: Vec<SupervisorStep>)
    ensures
        steps@ == configure_plan(*cmd),
{
    let m = motor_id(cmd.actuator_id);
    let mut steps: Vec<SupervisorStep> = Vec::new();
    steps.push(SupervisorStep::Configure { motor: m });
    match cmd.torque_enabled {
        Some(true) => steps.push(SupervisorStep::Enable { motor: m }),
        Some(false) => steps.push(SupervisorStep::Disable { motor: m, clear_fault: true }),
        None => {},
    }
    if cmd.zero_position == Some(true) {
        steps.push(SupervisorStep::Zero { motor: m });
    }
    if let Some(n) = cmd.new_actuator_id {
        let new_id = motor_id(n);
        steps.push(SupervisorStep::ChangeId { motor: m, new_id });
    }
    assert(steps@ =~= configure_plan(*cmd));
    steps
}

impl SupervisorStep {
    /// Whether a failure of this step ends the request. A failed
    /// configuration write is reported in the response instead.
    pub open spec fn spec_aborts_on_failure(self) -> bool {
        !(self is Configure)
    }

    /// Whether a failure of this step ends the request.
    pub fn aborts_on_failure(&self) -> (b: bool)
        ensures
            b == self.spec_aborts_on_failure(),
    {
        match self {
            SupervisorStep::Configure { .. } => false,
            _ => true,
        }
    }
}

/// Outcome of a command sent to one actuator.
pub struct ActionResult {
    pub actuator_id: u32,
    pub success: bool,
    pub error: Option<String>,
}

impl ActionResult {
    /// The result reported for actuator `actuator_id` after the bus answered
    /// `outcome`: a success without an error, or a failure carrying the
    /// error's text.
    pub fn from_outcome(actuator_id: u32, outcome: Result<(), String>) -> (r: ActionResult)
        ensures
            r.actuator_id == actuator_id,
            r.success == outcome is Ok,
            r.error == match outcome {
                Ok(_) => None::<String>,
                Err(e) => Some(e),
            },
    {
        match outcome {
            Ok(_) => ActionResult { actuator_id, success: true, error: None },
            Err(e) => ActionResult { actuator_id, success: false, error: Some(e) },
        }
    }
}

/// Outcome of a configuration request.
pub struct ActionResponse {
    pub success: bool,
    pub error: Option<String>,
}

impl ActionResponse {
    /// The response to a configuration request whose configuration write
    /// ended with `outcome`.
    pub fn from_outcome(outcome: Result<(), String>) -> (r: ActionResponse)
        ensures
            r.success == outcome is Ok,
            r.error == match outcome {
                Ok(_) => None::<String>,
                Err(e) => Some(e),
            },
    {
        match outcome {
            Ok(_) => ActionResponse { success: true, error: None },
            Err(e) => ActionResponse { success: false, error: Some(e) },
        }
    }
}

/// One second, in nanoseconds.
pub const ONLINE_WINDOW_NANOS: u128 = 1_000_000_000;

/// Whether an actuator counts as online: its last feedback is less than a
/// second old. Feedback whose age cannot be told counts as a second old.
pub fn is_online(feedback_age_nanos: Option<u128>) -> (online: bool)
    ensures
        online == match feedback_age_nanos {
            Some(age) => age < ONLINE_WINDOW_NANOS,
            None => false,
        },
{
    let age = match feedback_age_nanos {
        Some(age) => age,
        None => ONLINE_WINDOW_NANOS,
    };
    age < ONLINE_WINDOW_NANOS
}

/// A request that changes nothing but the given fields of `actuator_id`.
pub open spec fn plain_command(actuator_id: u32, torque_enabled: Option<bool>, zero_position: Option<bool>) -> ConfigureCommand {
    ConfigureCommand { actuator_id, torque_enabled, zero_position, new_actuator_id: None }
}

/// The requests that zero the given actuators, as three phases to be run
/// one after the other: disable each, zero each, enable each again.
pub fn zeroing_phases(ids: &Vec<u8>) -> (phases: (Vec<ConfigureCommand>, Vec<ConfigureCommand>, Vec<ConfigureCommand>))
    ensures
        phases.0@.len() == ids@.len(),
        phases.1@.len() == ids@.len(),
        phases.2@.len() == ids@.len(),
        forall|i: int| 0 <= i < ids@.len() ==> {
            &&& #[trigger] phases.0@[i] == plain_command(ids@[i] as u32, Some(false), None)
            &&& phases.1@[i] == plain_command(ids@[i] as u32, None, Some(true))
            &&& phases.2@[i] == plain_command(ids@[i] as u32, Some(true), None)
        },
{
    let mut disable: Vec<ConfigureCommand> = Vec::new();
    let mut zero: Vec<ConfigureCommand> = Vec::new();
    let mut enable: Vec<ConfigureCommand> = Vec::new();
    let mut i: usize = 0;
    while i < ids.len()
        invariant
            0 <= i <= ids.len(),
            disable@.len() == i,
            zero@.len() == i,
            enable@.len() == i,
            forall|k: int| 0 <= k < i ==> {
                &&& #[trigger] disable@[k] == plain_command(ids@[k] as u32, Some(false), None)
                &&& zero@[k] == plain_command(ids@[k] as u32, None, Some(true))
                &&& enable@[k] == plain_command(ids@[k] as u32, Some(true), None)
            },
        decreases ids.len() - i,
    {
        let id = ids[i] as u32;
        disable.push(ConfigureCommand { actuator_id: id, torque_enabled: Some(false), zero_position: None, new_actuator_id: None });
        zero.push(ConfigureCommand { actuator_id: id, torque_enabled: None, zero_position: Some(true), new_actuator_id: None });
        enable.push(ConfigureCommand { actuator_id: id, torque_enabled: Some(true), zero_position: None, new_actuator_id: None });
        i += 1;
    }
    (disable, zero, enable)
}

/// The start-up configuration of actuator `actuator_id`: its gain row, and
/// a request that sets torque on or off as asked. `None` where the gain
/// table has no row for it.
pub fn startup_configuration(actuator_id: u8, torque_enabled: bool) -> (c: Option<(GainRow, ConfigureCommand)>)
    ensures
        c == match first_gain_row(gain_table(), actuator_id) {
            Some(row) => Some((row, plain_command(actuator_id as u32, Some(torque_enabled), None))),
            None => None,
        },
{
    match gains_for_actuator(actuator_id) {
        Some(row) => Some((row, ConfigureCommand {
            actuator_id: actuator_id as u32,
            torque_enabled: Some(torque_enabled),
            zero_position: None,
            new_actuator_id: None,
        })),
        None => None,
    }
}


/// Every actuator ID a bus scan asks after: 1 to 255.
pub fn scan_ids() -> (ids: Vec<u32>)
    ensures
        ids@ == Seq::new(255, |i: int| (i + 1) as u32),
{
    let mut ids: Vec<u32> = Vec::new();
    let mut id: u32 = 1;
    while id <= 255
        invariant
            1 <= id <= 256,
            ids@ == Seq::new((id - 1) as nat, |i: int| (i + 1) as u32),
        decreases 256 - id,
    {
        ids.push(id);
        id += 1;
        assert(ids@ =~= Seq::new((id - 1) as nat, |i: int| (i + 1) as u32));
    }
    ids
}

/// Whether the actuator at bus address `actuator_id % 256` is one of the
/// K-Bot's.
pub fn is_kbot_actuator(actuator_id: u32) -> (b: bool)
    ensures
        b == kbot_ids().contains((actuator_id % 256) as u8),
{
    let address = motor_id(actuator_id);
    assert(address == (actuator_id % 256) as u8);
    let ids = actuator_ids(&create_kbot_actuators());
    let mut i: usize = 0;
    while i < ids.len()
        invariant
            ids@ == kbot_ids(),
            address == (actuator_id % 256) as u8,
            0 <= i <= ids@.len(),
            forall|k: int| 0 <= k < i ==> ids@[k] != address,
        decreases ids.len() - i,
    {
        if ids[i] == address {
            assert(kbot_ids()[i as int] == address);
            return true;
        }
        i += 1;
    }
    false
}


/// Each request of the zeroing phases writes the configuration and then
/// does the one thing its phase is for: turn torque off, take the present
/// position as zero, or turn torque back on.
pub proof fn law_zeroing_steps(id: u8)
    ensures
        configure_plan(plain_command(id as u32, Some(false), None))
            == seq![SupervisorStep::Configure { motor: id }, SupervisorStep::Disable { motor: id, clear_fault: true }],
        configure_plan(plain_command(id as u32, None, Some(true)))
            == seq![SupervisorStep::Configure { motor: id }, SupervisorStep::Zero { motor: id }],
        configure_plan(plain_command(id as u32, Some(true), None))
            == seq![SupervisorStep::Configure { motor: id }, SupervisorStep::Enable { motor: id }],
{
    assert((id as u32) % 256 == id as int);
    assert(((id as u32) % 256) as u8 == id);
    assert(configure_plan(plain_command(id as u32, Some(false), None))
        =~= seq![SupervisorStep::Configure { motor: id }, SupervisorStep::Disable { motor: id, clear_fault: true }]);
    assert(configure_plan(plain_command(id as u32, None, Some(true)))
        =~= seq![SupervisorStep::Configure { motor: id }, SupervisorStep::Zero { motor: id }]);
    assert(configure_plan(plain_command(id as u32, Some(true), None))
        =~= seq![SupervisorStep::Configure { motor: id }, SupervisorStep::Enable { motor: id }]);
}


/// The RobStride model that drives joint `id`: limb `id / 10` (1, 2 the
/// arms, 3, 4 the legs) and joint `id % 10` along the limb.
pub open spec fn model_of_joint(id: int) -> ActuatorKind {
    let joint = id % 10;
    if id / 10 <= 2 {
        if joint == 1 || joint == 2 {
            ActuatorKind::RobStride03
        } else if joint == 3 || joint == 4 {
            ActuatorKind::RobStride02
        } else {
            ActuatorKind::RobStride00
        }
    } else {
        if joint == 1 || joint == 4 {
            ActuatorKind::RobStride04
        } else if joint == 2 || joint == 3 {
            ActuatorKind::RobStride03
        } else {
            ActuatorKind::RobStride02
        }
    }
}

/// Largest angle change, in degrees, that the supervisor allows joint `id`
/// in one command: 90 for the hip yaws and ankles, 45 for the left hip
/// roll and the knees, 30 for every other joint.
pub open spec fn angle_change_limit_of_joint(id: int) -> u32 {
    if id == 33 || id == 35 || id == 43 || id == 45 {
        90
    } else if id == 32 || id == 34 || id == 44 {
        45
    } else {
        30
    }
}

/// Every configured actuator, in order: limb by limb (left arm, right arm,
/// left leg, right leg), joint 1 to 5 within the limb; each with the model
/// of its joint, the angle-change limit of its joint, and a velocity limit
/// of 10 degrees per second.
pub proof fn law_kbot_actuator_limits()
    ensures
        kbot_actuator_specs().len() == 20,
        forall|k: int| 0 <= k < 20 ==> {
            let s = #[trigger] kbot_actuator_specs()[k];
            &&& s.actuator_id == 10 * (k / 5 + 1) + k % 5 + 1
            &&& s.kind == model_of_joint(s.actuator_id as int)
            &&& s.max_angle_change_deg == Some(angle_change_limit_of_joint(s.actuator_id as int))
            &&& s.max_velocity_deg == Some(10u32)
        },
{
    assert forall|k: int| 0 <= k < 20 implies {
        let s = #[trigger] kbot_actuator_specs()[k];
        &&& s.actuator_id == 10 * (k / 5 + 1) + k % 5 + 1
        &&& s.kind == model_of_joint(s.actuator_id as int)
        &&& s.max_angle_change_deg == Some(angle_change_limit_of_joint(s.actuator_id as int))
        &&& s.max_velocity_deg == Some(10u32)
    } by {
        lemma_row_cases(k);
    }
}

/// Torque limit, in thousandths of a newton-metre, of an actuator model:
/// 84 for a RobStride 04, 42 for an 03, 11.9 for an 02, 9.8 for an 00.
pub open spec fn torque_limit_of_model(kind: ActuatorKind) -> u32 {
    match kind {
        ActuatorKind::RobStride04 => 84_000,
        ActuatorKind::RobStride03 => 42_000,
        ActuatorKind::RobStride02 => 11_900,
        ActuatorKind::RobStride00 => 9_800,
        ActuatorKind::RobStride01 => 0,
    }
}

/// The gain table lists the actuators in the order they are configured;
/// each joint's torque limit is that of the model driving it; and the
/// right side's gains are the left side's: the row of actuator `x + 10` in
/// the right arm and leg equals the row of actuator `x`, apart from the ID.
pub proof fn law_gains_follow_model_and_side()
    ensures
        gain_table().len() == 20,
        forall|k: int| 0 <= k < 20 ==> {
            let g = #[trigger] gain_table()[k];
            &&& g.actuator_id == 10 * (k / 5 + 1) + k % 5 + 1
            &&& g.max_torque_milli == torque_limit_of_model(model_of_joint(g.actuator_id as int))
        },
        forall|k: int| (0 <= k < 5 || 10 <= k < 15) ==>
            #[trigger] gain_table()[k + 5] == (GainRow { actuator_id: (gain_table()[k].actuator_id + 10) as usize, ..gain_table()[k] }),
{
    assert forall|k: int| 0 <= k < 20 implies {
        let g = #[trigger] gain_table()[k];
        &&& g.actuator_id == 10 * (k / 5 + 1) + k % 5 + 1
        &&& g.max_torque_milli == torque_limit_of_model(model_of_joint(g.actuator_id as int))
    } by {
        lemma_row_cases(k);
    }
    assert forall|k: int| (0 <= k < 5 || 10 <= k < 15) implies
        #[trigger] gain_table()[k + 5] == (GainRow { actuator_id: (gain_table()[k].actuator_id + 10) as usize, ..gain_table()[k] }) by {
        lemma_row_cases(k);
    }
}

} // verus!
