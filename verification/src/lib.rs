//! Verified control logic for the K-Bot humanoid: the joint tables, the
//! bookkeeping around the actuator bus, the layout of the policy network's
//! observation and action vectors, and the text the tools write to disk.

pub mod joints;
pub mod actuators;
pub mod bus;
pub mod observation;
pub mod text;
pub mod imu_log;
pub mod meter;
pub mod imu_search;
