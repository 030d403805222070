use vstd::prelude::*;

pub mod capability;
pub mod condemnation;
pub mod detector;
pub mod driver;
pub mod f2_observation;
pub mod fingerprint;
pub mod gpu_control;
pub mod gpu_nvapi;
pub mod gpu_stress;
pub mod gpu_sweep;
pub mod ipc;
pub mod msr;
pub mod msr_temp;
pub mod safe_loop;
pub mod sensor_input;
pub mod sensor_meta;
pub mod sensors;
pub mod superio_profile;
pub mod text;

