use crate::text::{ascii_lower, str_equal, to_ascii_lowercase};
use vstd::prelude::*;

verus! {

/// Whether the test signal comes in bursts or continuously.
#[derive(Debug, Clone, Copy, PartialEq, Eq, Structural)]
pub enum RxTestBurstMode {
    Bursted,
    Continuous,
}

/// What a receiver test run reports about its test device.
#[derive(Debug, Clone)]
pub struct RxTestDeviceMetadata {
    pub test_device_type: String,
    pub operation_profile: String,
    pub signal_profile: String,
    pub burst_mode: RxTestBurstMode,
}

/// The test signal profiles the Stabilock 4032 can generate.
pub open spec fn stabilock_profile_allowed(p: Seq<char>) -> bool {
    ||| p == "t1_all_ul_slots"@
    ||| p == "t1_single_slot"@
    ||| p == "tch_7_2"@
    ||| p == "sch_f"@
    ||| p == "bit_pattern"@
}

/// The profile that is used when none is configured.
pub open spec fn spec_signal_profile(configured: Option<String>) -> Seq<char> {
    match configured {
        Some(s) => s@,
        None => "t1_all_ul_slots"@,
    }
}

/// Adapter for the Schlumberger Stabilock 4032 radio test set.
#[derive(Debug, Clone, Copy)]
pub struct Stabilock4032Adapter;

impl Stabilock4032Adapter {
    /// The device's name.
    pub fn device_name(&self) -> (s: &'static str)
        ensures
            s@ == "stabilock4032"@,
    {
        proof {
            reveal_strlit("stabilock4032");
        }
        "stabilock4032"
    }

    /// The configured test signal profile, "t1_all_ul_slots" when none is
    /// configured.
    pub fn signal_profile(test_signal_profile: &Option<String>) -> (s: String)
        ensures
            s@ == spec_signal_profile(*test_signal_profile),
    {
        match test_signal_profile {
            Some(s) => s.clone(),
            None => String::from_str("t1_all_ul_slots"),
        }
    }

    /// The "bit_pattern" profile is continuous; every other profile is bursted.
    pub fn burst_mode_from_profile(profile: &str) -> (m: RxTestBurstMode)
        ensures
            m == (if profile@ == "bit_pattern"@ {
                RxTestBurstMode::Continuous
            } else {
                RxTestBurstMode::Bursted
            }),
    {
        if str_equal(profile, "bit_pattern") {
            RxTestBurstMode::Continuous
        } else {
            RxTestBurstMode::Bursted
        }
    }

    /// Accepts a run whose signal profile the device can generate; otherwise
    /// names the profile and the allowed ones.
    pub fn validate_for_run(&self, test_signal_profile: &Option<String>) -> (r: Result<(), String>)
        ensures
            r is Ok <==> stabilock_profile_allowed(spec_signal_profile(*test_signal_profile)),
            r matches Err(msg) ==> msg@ == "Unsupported test_signal_profile '"@ + spec_signal_profile(
                *test_signal_profile,
            ) + "' for stabilock4032 (allowed: [\"t1_all_ul_slots\", \"t1_single_slot\", \"tch_7_2\", \"sch_f\", \"bit_pattern\"])"@,
    {
        let profile = Self::signal_profile(test_signal_profile);
        let p = profile.as_str();
        if str_equal(p, "t1_all_ul_slots") || str_equal(p, "t1_single_slot") || str_equal(p, "tch_7_2")
            || str_equal(p, "sch_f") || str_equal(p, "bit_pattern") {
            return Ok(());
        }
        let msg = String::from_str("Unsupported test_signal_profile '");
        let msg = msg.concat(p);
        let msg = msg.concat(
            "' for stabilock4032 (allowed: [\"t1_all_ul_slots\", \"t1_single_slot\", \"tch_7_2\", \"sch_f\", \"bit_pattern\"])",
        );
        Err(msg)
    }

    /// The metadata of a run: this device, the fixed operation profile
    /// "rx_mask_specials_gen_a_def_par", the signal profile and its burst mode.
    pub fn metadata(&self, test_signal_profile: &Option<String>) -> (m: RxTestDeviceMetadata)
        ensures
            m.test_device_type@ == "stabilock4032"@,
            m.operation_profile@ == "rx_mask_specials_gen_a_def_par"@,
            m.signal_profile@ == spec_signal_profile(*test_signal_profile),
            m.burst_mode == (if spec_signal_profile(*test_signal_profile) == "bit_pattern"@ {
                RxTestBurstMode::Continuous
            } else {
                RxTestBurstMode::Bursted
            }),
    {
        let signal_profile = Self::signal_profile(test_signal_profile);
        let burst_mode = Self::burst_mode_from_profile(signal_profile.as_str());
        RxTestDeviceMetadata {
            test_device_type: String::from_str(self.device_name()),
            operation_profile: String::from_str("rx_mask_specials_gen_a_def_par"),
            burst_mode,
            signal_profile,
        }
    }
}

/// The adapter for a test device type, matched without regard to ASCII
/// case; "stabilock4032" when no type is given.
pub fn build_adapter(device_type: Option<&str>) -> (r: Result<Stabilock4032Adapter, String>)
    ensures
        ({
            let dtype = ascii_lower(
                match device_type {
                    Some(s) => s@,
                    None => "stabilock4032"@,
                },
            );
            &&& r is Ok <==> dtype == "stabilock4032"@
            &&& r matches Err(msg) ==> msg@ == "Unsupported test device type '"@ + dtype + "'"@
        }),
{
    let given = match device_type {
        Some(s) => s,
        None => "stabilock4032",
    };
    let dtype = to_ascii_lowercase(given);
    if str_equal(dtype.as_str(), "stabilock4032") {
        Ok(Stabilock4032Adapter)
    } else {
        let msg = String::from_str("Unsupported test device type '");
        let msg = msg.concat(dtype.as_str());
        let msg = msg.concat("'");
        Err(msg)
    }
}

} // verus!
