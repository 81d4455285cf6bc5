use crate::text::{has_prefix, sorted_keys, sorted_strings, starts_with, str_equal, strings_view};
use vstd::prelude::*;

verus! {

/// How a receiver gain sweep walks through gain combinations.
#[derive(Debug, Clone, Copy, PartialEq, Eq, Structural)]
pub enum CfgGainSweepStrategy {
    Grid,
    CoordinateDescent,
}

impl Default for CfgGainSweepStrategy {
    fn default() -> (s: Self)
        ensures
            s == CfgGainSweepStrategy::Grid,
    {
        CfgGainSweepStrategy::Grid
    }
}

/// The configuration file version this library reads.
pub open spec fn expected_config_version() -> Seq<char> {
    "0.6"@
}

/// The keys of one entry of `[phy_io.soapysdr.rx_gain_sweep.gains]` that
/// are not gain range fields.
#[derive(Debug)]
pub struct GainRangeShape {
    pub name: String,
    pub extra_keys: Vec<String>,
}

/// The unknown keys of `[phy_io.soapysdr.rx_gain_sweep]` and its gain ranges
/// (in the order in which the table yields them).
#[derive(Debug)]
pub struct RxGainSweepShape {
    pub extra_keys: Vec<String>,
    pub gains: Vec<GainRangeShape>,
}

/// The unknown keys of `[phy_io.soapysdr]` and its sweep section.
#[derive(Debug)]
pub struct SoapySdrShape {
    pub extra_keys: Vec<String>,
    pub rx_gain_sweep: Option<RxGainSweepShape>,
}

/// What a configuration file holds beyond its known fields: its version and,
/// per section, the keys that the section does not know.
#[derive(Debug)]
pub struct ConfigShape {
    pub config_version: String,
    pub extra_keys: Vec<String>,
    pub phy_io_extra_keys: Vec<String>,
    pub soapysdr: Option<SoapySdrShape>,
    pub net_info_extra_keys: Vec<String>,
    pub cell_info_extra_keys: Vec<String>,
    /// `None` when the file has no brew section.
    pub brew_extra_keys: Option<Vec<String>>,
    /// `None` when the file has no telemetry section.
    pub telemetry_extra_keys: Option<Vec<String>>,
}

/// Why a configuration file is refused. Key lists are sorted.
#[derive(Debug)]
pub enum ConfigError {
    UnrecognizedConfigVersion(String),
    UnrecognizedTopLevelFields(Vec<String>),
    UnrecognizedPhyIoFields(Vec<String>),
    UnrecognizedSoapySdrFields(Vec<String>),
    UnrecognizedRxGainSweepFields(Vec<String>),
    UnrecognizedGainRangeFields(String, Vec<String>),
    UnrecognizedNetInfoFields(Vec<String>),
    UnrecognizedCellInfoFields(Vec<String>),
    UnrecognizedBrewFields(Vec<String>),
    UnrecognizedTelemetryFields(Vec<String>),
}

/// Keys of `[phy_io.soapysdr]` that name a receive or transmit gain.
pub open spec fn is_gain_key(k: Seq<char>) -> bool {
    has_prefix(k, "rx_gain_"@) || has_prefix(k, "tx_gain_"@)
}

/// `r` holds the keys `keys` in ascending order.
pub open spec fn sorted_copy_of(r: Seq<String>, keys: Seq<String>) -> bool {
    sorted_strings(strings_view(r)) && strings_view(r).to_multiset() == strings_view(keys).to_multiset()
}

/// The unknown soapysdr keys that are not gain keys.
pub open spec fn unknown_soapy_keys(keys: Seq<String>) -> Seq<String> {
    keys.filter(|k: String| !is_gain_key(k@))
}

/// Index of the first gain range with unknown keys, if any.
pub open spec fn first_bad_gain(gains: Seq<GainRangeShape>) -> Option<int> {
    if exists|i: int| 0 <= i < gains.len() && (#[trigger] gains[i]).extra_keys@.len() > 0 {
        Some(choose|i: int| {
            &&& 0 <= i < gains.len()
            &&& (#[trigger] gains[i]).extra_keys@.len() > 0
            &&& forall|j: int| 0 <= j < i ==> (#[trigger] gains[j]).extra_keys@.len() == 0
        })
    } else {
        None
    }
}

/// The soapysdr section is acceptable.
pub open spec fn soapy_ok(s: Option<SoapySdrShape>) -> bool {
    match s {
        None => true,
        Some(sd) => {
            &&& unknown_soapy_keys(sd.extra_keys@).len() == 0
            &&& match sd.rx_gain_sweep {
                None => true,
                Some(sw) => sw.extra_keys@.len() == 0 && forall|i: int|
                    0 <= i < sw.gains@.len() ==> (#[trigger] sw.gains@[i]).extra_keys@.len() == 0,
            }
        },
    }
}

/// The configuration file is acceptable.
pub open spec fn shape_ok(c: ConfigShape) -> bool {
    &&& c.config_version@ == expected_config_version()
    &&& c.extra_keys@.len() == 0
    &&& c.phy_io_extra_keys@.len() == 0
    &&& soapy_ok(c.soapysdr)
    &&& c.net_info_extra_keys@.len() == 0
    &&& c.cell_info_extra_keys@.len() == 0
    &&& (c.brew_extra_keys matches Some(k) ==> k@.len() == 0)
    &&& (c.telemetry_extra_keys matches Some(k) ==> k@.len() == 0)
}

/// `e` is the error for the first problem of `c`, checked in this order:
/// version, top-level keys, phy_io keys, soapysdr keys that are not gain
/// keys, sweep keys, gain range keys, net_info, cell_info, brew, telemetry.
pub open spec fn shape_error(c: ConfigShape, e: ConfigError) -> bool {
    if c.config_version@ != expected_config_version() {
        e matches ConfigError::UnrecognizedConfigVersion(v) && v@ == c.config_version@
    } else if c.extra_keys@.len() > 0 {
        e matches ConfigError::UnrecognizedTopLevelFields(k) && sorted_copy_of(k@, c.extra_keys@)
    } else if c.phy_io_extra_keys@.len() > 0 {
        e matches ConfigError::UnrecognizedPhyIoFields(k) && sorted_copy_of(k@, c.phy_io_extra_keys@)
    } else if !soapy_ok(c.soapysdr) {
        let sd = c.soapysdr->0;
        if unknown_soapy_keys(sd.extra_keys@).len() > 0 {
            e matches ConfigError::UnrecognizedSoapySdrFields(k) && sorted_copy_of(
                k@,
                unknown_soapy_keys(sd.extra_keys@),
            )
        } else {
            let sw = sd.rx_gain_sweep->0;
            if sw.extra_keys@.len() > 0 {
                e matches ConfigError::UnrecognizedRxGainSweepFields(k) && sorted_copy_of(k@, sw.extra_keys@)
            } else {
                let g = sw.gains@[first_bad_gain(sw.gains@)->0];
                e matches ConfigError::UnrecognizedGainRangeFields(name, k) && name@ == g.name@
                    && sorted_copy_of(k@, g.extra_keys@)
            }
        }
    } else if c.net_info_extra_keys@.len() > 0 {
        e matches ConfigError::UnrecognizedNetInfoFields(k) && sorted_copy_of(k@, c.net_info_extra_keys@)
    } else if c.cell_info_extra_keys@.len() > 0 {
        e matches ConfigError::UnrecognizedCellInfoFields(k) && sorted_copy_of(k@, c.cell_info_extra_keys@)
    } else if c.brew_extra_keys matches Some(b) && b@.len() > 0 {
        e matches ConfigError::UnrecognizedBrewFields(k) && sorted_copy_of(k@, c.brew_extra_keys->0@)
    } else {
        e matches ConfigError::UnrecognizedTelemetryFields(k) && sorted_copy_of(
            k@,
            c.telemetry_extra_keys->0@,
        )
    }
}

/// The tables of a configuration file whose keys this library knows.
#[derive(Debug, Clone, Copy, PartialEq, Eq, Structural)]
pub enum KeySection {
    /// The top level of the file.
    Root,
    /// `[phy_io.soapysdr]`, apart from its gain keys.
    SoapySdr,
    /// `[phy_io.soapysdr.rx_gain_sweep]`.
    RxGainSweep,
    /// One entry of `[phy_io.soapysdr.rx_gain_sweep.gains]`.
    GainRange,
}

/// The keys that `section` knows. The sweep section no longer knows
/// `restart_process_per_combo`: a file that still sets it is refused.
pub open spec fn is_known_key(section: KeySection, k: Seq<char>) -> bool {
    match section {
        KeySection::Root => {
            ||| k == "config_version"@
            ||| k == "stack_mode"@
            ||| k == "debug_log"@
            ||| k == "phy_io"@
            ||| k == "net_info"@
            ||| k == "cell_info"@
            ||| k == "brew"@
            ||| k == "telemetry"@
            ||| k == "command"@
        },
        KeySection::SoapySdr => {
            ||| k == "rx_freq"@
            ||| k == "tx_freq"@
            ||| k == "ppm_err"@
            ||| k == "device"@
            ||| k == "rx_antenna"@
            ||| k == "tx_antenna"@
            ||| k == "sample_rate"@
            ||| k == "rx_channel"@
            ||| k == "tx_channel"@
            ||| k == "rx_gain_sweep"@
        },
        KeySection::RxGainSweep => {
            ||| k == "enabled"@
            ||| k == "strategy"@
            ||| k == "window_bursts"@
            ||| k == "settling_slots"@
            ||| k == "auto_exit"@
            ||| k == "test_signal_profile"@
            ||| k == "required_ul_slots"@
            ||| k == "min_slot_crc_pass_rate"@
            ||| k == "test_device_type"@
            ||| k == "test_tx_power_dbm"@
            ||| k == "test_level_dbm"@
            ||| k == "gains"@
        },
        KeySection::GainRange => {
            ||| k == "from"@
            ||| k == "to"@
            ||| k == "step"@
        },
    }
}

/// Whether `section` knows the key `k`.
pub fn is_known(section: KeySection, k: &str) -> (b: bool)
    ensures
        b == is_known_key(section, k@),
{
    match section {
        KeySection::Root => {
            str_equal(k, "config_version") || str_equal(k, "stack_mode") || str_equal(k, "debug_log")
                || str_equal(k, "phy_io") || str_equal(k, "net_info") || str_equal(k, "cell_info")
                || str_equal(k, "brew") || str_equal(k, "telemetry") || str_equal(k, "command")
        },
        KeySection::SoapySdr => {
            str_equal(k, "rx_freq") || str_equal(k, "tx_freq") || str_equal(k, "ppm_err") || str_equal(k, "device")
                || str_equal(k, "rx_antenna") || str_equal(k, "tx_antenna") || str_equal(k, "sample_rate")
                || str_equal(k, "rx_channel") || str_equal(k, "tx_channel") || str_equal(k, "rx_gain_sweep")
        },
        KeySection::RxGainSweep => {
            str_equal(k, "enabled") || str_equal(k, "strategy") || str_equal(k, "window_bursts") || str_equal(
                k,
                "settling_slots",
            ) || str_equal(k, "auto_exit") || str_equal(k, "test_signal_profile") || str_equal(
                k,
                "required_ul_slots",
            ) || str_equal(k, "min_slot_crc_pass_rate") || str_equal(k, "test_device_type") || str_equal(
                k,
                "test_tx_power_dbm",
            ) || str_equal(k, "test_level_dbm") || str_equal(k, "gains")
        },
        KeySection::GainRange => str_equal(k, "from") || str_equal(k, "to") || str_equal(k, "step"),
    }
}

/// The keys of a table of `section` that it does not know.
pub open spec fn unknown_keys_of(section: KeySection, keys: Seq<String>) -> Seq<String> {
    keys.filter(|k: String| !is_known_key(section, k@))
}

/// The keys among `keys` that `section` does not know, in their order.
pub fn unknown_keys(section: KeySection, keys: &Vec<String>) -> (r: Vec<String>)
    ensures
        r@ == unknown_keys_of(section, keys@),
{
    let mut out: Vec<String> = Vec::new();
    let mut i: usize = 0;
    proof {
        assert(keys@.take(0) =~= Seq::<String>::empty());
    }
    while i < keys.len()
        invariant
            i <= keys.len(),
            out@ == unknown_keys_of(section, keys@.take(i as int)),
        decreases keys.len() - i,
    {
        let k = &keys[i];
        let known = is_known(section, k.as_str());
        proof {
            reveal_with_fuel(Seq::<_>::filter, 1);
            assert(keys@.take(i + 1).drop_last() =~= keys@.take(i as int));
        }
        if !known {
            out.push(k.clone());
        }
        i += 1;
    }
    proof {
        assert(keys@.take(keys@.len() as int) =~= keys@);
    }
    out
}

/// The fields of each section are known keys of it: the top-level
/// sections, the SoapySDR settings, the sweep settings and the gain range
/// bounds. The obsolete `restart_process_per_combo` is not a sweep field.
pub proof fn law_section_fields_are_known()
    ensures
        is_known_key(KeySection::Root, "config_version"@),
        is_known_key(KeySection::Root, "stack_mode"@),
        is_known_key(KeySection::Root, "debug_log"@),
        is_known_key(KeySection::Root, "phy_io"@),
        is_known_key(KeySection::Root, "net_info"@),
        is_known_key(KeySection::Root, "cell_info"@),
        is_known_key(KeySection::Root, "brew"@),
        is_known_key(KeySection::Root, "telemetry"@),
        is_known_key(KeySection::Root, "command"@),
        is_known_key(KeySection::SoapySdr, "rx_freq"@),
        is_known_key(KeySection::SoapySdr, "tx_freq"@),
        is_known_key(KeySection::SoapySdr, "ppm_err"@),
        is_known_key(KeySection::SoapySdr, "device"@),
        is_known_key(KeySection::SoapySdr, "rx_antenna"@),
        is_known_key(KeySection::SoapySdr, "tx_antenna"@),
        is_known_key(KeySection::SoapySdr, "sample_rate"@),
        is_known_key(KeySection::SoapySdr, "rx_channel"@),
        is_known_key(KeySection::SoapySdr, "tx_channel"@),
        is_known_key(KeySection::SoapySdr, "rx_gain_sweep"@),
        is_known_key(KeySection::RxGainSweep, "enabled"@),
        is_known_key(KeySection::RxGainSweep, "strategy"@),
        is_known_key(KeySection::RxGainSweep, "window_bursts"@),
        is_known_key(KeySection::RxGainSweep, "settling_slots"@),
        is_known_key(KeySection::RxGainSweep, "auto_exit"@),
        is_known_key(KeySection::RxGainSweep, "test_signal_profile"@),
        is_known_key(KeySection::RxGainSweep, "required_ul_slots"@),
        is_known_key(KeySection::RxGainSweep, "min_slot_crc_pass_rate"@),
        is_known_key(KeySection::RxGainSweep, "test_device_type"@),
        is_known_key(KeySection::RxGainSweep, "test_tx_power_dbm"@),
        is_known_key(KeySection::RxGainSweep, "test_level_dbm"@),
        is_known_key(KeySection::RxGainSweep, "gains"@),
        is_known_key(KeySection::GainRange, "from"@),
        is_known_key(KeySection::GainRange, "to"@),
        is_known_key(KeySection::GainRange, "step"@),
        !is_known_key(KeySection::RxGainSweep, "restart_process_per_combo"@),
{
    reveal_strlit("restart_process_per_combo");
    reveal_strlit("enabled");
    reveal_strlit("strategy");
    reveal_strlit("window_bursts");
    reveal_strlit("settling_slots");
    reveal_strlit("auto_exit");
    reveal_strlit("test_signal_profile");
    reveal_strlit("required_ul_slots");
    reveal_strlit("min_slot_crc_pass_rate");
    reveal_strlit("test_device_type");
    reveal_strlit("test_tx_power_dbm");
    reveal_strlit("test_level_dbm");
    reveal_strlit("gains");
    assert("restart_process_per_combo"@.len() == 25);
}

/// A SoapySDR table whose keys are all fields of the section or gain keys
/// holds no unknown keys, and the check accepts such a section.
pub proof fn law_soapysdr_fields_pass(keys: Seq<String>)
    requires
        forall|i: int|
            0 <= i < keys.len() ==> {
                let k = (#[trigger] keys[i])@;
                ||| k == "rx_freq"@
                ||| k == "tx_freq"@
                ||| k == "ppm_err"@
                ||| k == "device"@
                ||| k == "rx_antenna"@
                ||| k == "tx_antenna"@
                ||| k == "sample_rate"@
                ||| k == "rx_channel"@
                ||| k == "tx_channel"@
                ||| k == "rx_gain_sweep"@
                ||| is_gain_key(k)
            },
    ensures
        unknown_soapy_keys(unknown_keys_of(KeySection::SoapySdr, keys)).len() == 0,
{
    broadcast use vstd::seq_lib::group_filter_ensures;
    broadcast use vstd::seq::Seq::lemma_filter_contains_rev;

    let u = unknown_keys_of(KeySection::SoapySdr, keys);
    let v = unknown_soapy_keys(u);
    if v.len() > 0 {
        let x = v[0];
        assert(!is_gain_key(x@));
        assert(v.contains(x));
        assert(u.contains(x));
        let j = choose|j: int| 0 <= j < u.len() && u[j] == x;
        assert(!is_known_key(KeySection::SoapySdr, u[j]@));
        assert(keys.contains(x));
        let i = choose|i: int| 0 <= i < keys.len() && keys[i] == x;
        assert(keys[i] == x);
    }
}

/// The soapysdr keys that are not gain keys, in their order.
fn non_gain_keys(keys: &Vec<String>) -> (r: Vec<String>)
    ensures
        r@ == unknown_soapy_keys(keys@),
{
    let mut out: Vec<String> = Vec::new();
    let mut i: usize = 0;
    proof {
        assert(keys@.take(0) =~= Seq::<String>::empty());
    }
    while i < keys.len()
        invariant
            i <= keys.len(),
            out@ == unknown_soapy_keys(keys@.take(i as int)),
        decreases keys.len() - i,
    {
        let k = &keys[i];
        let gain = starts_with(k.as_str(), "rx_gain_") || starts_with(k.as_str(), "tx_gain_");
        proof {
            reveal_with_fuel(Seq::<_>::filter, 1);
            assert(keys@.take(i + 1).drop_last() =~= keys@.take(i as int));
        }
        if !gain {
            out.push(k.clone());
        }
        i += 1;
    }
    proof {
        assert(keys@.take(keys@.len() as int) =~= keys@);
    }
    out
}

/// Checks the unknown keys of a configuration file, and its version.
#[verifier::loop_isolation(false)]
pub fn check_config_shape(c: &ConfigShape) -> (r: Result<(), ConfigError>)
    ensures
        r is Ok <==> shape_ok(*c),
        r matches Err(e) ==> shape_error(*c, e),
{
    proof {
        reveal_strlit("0.6");
    }
    if !str_equal(c.config_version.as_str(), "0.6") {
        return Err(ConfigError::UnrecognizedConfigVersion(c.config_version.clone()));
    }
    if c.extra_keys.len() > 0 {
        return Err(ConfigError::UnrecognizedTopLevelFields(sorted_keys(&c.extra_keys)));
    }
    if c.phy_io_extra_keys.len() > 0 {
        return Err(ConfigError::UnrecognizedPhyIoFields(sorted_keys(&c.phy_io_extra_keys)));
    }
    if let Some(sd) = &c.soapysdr {
        let unknown = non_gain_keys(&sd.extra_keys);
        if unknown.len() > 0 {
            return Err(ConfigError::UnrecognizedSoapySdrFields(sorted_keys(&unknown)));
        }
        if let Some(sw) = &sd.rx_gain_sweep {
            if sw.extra_keys.len() > 0 {
                return Err(ConfigError::UnrecognizedRxGainSweepFields(sorted_keys(&sw.extra_keys)));
            }
            let mut i: usize = 0;
            while i < sw.gains.len()
                invariant
                    i <= sw.gains@.len(),
                    forall|j: int| 0 <= j < i ==> (#[trigger] sw.gains@[j]).extra_keys@.len() == 0,
                decreases sw.gains@.len() - i,
            {
                let g = &sw.gains[i];
                if g.extra_keys.len() > 0 {
                    proof {
                        let w = first_bad_gain(sw.gains@)->0;
                        assert(sw.gains@[i as int].extra_keys@.len() > 0);
                        if w < i {
                            assert(sw.gains@[w].extra_keys@.len() == 0);
                        } else if w > i {
                            assert(sw.gains@[i as int].extra_keys@.len() == 0);
                        }
                    }
                    return Err(ConfigError::UnrecognizedGainRangeFields(g.name.clone(), sorted_keys(&g.extra_keys)));
                }
                i += 1;
            }
        }
    }
    if c.net_info_extra_keys.len() > 0 {
        return Err(ConfigError::UnrecognizedNetInfoFields(sorted_keys(&c.net_info_extra_keys)));
    }
    if c.cell_info_extra_keys.len() > 0 {
        return Err(ConfigError::UnrecognizedCellInfoFields(sorted_keys(&c.cell_info_extra_keys)));
    }
    if let Some(b) = &c.brew_extra_keys {
        if b.len() > 0 {
            return Err(ConfigError::UnrecognizedBrewFields(sorted_keys(b)));
        }
    }
    if let Some(t) = &c.telemetry_extra_keys {
        if t.len() > 0 {
            return Err(ConfigError::UnrecognizedTelemetryFields(sorted_keys(t)));
        }
    }
    Ok(())
}

} // verus!
