use tetra_bluestation::config::{
    check_config_shape, is_known, unknown_keys, CfgGainSweepStrategy, ConfigError, ConfigShape, GainRangeShape,
    KeySection, RxGainSweepShape, SoapySdrShape,
};
use tetra_bluestation::devices::{build_adapter, RxTestBurstMode, Stabilock4032Adapter};
use tetra_bluestation::export::{split_gain_pairs, RxGainExportWriter};
use tetra_bluestation::text::{lex_at_most, sorted_keys, starts_with, str_equal};
use tetra_bluestation::RxTxDevError;

fn s(v: &[&str]) -> Vec<String> {
    v.iter().map(|x| x.to_string()).collect()
}

fn clean_shape() -> ConfigShape {
    ConfigShape {
        config_version: "0.6".to_string(),
        extra_keys: vec![],
        phy_io_extra_keys: vec![],
        soapysdr: Some(SoapySdrShape {
            extra_keys: s(&["rx_gain_lna", "tx_gain_pga"]),
            rx_gain_sweep: Some(RxGainSweepShape {
                extra_keys: vec![],
                gains: vec![GainRangeShape { name: "lna".to_string(), extra_keys: vec![] }],
            }),
        }),
        net_info_extra_keys: vec![],
        cell_info_extra_keys: vec![],
        brew_extra_keys: Some(vec![]),
        telemetry_extra_keys: None,
    }
}

#[test]
fn accepts_known_fields_and_gain_keys() {
    assert!(check_config_shape(&clean_shape()).is_ok());
}

#[test]
fn refuses_other_version() {
    let mut c = clean_shape();
    c.config_version = "0.5".to_string();
    c.extra_keys = s(&["zz"]);
    match check_config_shape(&c) {
        Err(ConfigError::UnrecognizedConfigVersion(v)) => assert_eq!(v, "0.5"),
        other => panic!("unexpected {:?}", other),
    }
}

#[test]
fn refuses_top_level_fields_sorted() {
    let mut c = clean_shape();
    c.extra_keys = s(&["zeta", "alpha", "Mid"]);
    match check_config_shape(&c) {
        Err(ConfigError::UnrecognizedTopLevelFields(k)) => assert_eq!(k, s(&["Mid", "alpha", "zeta"])),
        other => panic!("unexpected {:?}", other),
    }
}

#[test]
fn refuses_soapy_fields_but_not_gain_keys() {
    let mut c = clean_shape();
    c.soapysdr.as_mut().unwrap().extra_keys = s(&["rx_gain_x", "restart", "rx_gainz", "tx_gain_a"]);
    match check_config_shape(&c) {
        Err(ConfigError::UnrecognizedSoapySdrFields(k)) => assert_eq!(k, s(&["restart", "rx_gainz"])),
        other => panic!("unexpected {:?}", other),
    }
}

#[test]
fn refuses_sweep_and_gain_range_fields() {
    let mut c = clean_shape();
    {
        let sw = c.soapysdr.as_mut().unwrap().rx_gain_sweep.as_mut().unwrap();
        sw.gains.push(GainRangeShape { name: "pga".to_string(), extra_keys: s(&["steps", "by"]) });
        sw.gains.push(GainRangeShape { name: "vga".to_string(), extra_keys: s(&["x"]) });
    }
    match check_config_shape(&c) {
        Err(ConfigError::UnrecognizedGainRangeFields(name, k)) => {
            assert_eq!(name, "pga");
            assert_eq!(k, s(&["by", "steps"]));
        }
        other => panic!("unexpected {:?}", other),
    }
    c.soapysdr.as_mut().unwrap().rx_gain_sweep.as_mut().unwrap().extra_keys = s(&["restart_process_per_combo"]);
    match check_config_shape(&c) {
        Err(ConfigError::UnrecognizedRxGainSweepFields(k)) => assert_eq!(k, s(&["restart_process_per_combo"])),
        other => panic!("unexpected {:?}", other),
    }
}

#[test]
fn refuses_later_sections_in_order() {
    let mut c = clean_shape();
    c.telemetry_extra_keys = Some(s(&["t"]));
    c.brew_extra_keys = Some(s(&["b"]));
    c.cell_info_extra_keys = s(&["c"]);
    match check_config_shape(&c) {
        Err(ConfigError::UnrecognizedCellInfoFields(k)) => assert_eq!(k, s(&["c"])),
        other => panic!("unexpected {:?}", other),
    }
    c.cell_info_extra_keys = vec![];
    match check_config_shape(&c) {
        Err(ConfigError::UnrecognizedBrewFields(k)) => assert_eq!(k, s(&["b"])),
        other => panic!("unexpected {:?}", other),
    }
    c.brew_extra_keys = None;
    match check_config_shape(&c) {
        Err(ConfigError::UnrecognizedTelemetryFields(k)) => assert_eq!(k, s(&["t"])),
        other => panic!("unexpected {:?}", other),
    }
    c.net_info_extra_keys = s(&["n"]);
    c.phy_io_extra_keys = s(&["p"]);
    match check_config_shape(&c) {
        Err(ConfigError::UnrecognizedPhyIoFields(k)) => assert_eq!(k, s(&["p"])),
        other => panic!("unexpected {:?}", other),
    }
}

#[test]
fn strategy_defaults_to_grid() {
    assert_eq!(CfgGainSweepStrategy::default(), CfgGainSweepStrategy::Grid);
}

#[test]
fn stabilock_profiles() {
    let a = Stabilock4032Adapter;
    assert_eq!(a.device_name(), "stabilock4032");
    assert_eq!(Stabilock4032Adapter::signal_profile(&None), "t1_all_ul_slots");
    assert_eq!(Stabilock4032Adapter::signal_profile(&Some("sch_f".to_string())), "sch_f");
    assert_eq!(Stabilock4032Adapter::burst_mode_from_profile("bit_pattern"), RxTestBurstMode::Continuous);
    assert_eq!(Stabilock4032Adapter::burst_mode_from_profile("tch_7_2"), RxTestBurstMode::Bursted);
    assert!(a.validate_for_run(&None).is_ok());
    assert!(a.validate_for_run(&Some("bit_pattern".to_string())).is_ok());
    assert_eq!(
        a.validate_for_run(&Some("noise".to_string())),
        Err("Unsupported test_signal_profile 'noise' for stabilock4032 (allowed: [\"t1_all_ul_slots\", \"t1_single_slot\", \"tch_7_2\", \"sch_f\", \"bit_pattern\"])".to_string())
    );
    let m = a.metadata(&Some("bit_pattern".to_string()));
    assert_eq!(m.test_device_type, "stabilock4032");
    assert_eq!(m.operation_profile, "rx_mask_specials_gen_a_def_par");
    assert_eq!(m.signal_profile, "bit_pattern");
    assert_eq!(m.burst_mode, RxTestBurstMode::Continuous);
    let d = a.metadata(&None);
    assert_eq!(d.signal_profile, "t1_all_ul_slots");
    assert_eq!(d.burst_mode, RxTestBurstMode::Bursted);
}

#[test]
fn adapters_by_type() {
    assert!(build_adapter(None).is_ok());
    assert!(build_adapter(Some("StaBiLock4032")).is_ok());
    assert_eq!(build_adapter(Some("CMU200")).err(), Some("Unsupported test device type 'cmu200'".to_string()));
}

#[test]
fn export_file_names() {
    let w = RxGainExportWriter::new("out".to_string(), "1700000000".to_string());
    assert_eq!(w.base_dir(), "out");
    assert_eq!(w.window_json_file_name(), "rx_gain_window_1700000000.jsonl");
    assert_eq!(w.window_csv_file_name(), "rx_gain_window_1700000000.csv");
    assert_eq!(w.summary_json_file_name(), "rx_gain_summary_1700000000.json");
    assert_eq!(w.summary_csv_file_name(), "rx_gain_summary_1700000000.csv");
}

#[test]
fn gain_pairs() {
    assert_eq!(split_gain_pairs(&s(&["PGA"])), None);
    assert_eq!(split_gain_pairs(&s(&[])), None);
    assert_eq!(split_gain_pairs(&s(&["PGA", "12", "LNA"])), None);
    assert_eq!(
        split_gain_pairs(&s(&["PGA", "12.0", "LNA", "36"])),
        Some(vec![("PGA".to_string(), "12.0".to_string()), ("LNA".to_string(), "36".to_string())])
    );
}

#[test]
fn text_helpers() {
    assert_eq!(build_adapter(Some("MyDev-Ä")).err(), Some("Unsupported test device type 'mydev-Ä'".to_string()));
    assert!(str_equal("a", "a"));
    assert!(!str_equal("a", "ab"));
    assert!(starts_with("rx_gain_lna", "rx_gain_"));
    assert!(!starts_with("rx_gai", "rx_gain_"));
    assert!(lex_at_most("ab", "abc"));
    assert!(!lex_at_most("b", "abc"));
    assert!(lex_at_most("", ""));
    assert_eq!(sorted_keys(&s(&["b", "a", "c", "a"])), s(&["a", "a", "b", "c"]));
}

#[test]
fn device_errors_compare() {
    assert_ne!(RxTxDevError::RxEndOfData, RxTxDevError::RxReadError);
}

#[test]
fn unknown_keys_by_section() {
    assert_eq!(
        unknown_keys(KeySection::Root, &s(&["config_version", "stack_mode", "phy_io", "extra_root", "command"])),
        s(&["extra_root"])
    );
    assert_eq!(
        unknown_keys(KeySection::SoapySdr, &s(&["rx_freq", "tx_freq", "rx_gain_lna", "bogus", "rx_gain_sweep"])),
        s(&["rx_gain_lna", "bogus"])
    );
    assert_eq!(unknown_keys(KeySection::GainRange, &s(&["from", "to", "step", "unit"])), s(&["unit"]));
    assert!(is_known(KeySection::RxGainSweep, "window_bursts"));
    assert!(!is_known(KeySection::Root, "Phy_io"));
}

#[test]
fn obsolete_restart_process_per_combo_is_refused() {
    let keys = s(&["enabled", "auto_exit", "restart_process_per_combo", "gains"]);
    let unknown = unknown_keys(KeySection::RxGainSweep, &keys);
    assert_eq!(unknown, s(&["restart_process_per_combo"]));
    let mut c = clean_shape();
    c.soapysdr = Some(SoapySdrShape {
        extra_keys: vec![],
        rx_gain_sweep: Some(RxGainSweepShape { extra_keys: unknown, gains: vec![] }),
    });
    match check_config_shape(&c) {
        Err(ConfigError::UnrecognizedRxGainSweepFields(k)) => assert_eq!(k, s(&["restart_process_per_combo"])),
        other => panic!("unexpected {:?}", other),
    }
}
