use probe_rs::probe::{open_probe, DebugProbeInfo, DebugProbeType, ProbeSelectionError};

fn info(kind: DebugProbeType) -> DebugProbeInfo {
    DebugProbeInfo {
        identifier: "probe".to_string(),
        vendor_id: 0x0483,
        product_id: 0x374b,
        serial_number: None,
        probe_type: kind,
    }
}

#[test]
fn the_only_probe_is_chosen() {
    assert_eq!(open_probe(&vec![info(DebugProbeType::STLink)], None), Ok(0));
}

#[test]
fn no_probe_or_several_without_index() {
    assert_eq!(open_probe(&vec![], None), Err(ProbeSelectionError::NoProbeFound));
    let two = vec![info(DebugProbeType::STLink), info(DebugProbeType::DAPLink)];
    assert_eq!(open_probe(&two, None), Err(ProbeSelectionError::NoProbeFound));
    assert_eq!(ProbeSelectionError::NoProbeFound.message(), "No probe found.");
}

#[test]
fn probe_by_index() {
    let two = vec![info(DebugProbeType::STLink), info(DebugProbeType::DAPLink)];
    assert_eq!(open_probe(&two, Some(1)), Ok(1));
    assert_eq!(open_probe(&two, Some(2)), Err(ProbeSelectionError::IndexNotFound));
}
