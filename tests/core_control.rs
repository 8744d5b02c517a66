use probe_rs::core_control::{
    read_core_register, register_ready, write_core_register, CoreController, CoreError, CoreState,
    RegisterWrite,
};

#[test]
fn halt_run_step() {
    let mut core = CoreController::new();
    assert_eq!(core.state, CoreState::Unknown);
    assert_eq!(core.step(), Err(CoreError::NotHalted));
    assert_eq!(core.halt(), RegisterWrite { address: 0xE000_EDF0, value: 0xA05F_0003 });
    assert!(!core.observe(0x0001_0000));
    assert_eq!(core.state, CoreState::Unknown);
    assert!(core.observe(0x0003_0003));
    assert_eq!(core.state, CoreState::Halted);
    assert_eq!(core.step(), Ok(RegisterWrite { address: 0xE000_EDF0, value: 0xA05F_000D }));
    assert_eq!(core.state, CoreState::Running);
    assert!(core.observe(0x0002_0000));
    assert_eq!(core.run(), RegisterWrite { address: 0xE000_EDF0, value: 0xA05F_0001 });
    assert_eq!(core.state, CoreState::Running);
}

#[test]
fn reset_and_halt_catches_reset() {
    let mut core = CoreController::new();
    core.run();
    assert_eq!(core.reset_and_halt(), RegisterWrite { address: 0xE000_EDFC, value: 1 });
    assert_eq!(core.state, CoreState::Unknown);
    core.reset();
    assert_eq!(core.state, CoreState::Running);
}

#[test]
fn core_register_transfers() {
    assert_eq!(read_core_register(15), RegisterWrite { address: 0xE000_EDF4, value: 15 });
    let (data, select) = write_core_register(13, 0x2000_1000);
    assert_eq!(data, RegisterWrite { address: 0xE000_EDF8, value: 0x2000_1000 });
    assert_eq!(select, RegisterWrite { address: 0xE000_EDF4, value: 0x1_000D });
    assert!(register_ready(0x0001_0000));
    assert!(!register_ready(0x0002_0000));
}
