use probe_rs::breakpoints::{
    enable_breakpoints_value, num_code_comparators, BreakpointError, BreakpointUnit,
};

#[test]
fn comparators_from_fp_ctrl() {
    // NUM_CODE low part 6, high part 0.
    assert_eq!(num_code_comparators(0x0000_0260), 6);
    // NUM_CODE low part 0xF, high part 1: 31 comparators.
    assert_eq!(num_code_comparators(0x0000_10F0), 31);
    assert_eq!(enable_breakpoints_value(true), 3);
    assert_eq!(enable_breakpoints_value(false), 2);
}

#[test]
fn breakpoints_take_first_free_comparator() {
    let mut unit = BreakpointUnit::new(2);
    assert_eq!(unit.set_hw_breakpoint(0x0800_0100), Ok((0, 0x4800_0101)));
    assert_eq!(unit.set_hw_breakpoint(0x0800_0202), Ok((1, 0x8800_0201)));
    assert_eq!(unit.set_hw_breakpoint(0x0800_0300), Err(BreakpointError::NoBreakpointAvailable));
    assert_eq!(unit.clear_hw_breakpoint(0x0800_0100), Some(0));
    assert_eq!(unit.clear_hw_breakpoint(0x0800_0100), None);
    assert_eq!(unit.set_hw_breakpoint(0x2000_0004), Ok((0, 0x4000_0005)));
    assert_eq!(unit.slots, vec![Some(0x2000_0004), Some(0x0800_0202)]);
}

#[test]
fn unit_without_comparators() {
    let mut unit = BreakpointUnit::new(0);
    assert_eq!(unit.set_hw_breakpoint(0), Err(BreakpointError::NoBreakpointAvailable));
}
