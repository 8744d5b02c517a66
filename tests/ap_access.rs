use probe_rs::ap_access::{
    access_port_is_valid, get_ap_by_idr, valid_access_ports, APAccess, BankSelect, GenericAP, IDR,
};

/// A debug port whose access ports answer with fixed identification values; `None`
/// makes the read fail.
struct FixedPorts {
    idrs: Vec<Option<u32>>,
    reads: usize,
}

impl FixedPorts {
    fn new(entries: &[(u8, Option<u32>)]) -> Self {
        let mut idrs = vec![Some(0); 256];
        for (p, v) in entries {
            idrs[*p as usize] = *v;
        }
        FixedPorts { idrs, reads: 0 }
    }
}

impl APAccess<GenericAP, IDR> for FixedPorts {
    type Error = ();

    fn read_outcome(&self, port: GenericAP, _register: IDR) -> Option<IDR> {
        self.idrs[port.port_number as usize].map(|value| IDR { value })
    }

    fn read_ap_register(&mut self, port: GenericAP, _register: IDR) -> Result<IDR, ()> {
        self.reads += 1;
        match self.idrs[port.port_number as usize] {
            Some(value) => Ok(IDR { value }),
            None => Err(()),
        }
    }

    fn read_ap_register_repeated(
        &mut self,
        _port: GenericAP,
        _register: IDR,
        _values: &mut Vec<u32>,
    ) -> Result<(), ()> {
        Ok(())
    }

    fn write_ap_register(&mut self, _port: GenericAP, _register: IDR) -> Result<(), ()> {
        Ok(())
    }

    fn write_ap_register_repeated(
        &mut self,
        _port: GenericAP,
        _register: IDR,
        _values: &Vec<u32>,
    ) -> Result<(), ()> {
        Ok(())
    }
}

#[test]
fn port_with_nonzero_idr_is_valid() {
    let mut dp = FixedPorts::new(&[(1, Some(0x2477_0011)), (2, None)]);
    assert!(access_port_is_valid(&mut dp, GenericAP::new(1)));
    assert!(!access_port_is_valid(&mut dp, GenericAP::new(0)));
    assert!(!access_port_is_valid(&mut dp, GenericAP::new(2)));
}

#[test]
fn enumeration_lists_valid_ports_in_order() {
    let mut dp = FixedPorts::new(&[(0, Some(0x2477_0011)), (3, Some(1)), (5, None), (255, Some(7))]);
    let ports = valid_access_ports(&mut dp);
    assert_eq!(ports, vec![GenericAP::new(0), GenericAP::new(3), GenericAP::new(255)]);
    assert_eq!(dp.reads, 256);
}

#[test]
fn enumeration_twice_gives_same_ports() {
    let mut dp = FixedPorts::new(&[(2, Some(0x1)), (7, Some(0x4770_0002)), (9, None)]);
    let first = valid_access_ports(&mut dp);
    let second = valid_access_ports(&mut dp);
    assert_eq!(first, second);
    assert_eq!(first, vec![GenericAP::new(2), GenericAP::new(7)]);
}

#[test]
fn enumeration_of_empty_debug_port() {
    let mut dp = FixedPorts::new(&[]);
    assert!(valid_access_ports(&mut dp).is_empty());
}

#[test]
fn first_port_matching_idr_is_found() {
    let mut dp = FixedPorts::new(&[(1, Some(0x10)), (4, None), (6, Some(0x2477_0011)), (9, Some(0x2477_0011))]);
    let found = get_ap_by_idr(&mut dp, |idr: IDR| idr.value == 0x2477_0011);
    assert_eq!(found, Some(GenericAP::new(6)));
    let none = get_ap_by_idr(&mut dp, |idr: IDR| idr.value == 0x1234);
    assert_eq!(none, None);
}

#[test]
fn bank_is_selected_only_when_it_changes() {
    let mut sel = BankSelect::new();
    assert_eq!(sel.select(1, 0xFC), Some(0x0100_00F0));
    assert_eq!(sel.select(1, 0xF8), None);
    assert_eq!(sel.select(1, 0x04), Some(0x0100_0000));
    assert_eq!(sel.select(0, 0x0C), Some(0x0000_0000));
    assert_eq!(sel.select(0, 0x00), None);
}
