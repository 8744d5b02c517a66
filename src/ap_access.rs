use vstd::prelude::*;

verus! {

/// An access port, known by its number on the debug port.
pub trait AccessPort {
    spec fn port_number_spec(&self) -> u8;

    fn get_port_number(&self) -> (r: u8)
        ensures
            r == self.port_number_spec(),
    ;
}

/// A register of an access port of type `PORT`.
pub trait APRegister<PORT>: Sized {
    /// Reading this register has no side effect: afterwards every register reads as it
    /// did before.
    spec fn read_is_side_effect_free() -> bool;
}

/// Access to the registers of the access ports behind a debug port.
///
/// `read_outcome` models the probe and target: what a read of `register` on `port`
/// returns in the current state, `None` where the read fails.
pub trait APAccess<PORT, REGISTER> where PORT: AccessPort, REGISTER: APRegister<PORT> {
    type Error;

    spec fn read_outcome(&self, port: PORT, register: REGISTER) -> Option<REGISTER>;

    fn read_ap_register(&mut self, port: PORT, register: REGISTER) -> (r: Result<
        REGISTER,
        Self::Error,
    >)
        ensures
            match r {
                Ok(v) => old(self).read_outcome(port, register) == Some(v),
                Err(_) => old(self).read_outcome(port, register) is None,
            },
            REGISTER::read_is_side_effect_free() ==> forall|p: PORT, g: REGISTER|
                #[trigger] final(self).read_outcome(p, g) == old(self).read_outcome(p, g),
    ;

    /// Read a register using a block transfer. This can be used
    /// to read multiple values from the same register.
    fn read_ap_register_repeated(
        &mut self,
        port: PORT,
        register: REGISTER,
        values: &mut Vec<u32>,
    ) -> (r: Result<(), Self::Error>)
        ensures
            final(values)@.len() == old(values)@.len(),
    ;

    fn write_ap_register(&mut self, port: PORT, register: REGISTER) -> Result<(), Self::Error>;

    /// Write a register using a block transfer. This can be used
    /// to write multiple values to the same register.
    fn write_ap_register_repeated(
        &mut self,
        port: PORT,
        register: REGISTER,
        values: &Vec<u32>,
    ) -> Result<(), Self::Error>;
}

/// Any access port, addressed by its number alone.
#[derive(Debug, Clone, Copy, PartialEq, Eq, Structural)]
pub struct GenericAP {
    pub port_number: u8,
}

impl GenericAP {
    pub fn new(port_number: u8) -> (r: GenericAP)
        ensures
            r.port_number == port_number,
    {
        GenericAP { port_number }
    }
}

impl AccessPort for GenericAP {
    open spec fn port_number_spec(&self) -> u8 {
        self.port_number
    }

    fn get_port_number(&self) -> (r: u8) {
        self.port_number
    }
}

/// The identification register of an access port. An access port is present where
/// it reads nonzero.
#[derive(Debug, Clone, Copy, PartialEq, Eq, Structural)]
pub struct IDR {
    pub value: u32,
}

impl IDR {
    /// The register to ask for: its value is ignored by a read.
    pub open spec fn selector() -> IDR {
        IDR { value: 0 }
    }
}

impl Default for IDR {
    fn default() -> (r: IDR)
        ensures
            r == IDR::selector(),
    {
        IDR { value: 0 }
    }
}

impl APRegister<GenericAP> for IDR {
    open spec fn read_is_side_effect_free() -> bool {
        true
    }
}

/// The identification register of `port` reads, and reads nonzero.
pub open spec fn ap_is_valid<AP: APAccess<GenericAP, IDR>>(dp: AP, port: GenericAP) -> bool {
    match dp.read_outcome(port, IDR::selector()) {
        Some(idr) => idr.value != 0,
        None => false,
    }
}

/// The valid access ports among those numbered below `n`, in ascending order.
pub open spec fn valid_ports_below<AP: APAccess<GenericAP, IDR>>(dp: AP, n: nat) -> Seq<
    GenericAP,
>
    decreases n,
{
    if n == 0 {
        Seq::empty()
    } else {
        let port = GenericAP { port_number: (n - 1) as u8 };
        let below = valid_ports_below(dp, (n - 1) as nat);
        if ap_is_valid(dp, port) {
            below.push(port)
        } else {
            below
        }
    }
}

/// All valid access ports, numbers 0 to 255, in ascending order.
pub open spec fn valid_ports<AP: APAccess<GenericAP, IDR>>(dp: AP) -> Seq<GenericAP> {
    valid_ports_below(dp, 256)
}

/// Two states of a debug port in which every register reads alike.
pub open spec fn same_reads<AP: APAccess<GenericAP, IDR>>(a: AP, b: AP) -> bool {
    forall|p: GenericAP, g: IDR| #[trigger] a.read_outcome(p, g) == b.read_outcome(p, g)
}

/// The DP SELECT value that reaches `register` of access port `port`: APSEL in bits
/// 31 to 24, APBANKSEL (bits 7 to 4 of the register's address) in bits 7 to 4.
pub open spec fn select_value(port: u8, register: u8) -> u32 {
    (port * 0x100_0000 + register / 16 * 16) as u32
}

/// The DP SELECT value last written, where one is known.
pub struct BankSelect {
    pub current: Option<u32>,
}

impl BankSelect {
    pub fn new() -> (r: BankSelect)
        ensures
            r.current is None,
    {
        BankSelect { current: None }
    }

    /// Before an access to `register` of `port`: the value to write to DP SELECT, or
    /// `None` where it holds the right bank already.
    pub fn select(&mut self, port: u8, register: u8) -> (r: Option<u32>)
        ensures
            final(self).current == Some(select_value(port, register)),
            r == (if old(self).current == Some(select_value(port, register)) {
                None
            } else {
                Some(select_value(port, register))
            }),
    {
        let value: u32 = port as u32 * 0x100_0000 + register as u32 / 16 * 16;
        if self.current == Some(value) {
            None
        } else {
            self.current = Some(value);
            Some(value)
        }
    }
}

/// Determine if an AP exists with the given AP number.
pub fn access_port_is_valid<AP>(debug_port: &mut AP, access_port: GenericAP) -> (r: bool) where
    AP: APAccess<GenericAP, IDR>,

    ensures
        r == ap_is_valid(*old(debug_port), access_port),
        same_reads(*old(debug_port), *final(debug_port)),
{
    if let Ok(idr) = debug_port.read_ap_register(access_port, IDR::default()) {
        idr.value != 0
    } else {
        false
    }
}

/// Return a Vec of all valid access ports found that the target connected to the debug_probe
pub fn valid_access_ports<AP>(debug_port: &mut AP) -> (r: Vec<GenericAP>) where
    AP: APAccess<GenericAP, IDR>,

    ensures
        r@ == valid_ports(*old(debug_port)),
        same_reads(*old(debug_port), *final(debug_port)),
{
    let ghost start = *debug_port;
    let mut ports: Vec<GenericAP> = Vec::new();
    let mut n: u16 = 0;
    while n < 256
        invariant
            n <= 256,
            same_reads(start, *debug_port),
            ports@ == valid_ports_below(start, n as nat),
        decreases 256 - n,
    {
        let port = GenericAP::new(n as u8);
        if access_port_is_valid(debug_port, port) {
            ports.push(port);
        }
        n = n + 1;
    }
    ports
}

/// Tries to find the first AP with the given idr value, returns `None` if there isn't any
pub fn get_ap_by_idr<AP, P>(debug_port: &mut AP, f: P) -> (r: Option<GenericAP>) where
    AP: APAccess<GenericAP, IDR>,
    P: Fn(IDR) -> bool,

    requires
        forall|idr: IDR| f.requires((idr,)),
    ensures
        same_reads(*old(debug_port), *final(debug_port)),
        match r {
            Some(ap) => exists|idr: IDR|
                old(debug_port).read_outcome(ap, IDR::selector()) == Some(idr) && #[trigger] f.ensures(
                    (idr,),
                    true,
                ),
            None => true,
        },
        forall|n: int|
            0 <= n < 256 && (r matches Some(ap) ==> n < ap.port_number) ==> #[trigger] rejected(
                *old(debug_port),
                f,
                n as u8,
            ),
{
    let ghost start = *debug_port;
    let mut n: u16 = 0;
    while n < 256
        invariant
            n <= 256,
            same_reads(start, *debug_port),
            start == *old(debug_port),
            forall|idr: IDR| f.requires((idr,)),
            forall|i: int| 0 <= i < n ==> #[trigger] rejected(start, f, i as u8),
        decreases 256 - n,
    {
        let ap = GenericAP::new(n as u8);
        if let Ok(idr) = debug_port.read_ap_register(ap, IDR::default()) {
            if f(idr) {
                return Some(ap);
            }
        }
        n = n + 1;
    }
    None
}

/// Port `n` was passed over by a search with `f`: its identification register does not
/// read, or `f` answered `false` on what it read.
pub open spec fn rejected<AP: APAccess<GenericAP, IDR>, P: Fn(IDR) -> bool>(
    dp: AP,
    f: P,
    n: u8,
) -> bool {
    match dp.read_outcome(GenericAP { port_number: n }, IDR::selector()) {
        Some(idr) => f.ensures((idr,), false),
        None => true,
    }
}

/// Enumerating the access ports twice over a debug port whose registers read alike
/// gives the same ports.
pub proof fn lemma_valid_access_ports_stable<AP: APAccess<GenericAP, IDR>>(first: AP, second: AP)
    requires
        same_reads(first, second),
    ensures
        valid_ports(first) == valid_ports(second),
{
    lemma_valid_ports_below_same(first, second, 256);
}

proof fn lemma_valid_ports_below_same<AP: APAccess<GenericAP, IDR>>(a: AP, b: AP, n: nat)
    requires
        same_reads(a, b),
    ensures
        valid_ports_below(a, n) == valid_ports_below(b, n),
    decreases n,
{
    if n > 0 {
        lemma_valid_ports_below_same(a, b, (n - 1) as nat);
        let port = GenericAP { port_number: (n - 1) as u8 };
        assert(a.read_outcome(port, IDR::selector()) == b.read_outcome(port, IDR::selector()));
    }
}

} // verus!
