use vstd::prelude::*;
use vstd::string::StringSliceAdditionalSpecFns;
use vstd::utf8::encode_utf8;

verus! {

/// A JEDEC JEP106 manufacturer code: the continuation count and the identity code.
#[derive(Debug, Clone, Copy, PartialEq, Eq, Structural)]
pub struct JEP106Code {
    pub cc: u8,
    pub id: u8,
}

/// The identity of a chip as its debug components report it.
#[derive(Debug, Clone, Copy, PartialEq, Eq, Structural)]
pub struct ChipInfo {
    pub manufacturer: JEP106Code,
    pub part: u16,
}

/// The identity in the peripheral ID registers PIDR0, PIDR1, PIDR2 and PIDR4 of a
/// CoreSight component: the part number in PIDR0 and the low half of PIDR1, the JEP106
/// code in the high half of PIDR1 and bits 2 to 0 of PIDR2, the continuation count in
/// the low half of PIDR4.
pub open spec fn chip_info_of(pidr0: u32, pidr1: u32, pidr2: u32, pidr4: u32) -> ChipInfo {
    ChipInfo {
        manufacturer: JEP106Code {
            cc: (pidr4 % 16) as u8,
            id: ((pidr1 / 16) % 16 + (pidr2 % 8) * 16) as u8,
        },
        part: (pidr0 % 256 + (pidr1 % 16) * 256) as u16,
    }
}

impl ChipInfo {
    /// Reads the chip's identity from the peripheral ID registers of its ROM table.
    pub fn from_peripheral_ids(pidr0: u32, pidr1: u32, pidr2: u32, pidr4: u32) -> (r: ChipInfo)
        ensures
            r == chip_info_of(pidr0, pidr1, pidr2, pidr4),
    {
        ChipInfo {
            manufacturer: JEP106Code {
                cc: (pidr4 % 16) as u8,
                id: ((pidr1 / 16) % 16 + (pidr2 % 8) * 16) as u8,
            },
            part: (pidr0 % 256 + (pidr1 % 16) * 256) as u16,
        }
    }
}

/// One chip of a family, with the identity it reports where that is known.
pub struct ChipVariant {
    pub name: String,
    pub manufacturer: Option<JEP106Code>,
    pub part: Option<u16>,
}

/// A family of chips that share their target description.
pub struct ChipFamily {
    pub name: String,
    pub variants: Vec<ChipVariant>,
}

/// How the target is chosen.
pub enum SelectionStrategy {
    /// By a name, matched against the variants' names without regard to case.
    TargetIdentifier(String),
    /// By the identity that the chip reported.
    ChipInfo(ChipInfo),
}

#[derive(Debug, Clone, Copy, PartialEq, Eq, Structural)]
pub enum RegistryError {
    TargetNotFound,
}

/// The known chip families.
pub struct Registry {
    pub families: Vec<ChipFamily>,
}

pub open spec fn name_bytes(s: String) -> Seq<u8> {
    encode_utf8(s@)
}

/// An ASCII letter in lower case; every other byte as it is.
pub open spec fn lower(b: u8) -> u8 {
    if 65 <= b <= 90 {
        (b + 32) as u8
    } else {
        b
    }
}

/// `needle` occurs in `hay` at `i`, without regard to the case of ASCII letters.
pub open spec fn occurs_at(hay: Seq<u8>, needle: Seq<u8>, i: int) -> bool {
    &&& 0 <= i
    &&& i + needle.len() <= hay.len()
    &&& forall|j: int| 0 <= j < needle.len() ==> lower(#[trigger] hay[i + j]) == lower(needle[j])
}

/// `needle` occurs somewhere in `hay`, without regard to the case of ASCII letters.
pub open spec fn occurs_in(hay: Seq<u8>, needle: Seq<u8>) -> bool {
    exists|i: int| #[trigger] occurs_at(hay, needle, i)
}

/// Whether the variant is the one that the strategy asks for.
pub open spec fn selects(v: ChipVariant, identifier: Option<Seq<u8>>, info: Option<ChipInfo>) -> bool {
    match identifier {
        Some(name) => occurs_in(name_bytes(v.name), name),
        None => match info {
            Some(i) => v.manufacturer == Some(i.manufacturer) && v.part == Some(i.part),
            None => false,
        },
    }
}

/// The strategy as a name or an identity.
pub open spec fn strategy_parts(s: SelectionStrategy) -> (Option<Seq<u8>>, Option<ChipInfo>) {
    match s {
        SelectionStrategy::TargetIdentifier(n) => (Some(name_bytes(n)), None),
        SelectionStrategy::ChipInfo(i) => (None, Some(i)),
    }
}

/// Position `(f, v)` comes before `(g, w)` in the registry's order.
pub open spec fn before(f: int, v: int, g: int, w: int) -> bool {
    f < g || (f == g && v < w)
}

fn lower_exec(b: u8) -> (r: u8)
    ensures
        r == lower(b),
{
    if 65 <= b && b <= 90 {
        b + 32
    } else {
        b
    }
}

fn occurs_in_exec(hay: &[u8], needle: &[u8]) -> (r: bool)
    ensures
        r == occurs_in(hay@, needle@),
{
    if needle.len() > hay.len() {
        proof {
            assert forall|i: int| !occurs_at(hay@, needle@, i) by {}
        }
        return false;
    }
    let mut i: usize = 0;
    while i <= hay.len() - needle.len()
        invariant
            needle@.len() <= hay@.len(),
            hay@.len() <= usize::MAX,
            i <= hay@.len() - needle@.len() + 1,
            forall|k: int| 0 <= k < i ==> !#[trigger] occurs_at(hay@, needle@, k),
        decreases hay@.len() - needle@.len() + 1 - i,
    {
        let mut j: usize = 0;
        let mut same = true;
        while j < needle.len()
            invariant
                needle@.len() <= hay@.len(),
                hay@.len() <= usize::MAX,
                i + needle@.len() <= hay@.len(),
                j <= needle@.len(),
                same == forall|t: int| 0 <= t < j ==> lower(#[trigger] hay@[i + t]) == lower(needle@[t]),
            decreases needle@.len() - j,
        {
            if lower_exec(hay[i + j]) != lower_exec(needle[j]) {
                same = false;
            }
            j = j + 1;
        }
        if same {
            assert(occurs_at(hay@, needle@, i as int));
            return true;
        }
        i = i + 1;
    }
    proof {
        assert forall|k: int| !occurs_at(hay@, needle@, k) by {
            if 0 <= k && k < i {
            }
        }
    }
    false
}

/// The first family at or after `i` named `name`.
pub open spec fn family_named(families: Seq<ChipFamily>, name: Seq<char>, i: int) -> Option<int>
    decreases families.len() - i,
{
    if i < 0 || i >= families.len() {
        None
    } else if families[i].name@ == name {
        Some(i)
    } else {
        family_named(families, name, i + 1)
    }
}

impl Registry {
    /// Adds a family; one added later replaces, in its place, a family of the same name.
    pub fn add_family(&mut self, family: ChipFamily)
        ensures
            match family_named(old(self).families@, family.name@, 0) {
                Some(i) => final(self).families@ == old(self).families@.update(i, family),
                None => final(self).families@ == old(self).families@.push(family),
            },
    {
        let mut i: usize = 0;
        while i < self.families.len()
            invariant
                i <= self.families@.len(),
                self.families@ == old(self).families@,
                family_named(self.families@, family.name@, 0) == family_named(
                    self.families@,
                    family.name@,
                    i as int,
                ),
            decreases self.families@.len() - i,
        {
            if self.families[i].name == family.name {
                self.families.set(i, family);
                return;
            }
            i = i + 1;
        }
        self.families.push(family);
    }

    /// Finds the variant that `strategy` asks for: the first in order of families, then
    /// of variants, as `(family, variant)` positions.
    pub fn get_target(&self, strategy: &SelectionStrategy) -> (r: Result<(usize, usize), RegistryError>)
        ensures
            ({
                let (n, i) = strategy_parts(*strategy);
                match r {
                    Ok((f, v)) => {
                        &&& f < self.families@.len()
                        &&& v < self.families@[f as int].variants@.len()
                        &&& selects(self.families@[f as int].variants@[v as int], n, i)
                        &&& forall|g: int, w: int|
                            0 <= g < self.families@.len() && 0 <= w
                                < self.families@[g].variants@.len() && before(g, w, f as int, v as int)
                                ==> !selects(#[trigger] self.families@[g].variants@[w], n, i)
                    },
                    Err(e) => {
                        &&& e == RegistryError::TargetNotFound
                        &&& forall|g: int, w: int|
                            0 <= g < self.families@.len() && 0 <= w
                                < self.families@[g].variants@.len() ==> !selects(
                                #[trigger] self.families@[g].variants@[w],
                                n,
                                i,
                            )
                    },
                }
            }),
    {
        let ghost parts = strategy_parts(*strategy);
        let mut f: usize = 0;
        while f < self.families.len()
            invariant
                parts == strategy_parts(*strategy),
                f <= self.families@.len(),
                forall|g: int, w: int|
                    0 <= g < f && 0 <= w < self.families@[g].variants@.len() ==> !selects(
                        #[trigger] self.families@[g].variants@[w],
                        parts.0,
                        parts.1,
                    ),
            decreases self.families@.len() - f,
        {
            let family = &self.families[f];
            let mut v: usize = 0;
            while v < family.variants.len()
                invariant
                    parts == strategy_parts(*strategy),
                    f < self.families@.len(),
                    *family == self.families@[f as int],
                    v <= family.variants@.len(),
                    forall|g: int, w: int|
                        0 <= g < f && 0 <= w < self.families@[g].variants@.len() ==> !selects(
                            #[trigger] self.families@[g].variants@[w],
                            parts.0,
                            parts.1,
                        ),
                    forall|w: int|
                        0 <= w < v ==> !selects(
                            #[trigger] self.families@[f as int].variants@[w],
                            parts.0,
                            parts.1,
                        ),
                decreases family.variants@.len() - v,
            {
                let variant = &family.variants[v];
                let hit = match strategy {
                    SelectionStrategy::TargetIdentifier(name) => occurs_in_exec(
                        variant.name.as_str().as_bytes(),
                        name.as_str().as_bytes(),
                    ),
                    SelectionStrategy::ChipInfo(info) => {
                        let m = match variant.manufacturer {
                            Some(m) => m == info.manufacturer,
                            None => false,
                        };
                        let p = match variant.part {
                            Some(p) => p == info.part,
                            None => false,
                        };
                        m && p
                    },
                };
                if hit {
                    return Ok((f, v));
                }
                v = v + 1;
            }
            f = f + 1;
        }
        Err(RegistryError::TargetNotFound)
    }
}

} // verus!
