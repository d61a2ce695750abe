//! An abstraction for chips for betting.
use crate::tally::run;
use core::cmp::Ordering;
use vstd::prelude::*;
use vstd::std_specs::iter::IteratorSpec;

verus! {

/// A chip to place a bet with
#[derive(Debug, Clone, Copy, PartialEq, Eq, PartialOrd, Ord, Hash, Structural)]
pub enum Chip {
    /// A chip worth 1 unit
    One,
    /// A chip worth 5 units
    Five,
    /// A chip worth 25 units
    TwentyFive,
    /// A chip worth 100 units
    Hundred,
}

impl Chip {
    /// The value of the chip in units.
    pub open spec fn spec_value(&self) -> usize {
        match self {
            Chip::One => 1,
            Chip::Five => 5,
            Chip::TwentyFive => 25,
            Chip::Hundred => 100,
        }
    }

    /// Get the value of the chip in units
    #[verifier::when_used_as_spec(spec_value)]
    pub fn value(&self) -> (units: usize)
        ensures
            units == self.spec_value(),
    {
        match self {
            Self::One => 1,
            Self::Five => 5,
            Self::TwentyFive => 25,
            Self::Hundred => 100,
        }
    }
}

/// A bet of one or more chips
#[derive(Debug, Clone, Copy, PartialEq, Eq, Structural)]
pub struct Bet {
    /// The chips worth 1 unit
    ones: usize,
    /// The chips worth 5 units
    fives: usize,
    /// The chips worth 25 units
    twenty_fives: usize,
    /// The chips worth 100 units
    hundreds: usize,
    /// The total value of the bet in units
    units: usize,
}

impl Bet {
    /// How many chips of one kind the bet holds.
    pub closed spec fn count(&self, chip: Chip) -> nat {
        match chip {
            Chip::One => self.ones as nat,
            Chip::Five => self.fives as nat,
            Chip::TwentyFive => self.twenty_fives as nat,
            Chip::Hundred => self.hundreds as nat,
        }
    }

    /// The total value of the bet in units.
    pub closed spec fn spec_units(&self) -> nat {
        self.units as nat
    }

    /// What the chips of the bet are worth together.
    pub open spec fn worth(&self) -> nat {
        self.count(Chip::One) + 5 * self.count(Chip::Five) + 25 * self.count(Chip::TwentyFive)
            + 100 * self.count(Chip::Hundred)
    }

    /// The total that the bet records is what its chips are worth.
    pub open spec fn wf(&self) -> bool {
        self.spec_units() == self.worth()
    }

    /// The bet with these numbers of chips, for contracts.
    pub closed spec fn of(ones: nat, fives: nat, twenty_fives: nat, hundreds: nat) -> Bet {
        Bet {
            ones: ones as usize,
            fives: fives as usize,
            twenty_fives: twenty_fives as usize,
            hundreds: hundreds as usize,
            units: (ones + 5 * fives + 25 * twenty_fives + 100 * hundreds) as usize,
        }
    }

    /// Where the worth of the chips fits the machine's word, the bet made
    /// of them holds them, and records their worth.
    pub proof fn lemma_of(ones: nat, fives: nat, twenty_fives: nat, hundreds: nat)
        requires
            ones + 5 * fives + 25 * twenty_fives + 100 * hundreds <= usize::MAX,
        ensures
            Bet::of(ones, fives, twenty_fives, hundreds).wf(),
            Bet::of(ones, fives, twenty_fives, hundreds).count(Chip::One) == ones,
            Bet::of(ones, fives, twenty_fives, hundreds).count(Chip::Five) == fives,
            Bet::of(ones, fives, twenty_fives, hundreds).count(Chip::TwentyFive) == twenty_fives,
            Bet::of(ones, fives, twenty_fives, hundreds).count(Chip::Hundred) == hundreds,
    {
    }

    /// The total value of the bet in units.
    pub fn units(&self) -> (units: usize)
        ensures
            units == self.spec_units(),
    {
        self.units
    }

    /// The chips of the bet one by one, the dearest first.
    pub open spec fn spec_chips(&self) -> Seq<Chip> {
        run(Chip::Hundred, self.count(Chip::Hundred)) + run(
            Chip::TwentyFive,
            self.count(Chip::TwentyFive),
        ) + run(Chip::Five, self.count(Chip::Five)) + run(Chip::One, self.count(Chip::One))
    }

    /// The chips of the bet, the dearest first.
    pub fn into_chips(self) -> (chips: Vec<Chip>)
        ensures
            chips@ == self.spec_chips(),
    {
        let mut chips: Vec<Chip> = Vec::new();
        Self::stack(&mut chips, Chip::Hundred, self.hundreds);
        Self::stack(&mut chips, Chip::TwentyFive, self.twenty_fives);
        Self::stack(&mut chips, Chip::Five, self.fives);
        Self::stack(&mut chips, Chip::One, self.ones);
        chips
    }

    /// Puts `count` chips of one kind on the pile.
    fn stack(chips: &mut Vec<Chip>, chip: Chip, count: usize)
        ensures
            final(chips)@ == old(chips)@ + run(chip, count as nat),
    {
        let mut i: usize = 0;
        while i < count
            invariant
                i <= count,
                chips@ == old(chips)@ + run(chip, i as nat),
            decreases count - i,
        {
            chips.push(chip);
            i = i + 1;
            assert(chips@ =~= old(chips)@ + run(chip, i as nat));
        }
    }
}

impl IntoIterator for Bet {
    type Item = Chip;

    type IntoIter = std::vec::IntoIter<Chip>;

    /// The chips of the bet in turn, the dearest first.
    fn into_iter(self) -> (chips: std::vec::IntoIter<Chip>)
        ensures
            chips.remaining() == self.spec_chips(),
    {
        self.into_chips().into_iter()
    }
}

impl Default for Bet {
    /// The bet of no chips.
    fn default() -> (bet: Bet)
        ensures
            bet.wf(),
            bet.spec_units() == 0,
            forall|chip: Chip| bet.count(chip) == 0,
    {
        Bet { ones: 0, fives: 0, twenty_fives: 0, hundreds: 0, units: 0 }
    }
}

impl From<Chip> for Bet {
    /// The bet of one chip.
    fn from(chip: Chip) -> (bet: Bet)
        ensures
            bet.wf(),
            bet.spec_units() == chip.spec_value(),
            forall|other: Chip|
                bet.count(other) == if other == chip {
                    1nat
                } else {
                    0nat
                },
    {
        match chip {
            Chip::One => Bet { ones: 1, fives: 0, twenty_fives: 0, hundreds: 0, units: 1 },
            Chip::Five => Bet { ones: 0, fives: 1, twenty_fives: 0, hundreds: 0, units: 5 },
            Chip::TwentyFive => Bet { ones: 0, fives: 0, twenty_fives: 1, hundreds: 0, units: 25 },
            Chip::Hundred => Bet { ones: 0, fives: 0, twenty_fives: 0, hundreds: 1, units: 100 },
        }
    }
}

impl vstd::std_specs::convert::FromSpecImpl<Chip> for Bet {
    open spec fn obeys_from_spec() -> bool {
        true
    }

    open spec fn from_spec(chip: Chip) -> Bet {
        match chip {
            Chip::One => Bet::of(1, 0, 0, 0),
            Chip::Five => Bet::of(0, 1, 0, 0),
            Chip::TwentyFive => Bet::of(0, 0, 1, 0),
            Chip::Hundred => Bet::of(0, 0, 0, 1),
        }
    }
}

impl From<Bet> for usize {
    /// The total value of the bet in units.
    fn from(val: Bet) -> (units: usize)
        ensures
            units == val.spec_units(),
    {
        val.units
    }
}

impl vstd::std_specs::convert::FromSpecImpl<Bet> for usize {
    open spec fn obeys_from_spec() -> bool {
        true
    }

    open spec fn from_spec(val: Bet) -> usize {
        val.spec_units() as usize
    }
}

impl PartialOrd for Bet {
    /// Bets are ordered by what they are worth.
    fn partial_cmp(&self, other: &Self) -> (order: Option<Ordering>) {
        if self.units < other.units {
            Some(Ordering::Less)
        } else if self.units == other.units {
            Some(Ordering::Equal)
        } else {
            Some(Ordering::Greater)
        }
    }
}

impl vstd::std_specs::cmp::PartialOrdSpecImpl for Bet {
    open spec fn obeys_partial_cmp_spec() -> bool {
        true
    }

    open spec fn partial_cmp_spec(&self, other: &Bet) -> Option<Ordering> {
        if self.spec_units() < other.spec_units() {
            Some(Ordering::Less)
        } else if self.spec_units() == other.spec_units() {
            Some(Ordering::Equal)
        } else {
            Some(Ordering::Greater)
        }
    }
}

impl core::ops::Add for Bet {
    type Output = Bet;

    /// The chips of both bets together.
    fn add(self, other: Bet) -> (sum: Bet)
        ensures
            sum.wf(),
            sum.spec_units() == self.spec_units() + other.spec_units(),
            forall|chip: Chip| sum.count(chip) == self.count(chip) + other.count(chip),
    {
        let units = self.units + other.units;
        Bet {
            ones: self.ones + other.ones,
            fives: self.fives + other.fives,
            twenty_fives: self.twenty_fives + other.twenty_fives,
            hundreds: self.hundreds + other.hundreds,
            units,
        }
    }
}

impl vstd::std_specs::ops::AddSpecImpl for Bet {
    open spec fn obeys_add_spec() -> bool {
        true
    }

    open spec fn add_req(self, other: Bet) -> bool {
        &&& self.wf()
        &&& other.wf()
        &&& self.spec_units() + other.spec_units() <= usize::MAX
    }

    open spec fn add_spec(self, other: Bet) -> Bet {
        Bet::of(
            self.count(Chip::One) + other.count(Chip::One),
            self.count(Chip::Five) + other.count(Chip::Five),
            self.count(Chip::TwentyFive) + other.count(Chip::TwentyFive),
            self.count(Chip::Hundred) + other.count(Chip::Hundred),
        )
    }
}

impl core::ops::Sub for Bet {
    type Output = Bet;

    /// The bet without the chips of the other.
    fn sub(self, other: Bet) -> (rest: Bet)
        ensures
            rest.wf(),
            rest.spec_units() == self.spec_units() - other.spec_units(),
            forall|chip: Chip| rest.count(chip) == self.count(chip) - other.count(chip),
    {
        let ones = self.ones - other.ones;
        let fives = self.fives - other.fives;
        let twenty_fives = self.twenty_fives - other.twenty_fives;
        let hundreds = self.hundreds - other.hundreds;
        let units = self.units - other.units;
        Bet { ones, fives, twenty_fives, hundreds, units }
    }
}

impl vstd::std_specs::ops::SubSpecImpl for Bet {
    open spec fn obeys_sub_spec() -> bool {
        true
    }

    open spec fn sub_req(self, other: Bet) -> bool {
        &&& self.wf()
        &&& other.wf()
        &&& forall|chip: Chip| self.count(chip) >= other.count(chip)
    }

    open spec fn sub_spec(self, other: Bet) -> Bet {
        Bet::of(
            (self.count(Chip::One) - other.count(Chip::One)) as nat,
            (self.count(Chip::Five) - other.count(Chip::Five)) as nat,
            (self.count(Chip::TwentyFive) - other.count(Chip::TwentyFive)) as nat,
            (self.count(Chip::Hundred) - other.count(Chip::Hundred)) as nat,
        )
    }
}

/// Multiplication of a bet by a usize
impl core::ops::Mul<usize> for Bet {
    type Output = Bet;

    /// The bet with each of its chips `rhs` times.
    fn mul(self, rhs: usize) -> (product: Bet)
        ensures
            product.wf(),
            product.spec_units() == self.spec_units() * rhs,
            forall|chip: Chip| product.count(chip) == self.count(chip) * rhs,
    {
        proof {
            let (a, b, c, d, r) = (
                self.ones as int,
                self.fives as int,
                self.twenty_fives as int,
                self.hundreds as int,
                rhs as int,
            );
            assert((a + 5 * b + 25 * c + 100 * d) * r == a * r + 5 * (b * r) + 25 * (c * r) + 100
                * (d * r)) by (nonlinear_arith);
            assert(0 <= a * r && 0 <= b * r && 0 <= c * r && 0 <= d * r) by (nonlinear_arith)
                requires
                    0 <= a,
                    0 <= b,
                    0 <= c,
                    0 <= d,
                    0 <= r,
            ;
        }
        let units = self.units * rhs;
        Bet {
            ones: self.ones * rhs,
            fives: self.fives * rhs,
            twenty_fives: self.twenty_fives * rhs,
            hundreds: self.hundreds * rhs,
            units,
        }
    }
}

impl vstd::std_specs::ops::MulSpecImpl<usize> for Bet {
    open spec fn obeys_mul_spec() -> bool {
        true
    }

    open spec fn mul_req(self, rhs: usize) -> bool {
        &&& self.wf()
        &&& self.spec_units() * rhs <= usize::MAX
    }

    open spec fn mul_spec(self, rhs: usize) -> Bet {
        Bet::of(
            (self.count(Chip::One) * rhs) as nat,
            (self.count(Chip::Five) * rhs) as nat,
            (self.count(Chip::TwentyFive) * rhs) as nat,
            (self.count(Chip::Hundred) * rhs) as nat,
        )
    }
}

} // verus!
