//! Token amounts.

use vstd::prelude::*;
use crate::storage::to_vec;

verus! {

/// Name of a token denomination. The native denomination has the empty
/// name.
#[derive(Debug)]
pub struct Denomination(pub Vec<u8>);

/// An amount of a denomination, in base units.
#[derive(Debug)]
pub struct BaseUnits(pub u128, pub Denomination);

impl View for BaseUnits {
    type V = (u128, Seq<u8>);

    open spec fn view(&self) -> (u128, Seq<u8>) {
        (self.0, self.1.0@)
    }
}

impl BaseUnits {
    /// An amount of the given denomination.
    pub fn new(amount: u128, denomination: Denomination) -> (units: BaseUnits)
        ensures
            units == BaseUnits(amount, denomination),
    {
        BaseUnits(amount, denomination)
    }

    /// The amount.
    pub fn amount(&self) -> (amount: u128)
        ensures
            amount == self.0,
    {
        self.0
    }

    /// The denomination.
    pub fn denomination(&self) -> (denomination: &Denomination)
        ensures
            denomination == &self.1,
    {
        &self.1
    }

    /// A copy of the amount.
    pub fn duplicate(&self) -> (units: BaseUnits)
        ensures
            units@ == self@,
    {
        BaseUnits(self.0, Denomination(to_vec(self.1.0.as_slice())))
    }
}

} // verus!
