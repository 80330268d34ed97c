use vstd::prelude::*;

verus! {

/// The class of machine that crafts a composite material.
#[derive(Copy, Clone, Debug, Hash, PartialEq, Eq, Structural)]
pub enum ProducerType {
    AssemblingMachine,
    Furnace,
    ChemicalPlant,
    RocketSilo,
}

/// The display name of a producer class.
pub fn get_producer_type_name(producer_type: ProducerType) -> (r: String)
    ensures
        producer_type == ProducerType::AssemblingMachine ==> r@ == "Assembling Machine"@,
        producer_type == ProducerType::ChemicalPlant ==> r@ == "Chemical Plant"@,
        producer_type == ProducerType::Furnace ==> r@ == "Furnace"@,
        producer_type == ProducerType::RocketSilo ==> r@ == "Rocket Silo"@,
{
    match producer_type {
        ProducerType::AssemblingMachine => "Assembling Machine".to_owned(),
        ProducerType::ChemicalPlant => "Chemical Plant".to_owned(),
        ProducerType::Furnace => "Furnace".to_owned(),
        ProducerType::RocketSilo => "Rocket Silo".to_owned(),
    }
}

/// Technology tier of assembling machines; selects a production modifier.
#[derive(Copy, Clone, Debug, Hash, PartialEq, Eq, Structural)]
pub enum AssemblingMachineLevel {
    One,
    Two,
    Three,
}

impl AssemblingMachineLevel {
    /// Display name of the tier.
    pub fn label(&self) -> (r: &'static str)
        ensures
            *self == AssemblingMachineLevel::One ==> r@ == "1"@,
            *self == AssemblingMachineLevel::Two ==> r@ == "2"@,
            *self == AssemblingMachineLevel::Three ==> r@ == "3"@,
    {
        match self {
            AssemblingMachineLevel::One => "1",
            AssemblingMachineLevel::Two => "2",
            AssemblingMachineLevel::Three => "3",
        }
    }
}

/// Technology tier of furnaces; selects a production modifier.
#[derive(Copy, Clone, Debug, Hash, PartialEq, Eq, Structural)]
pub enum FurnaceLevel {
    Stone,
    Steel,
}

impl FurnaceLevel {
    /// Display name of the tier.
    pub fn label(&self) -> (r: &'static str)
        ensures
            *self == FurnaceLevel::Stone ==> r@ == "Stone"@,
            *self == FurnaceLevel::Steel ==> r@ == "Steel"@,
    {
        match self {
            FurnaceLevel::Stone => "Stone",
            FurnaceLevel::Steel => "Steel",
        }
    }
}

} // verus!
