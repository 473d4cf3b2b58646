use vstd::prelude::*;

verus! {

/// Lower and upper bound of a sensor reading.
#[derive(Clone, Copy, Debug)]
pub struct RangeConfig<N = u32> {
    pub min: N,
    pub max: N,
}

/// How long the pump runs, and how long to wait before it may run again.
#[derive(Clone, Copy, Debug)]
pub struct PumpConfig {
    pub duration: u32,
    pub wait: u32,
}

/// The description of a plant, as loaded from a plant file.
///
/// The ambient humidity bounds are fractional numbers; they are held here
/// as the bit patterns of their `f32` values (`f32::to_bits`).
#[derive(Debug)]
pub struct PlantConfig {
    pub name: String,
    pub soil: RangeConfig,
    pub temperature: RangeConfig,
    pub hygro: RangeConfig<u32>,
    pub pump: PumpConfig,
}

/// A plant description with its name as a sequence of characters.
pub struct PlantConfigView {
    pub name: Seq<char>,
    pub soil: RangeConfig,
    pub temperature: RangeConfig,
    pub hygro: RangeConfig<u32>,
    pub pump: PumpConfig,
}

impl View for PlantConfig {
    type V = PlantConfigView;

    open spec fn view(&self) -> PlantConfigView {
        PlantConfigView {
            name: self.name@,
            soil: self.soil,
            temperature: self.temperature,
            hygro: self.hygro,
            pump: self.pump,
        }
    }
}

} // verus!
