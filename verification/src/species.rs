//! The static species table: per-species color, visual radius, flight speed
//! and candidate audio cues.  Pure data, no behavior.
//!
//! Colors are sRGB channels in thousandths, radii in thousandths of a world
//! unit, speeds in thousandths of a unit per second.  A cue is a small
//! integer naming one of the recorded vocalization clips; every species has
//! at least one cue by construction.

use vstd::prelude::*;

verus! {

/// The fixed set of bird species.
#[derive(Clone, Copy, PartialEq, Eq, Structural, Debug)]
pub enum BirdSpecies {
    MourningDove,
    DownyWoodpecker,
    NorthernFlicker,
    StellersJay,
    CaliforniaScrubJay,
    BlackCappedChickadee,
    WhiteBreastedNuthatch,
    WhiteCrownedSparrow,
    RedWingedBlackbird,
    CassinsFinch,
    HouseFinch,
    PineSiskin,
    AmericanGoldfinch,
    EveningGrosbeak,
}

/// How many species exist.
pub const SPECIES_COUNT: u64 = 14;

/// The species at a given index, for uniform random selection.
pub open spec fn species_at(i: int) -> BirdSpecies {
    if i == 0 {
        BirdSpecies::MourningDove
    } else if i == 1 {
        BirdSpecies::DownyWoodpecker
    } else if i == 2 {
        BirdSpecies::NorthernFlicker
    } else if i == 3 {
        BirdSpecies::StellersJay
    } else if i == 4 {
        BirdSpecies::CaliforniaScrubJay
    } else if i == 5 {
        BirdSpecies::BlackCappedChickadee
    } else if i == 6 {
        BirdSpecies::WhiteBreastedNuthatch
    } else if i == 7 {
        BirdSpecies::WhiteCrownedSparrow
    } else if i == 8 {
        BirdSpecies::RedWingedBlackbird
    } else if i == 9 {
        BirdSpecies::CassinsFinch
    } else if i == 10 {
        BirdSpecies::HouseFinch
    } else if i == 11 {
        BirdSpecies::PineSiskin
    } else if i == 12 {
        BirdSpecies::AmericanGoldfinch
    } else {
        BirdSpecies::EveningGrosbeak
    }
}

/// Flight speed in thousandths of a unit per second.
pub open spec fn spec_speed_milli(s: BirdSpecies) -> u64 {
    match s {
        BirdSpecies::MourningDove => 1500,
        BirdSpecies::DownyWoodpecker => 1000,
        BirdSpecies::NorthernFlicker => 1100,
        BirdSpecies::StellersJay => 1300,
        BirdSpecies::CaliforniaScrubJay => 1200,
        BirdSpecies::BlackCappedChickadee => 900,
        BirdSpecies::WhiteBreastedNuthatch => 800,
        BirdSpecies::WhiteCrownedSparrow => 1000,
        BirdSpecies::RedWingedBlackbird => 1400,
        BirdSpecies::CassinsFinch => 1100,
        BirdSpecies::HouseFinch => 1000,
        BirdSpecies::PineSiskin => 900,
        BirdSpecies::AmericanGoldfinch => 1000,
        BirdSpecies::EveningGrosbeak => 1200,
    }
}

/// Collision/visual radius in thousandths of a unit.
pub open spec fn spec_radius_milli(s: BirdSpecies) -> u64 {
    match s {
        BirdSpecies::MourningDove => 250,
        BirdSpecies::DownyWoodpecker => 180,
        BirdSpecies::NorthernFlicker => 220,
        BirdSpecies::StellersJay => 240,
        BirdSpecies::CaliforniaScrubJay => 220,
        BirdSpecies::BlackCappedChickadee => 150,
        BirdSpecies::WhiteBreastedNuthatch => 160,
        BirdSpecies::WhiteCrownedSparrow => 170,
        BirdSpecies::RedWingedBlackbird => 200,
        BirdSpecies::CassinsFinch => 160,
        BirdSpecies::HouseFinch => 160,
        BirdSpecies::PineSiskin => 140,
        BirdSpecies::AmericanGoldfinch => 140,
        BirdSpecies::EveningGrosbeak => 200,
    }
}

/// Display color as sRGB channels in thousandths (cosmetic only).
pub open spec fn spec_color_milli(s: BirdSpecies) -> (u64, u64, u64) {
    match s {
        BirdSpecies::MourningDove => (600, 500, 400),
        BirdSpecies::DownyWoodpecker => (200, 200, 200),
        BirdSpecies::NorthernFlicker => (700, 500, 300),
        BirdSpecies::StellersJay => (100, 200, 600),
        BirdSpecies::CaliforniaScrubJay => (300, 400, 700),
        BirdSpecies::BlackCappedChickadee => (800, 800, 700),
        BirdSpecies::WhiteBreastedNuthatch => (500, 500, 600),
        BirdSpecies::WhiteCrownedSparrow => (600, 550, 450),
        BirdSpecies::RedWingedBlackbird => (100, 100, 100),
        BirdSpecies::CassinsFinch => (700, 300, 300),
        BirdSpecies::HouseFinch => (800, 300, 200),
        BirdSpecies::PineSiskin => (600, 600, 300),
        BirdSpecies::AmericanGoldfinch => (900, 800, 100),
        BirdSpecies::EveningGrosbeak => (700, 600, 100),
    }
}

/// The candidate audio cues of a species, as indices into the clip table.
pub open spec fn spec_cues(s: BirdSpecies) -> Seq<u32> {
    match s {
        BirdSpecies::MourningDove => seq![0u32],
        BirdSpecies::DownyWoodpecker => seq![1u32, 2],
        BirdSpecies::NorthernFlicker => seq![3u32, 4, 5],
        BirdSpecies::StellersJay => seq![6u32, 7],
        BirdSpecies::CaliforniaScrubJay => seq![8u32],
        BirdSpecies::BlackCappedChickadee => seq![9u32, 10],
        BirdSpecies::WhiteBreastedNuthatch => seq![11u32, 12, 13],
        BirdSpecies::WhiteCrownedSparrow => seq![14u32, 15, 16],
        BirdSpecies::RedWingedBlackbird => seq![17u32, 18],
        BirdSpecies::CassinsFinch => seq![19u32, 20],
        BirdSpecies::HouseFinch => seq![21u32, 22],
        BirdSpecies::PineSiskin => seq![23u32],
        BirdSpecies::AmericanGoldfinch => seq![24u32],
        BirdSpecies::EveningGrosbeak => seq![25u32],
    }
}

impl BirdSpecies {
    /// The species at `i`, for uniform random selection.
    pub fn from_index(i: u64) -> (r: BirdSpecies)
        requires
            i < SPECIES_COUNT,
        ensures
            r == species_at(i as int),
    {
        if i == 0 {
            BirdSpecies::MourningDove
        } else if i == 1 {
            BirdSpecies::DownyWoodpecker
        } else if i == 2 {
            BirdSpecies::NorthernFlicker
        } else if i == 3 {
            BirdSpecies::StellersJay
        } else if i == 4 {
            BirdSpecies::CaliforniaScrubJay
        } else if i == 5 {
            BirdSpecies::BlackCappedChickadee
        } else if i == 6 {
            BirdSpecies::WhiteBreastedNuthatch
        } else if i == 7 {
            BirdSpecies::WhiteCrownedSparrow
        } else if i == 8 {
            BirdSpecies::RedWingedBlackbird
        } else if i == 9 {
            BirdSpecies::CassinsFinch
        } else if i == 10 {
            BirdSpecies::HouseFinch
        } else if i == 11 {
            BirdSpecies::PineSiskin
        } else if i == 12 {
            BirdSpecies::AmericanGoldfinch
        } else {
            BirdSpecies::EveningGrosbeak
        }
    }

    /// Flight speed in thousandths of a unit per second.
    pub fn speed_milli(&self) -> (r: u64)
        ensures
            r == spec_speed_milli(*self),
            800 <= r <= 1500,
    {
        match self {
            BirdSpecies::MourningDove => 1500,
            BirdSpecies::DownyWoodpecker => 1000,
            BirdSpecies::NorthernFlicker => 1100,
            BirdSpecies::StellersJay => 1300,
            BirdSpecies::CaliforniaScrubJay => 1200,
            BirdSpecies::BlackCappedChickadee => 900,
            BirdSpecies::WhiteBreastedNuthatch => 800,
            BirdSpecies::WhiteCrownedSparrow => 1000,
            BirdSpecies::RedWingedBlackbird => 1400,
            BirdSpecies::CassinsFinch => 1100,
            BirdSpecies::HouseFinch => 1000,
            BirdSpecies::PineSiskin => 900,
            BirdSpecies::AmericanGoldfinch => 1000,
            BirdSpecies::EveningGrosbeak => 1200,
        }
    }

    /// Collision/visual radius in thousandths of a unit.
    pub fn radius_milli(&self) -> (r: u64)
        ensures
            r == spec_radius_milli(*self),
    {
        match self {
            BirdSpecies::MourningDove => 250,
            BirdSpecies::DownyWoodpecker => 180,
            BirdSpecies::NorthernFlicker => 220,
            BirdSpecies::StellersJay => 240,
            BirdSpecies::CaliforniaScrubJay => 220,
            BirdSpecies::BlackCappedChickadee => 150,
            BirdSpecies::WhiteBreastedNuthatch => 160,
            BirdSpecies::WhiteCrownedSparrow => 170,
            BirdSpecies::RedWingedBlackbird => 200,
            BirdSpecies::CassinsFinch => 160,
            BirdSpecies::HouseFinch => 160,
            BirdSpecies::PineSiskin => 140,
            BirdSpecies::AmericanGoldfinch => 140,
            BirdSpecies::EveningGrosbeak => 200,
        }
    }

    /// Display color as sRGB channels in thousandths (cosmetic only).
    pub fn color_milli(&self) -> (r: (u64, u64, u64))
        ensures
            r == spec_color_milli(*self),
    {
        match self {
            BirdSpecies::MourningDove => (600, 500, 400),
            BirdSpecies::DownyWoodpecker => (200, 200, 200),
            BirdSpecies::NorthernFlicker => (700, 500, 300),
            BirdSpecies::StellersJay => (100, 200, 600),
            BirdSpecies::CaliforniaScrubJay => (300, 400, 700),
            BirdSpecies::BlackCappedChickadee => (800, 800, 700),
            BirdSpecies::WhiteBreastedNuthatch => (500, 500, 600),
            BirdSpecies::WhiteCrownedSparrow => (600, 550, 450),
            BirdSpecies::RedWingedBlackbird => (100, 100, 100),
            BirdSpecies::CassinsFinch => (700, 300, 300),
            BirdSpecies::HouseFinch => (800, 300, 200),
            BirdSpecies::PineSiskin => (600, 600, 300),
            BirdSpecies::AmericanGoldfinch => (900, 800, 100),
            BirdSpecies::EveningGrosbeak => (700, 600, 100),
        }
    }

    /// The candidate audio cues of the species; never empty.
    pub fn cues(&self) -> (r: Vec<u32>)
        ensures
            r@ == spec_cues(*self),
            r@.len() >= 1,
    {
        match self {
            BirdSpecies::MourningDove => vec![0],
            BirdSpecies::DownyWoodpecker => vec![1, 2],
            BirdSpecies::NorthernFlicker => vec![3, 4, 5],
            BirdSpecies::StellersJay => vec![6, 7],
            BirdSpecies::CaliforniaScrubJay => vec![8],
            BirdSpecies::BlackCappedChickadee => vec![9, 10],
            BirdSpecies::WhiteBreastedNuthatch => vec![11, 12, 13],
            BirdSpecies::WhiteCrownedSparrow => vec![14, 15, 16],
            BirdSpecies::RedWingedBlackbird => vec![17, 18],
            BirdSpecies::CassinsFinch => vec![19, 20],
            BirdSpecies::HouseFinch => vec![21, 22],
            BirdSpecies::PineSiskin => vec![23],
            BirdSpecies::AmericanGoldfinch => vec![24],
            BirdSpecies::EveningGrosbeak => vec![25],
        }
    }
}

} // verus!
