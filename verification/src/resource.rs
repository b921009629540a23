//! Tile resources and vegetation, with the yields each contributes.

use vstd::prelude::*;
use crate::yields::{YieldValue, Yields};

verus! {

/// Vegetation that can cover a tile.
#[derive(Clone, Copy, Debug, PartialEq, Eq, Structural)]
pub enum Vegetation {
    Forest,
    Jungle,
}

impl Vegetation {
    pub open spec fn spec_yields(self) -> Yields {
        match self {
            Vegetation::Forest => Yields {
                food: YieldValue(0),
                production: YieldValue(10),
                science: YieldValue(0),
            },
            Vegetation::Jungle => Yields {
                food: YieldValue(0),
                production: YieldValue(0),
                science: YieldValue(0),
            },
        }
    }

    pub fn yields(self) -> (r: Yields)
        ensures
            r == self.spec_yields(),
            r.wf(),
    {
        match self {
            Vegetation::Forest => Yields {
                food: YieldValue(0),
                production: YieldValue(10),
                science: YieldValue(0),
            },
            Vegetation::Jungle => Yields {
                food: YieldValue(0),
                production: YieldValue(0),
                science: YieldValue(0),
            },
        }
    }
}

/// A resource a tile can carry; harvesting one raises its yield.
#[derive(Clone, Copy, Debug, PartialEq, Eq, Structural)]
pub enum ResourceType {
    Sheep,
    Horses,
    Gold,
    Iron,
    Silver,
    Niter,
    Coal,
    Wheat,
}

impl ResourceType {
    pub open spec fn spec_yields(self, harvested: bool) -> Yields {
        let zero = Yields { food: YieldValue(0), production: YieldValue(0), science: YieldValue(0) };
        if !harvested {
            match self {
                ResourceType::Horses => Yields { production: YieldValue(20), ..zero },
                ResourceType::Wheat => Yields { food: YieldValue(10), ..zero },
                _ => Yields { production: YieldValue(10), ..zero },
            }
        } else {
            match self {
                ResourceType::Horses => Yields { production: YieldValue(30), ..zero },
                ResourceType::Wheat => Yields { food: YieldValue(20), ..zero },
                _ => Yields { production: YieldValue(20), ..zero },
            }
        }
    }

    pub fn yields(self, harvested: bool) -> (r: Yields)
        ensures
            r == self.spec_yields(harvested),
            r.wf(),
    {
        let zero = Yields { food: YieldValue(0), production: YieldValue(0), science: YieldValue(0) };
        if !harvested {
            match self {
                ResourceType::Horses => Yields { production: YieldValue(20), ..zero },
                ResourceType::Wheat => Yields { food: YieldValue(10), ..zero },
                _ => Yields { production: YieldValue(10), ..zero },
            }
        } else {
            match self {
                ResourceType::Horses => Yields { production: YieldValue(30), ..zero },
                ResourceType::Wheat => Yields { food: YieldValue(20), ..zero },
                _ => Yields { production: YieldValue(20), ..zero },
            }
        }
    }
}

} // verus!
