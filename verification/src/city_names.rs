//! Names handed to newly founded cities, cycling through a fixed roster.

use vstd::prelude::*;

verus! {

/// How many names the roster holds before it cycles.
pub const CITY_NAME_COUNT: u64 = 22;

/// The roster entry at the given index.
pub open spec fn spec_city_name(i: int) -> Seq<char> {
    if i == 0 {
        "Auckland"@
    } else if i == 1 {
        "Wellington"@
    } else if i == 2 {
        "Christchurch"@
    } else if i == 3 {
        "Palmerston North"@
    } else if i == 4 {
        "Taupo"@
    } else if i == 5 {
        "Tauranga"@
    } else if i == 6 {
        "Dunedin"@
    } else if i == 7 {
        "Gisborne"@
    } else if i == 8 {
        "New Plymouth"@
    } else if i == 9 {
        "Whangarei"@
    } else if i == 10 {
        "Invercargill"@
    } else if i == 11 {
        "Queenstown"@
    } else if i == 12 {
        "Nelson"@
    } else if i == 13 {
        "Napier"@
    } else if i == 14 {
        "Queenstown"@
    } else if i == 15 {
        "Porirua"@
    } else if i == 16 {
        "Rotorua"@
    } else if i == 17 {
        "Hastings"@
    } else if i == 18 {
        "Upper Hutt"@
    } else if i == 19 {
        "Lower Hutt"@
    } else if i == 20 {
        "Whanganui"@
    } else {
        "Levin"@
    }
}

/// Hands out city names in roster order, cycling when it runs out.
pub struct CityNameGenerator {
    pub next_name_id: u64,
}

impl CityNameGenerator {
    pub fn new() -> (r: Self)
        ensures
            r.next_name_id == 0,
    {
        CityNameGenerator { next_name_id: 0 }
    }

    pub fn next(&mut self) -> (r: String)
        ensures
            r@ == spec_city_name(old(self).next_name_id as int % CITY_NAME_COUNT as int),
            final(self).next_name_id == if old(self).next_name_id < u64::MAX {
                old(self).next_name_id + 1
            } else {
                old(self).next_name_id as int
            },
    {
        let i = self.next_name_id % CITY_NAME_COUNT;
        if self.next_name_id < u64::MAX {
            self.next_name_id = self.next_name_id + 1;
        }
        let name: &str =
        if i == 0 {
            "Auckland"
        } else if i == 1 {
            "Wellington"
        } else if i == 2 {
            "Christchurch"
        } else if i == 3 {
            "Palmerston North"
        } else if i == 4 {
            "Taupo"
        } else if i == 5 {
            "Tauranga"
        } else if i == 6 {
            "Dunedin"
        } else if i == 7 {
            "Gisborne"
        } else if i == 8 {
            "New Plymouth"
        } else if i == 9 {
            "Whangarei"
        } else if i == 10 {
            "Invercargill"
        } else if i == 11 {
            "Queenstown"
        } else if i == 12 {
            "Nelson"
        } else if i == 13 {
            "Napier"
        } else if i == 14 {
            "Queenstown"
        } else if i == 15 {
            "Porirua"
        } else if i == 16 {
            "Rotorua"
        } else if i == 17 {
            "Hastings"
        } else if i == 18 {
            "Upper Hutt"
        } else if i == 19 {
            "Lower Hutt"
        } else if i == 20 {
            "Whanganui"
        } else {
            "Levin"
        };
        name.to_owned()
    }
}

} // verus!
