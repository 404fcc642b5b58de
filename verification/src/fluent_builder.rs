//! A pizza assembled step by step through a fluent builder that records
//! which extras were asked for.

use vstd::prelude::*;

verus! {

/// A finished pizza: whether it has garlic and whether it has extra cheese.
pub struct Pizza {
    garlic: bool,
    extra_cheese: bool,
}

/// The wording of a pizza description: each extra on its own line, marked
/// `yes` or `no`.
pub open spec fn info_spec(garlic: bool, extra_cheese: bool) -> Seq<char> {
    "Garlic: "@ + (if garlic {
        "yes"@
    } else {
        "no"@
    }) + "\nExtra cheese: "@ + (if extra_cheese {
        "yes"@
    } else {
        "no"@
    })
}

impl Pizza {
    /// Whether the pizza has garlic.
    pub closed spec fn spec_garlic(&self) -> bool {
        self.garlic
    }

    /// Whether the pizza has extra cheese.
    pub closed spec fn spec_extra_cheese(&self) -> bool {
        self.extra_cheese
    }

    /// A pizza with exactly the extras the builder collected.
    pub fn new(builder: PizzaBuilder) -> (p: Pizza)
        ensures
            p.spec_garlic() == builder.spec_garlic(),
            p.spec_extra_cheese() == builder.spec_extra_cheese(),
    {
        Pizza { garlic: builder.garlic, extra_cheese: builder.extra_cheese }
    }

    /// Describes the pizza, one line per extra.
    pub fn get_info(&self) -> (r: String)
        ensures
            r@ == info_spec(self.spec_garlic(), self.spec_extra_cheese()),
    {
        let garlic = if self.garlic {
            "yes"
        } else {
            "no"
        };
        let cheese = if self.extra_cheese {
            "yes"
        } else {
            "no"
        };
        let info = String::from_str("Garlic: ").concat(garlic).concat("\nExtra cheese: ").concat(
            cheese,
        );
        info
    }
}

/// Collects the extras of a pizza before it is built.
pub struct PizzaBuilder {
    garlic: bool,
    extra_cheese: bool,
}

impl PizzaBuilder {
    /// Whether garlic was asked for.
    pub closed spec fn spec_garlic(&self) -> bool {
        self.garlic
    }

    /// Whether extra cheese was asked for.
    pub closed spec fn spec_extra_cheese(&self) -> bool {
        self.extra_cheese
    }

    /// A builder with no extras yet.
    pub fn new() -> (b: PizzaBuilder)
        ensures
            !b.spec_garlic(),
            !b.spec_extra_cheese(),
    {
        PizzaBuilder { garlic: false, extra_cheese: false }
    }

    /// Asks for garlic.
    pub fn add_garlic(self) -> (b: Self)
        ensures
            b.spec_garlic(),
            b.spec_extra_cheese() == self.spec_extra_cheese(),
    {
        let mut b = self;
        b.garlic = true;
        b
    }

    /// Asks for extra cheese.
    pub fn add_extra_cheese(self) -> (b: Self)
        ensures
            b.spec_extra_cheese(),
            b.spec_garlic() == self.spec_garlic(),
    {
        let mut b = self;
        b.extra_cheese = true;
        b
    }

    /// Builds the pizza with the collected extras.
    pub fn build(self) -> (p: Pizza)
        ensures
            p.spec_garlic() == self.spec_garlic(),
            p.spec_extra_cheese() == self.spec_extra_cheese(),
    {
        Pizza::new(self)
    }
}

} // verus!
