//! A pool of cars shared by type: at most one car exists per type, and
//! callers refer to a car by its index in the pool.

use vstd::prelude::*;

use crate::text::{dec_i32, dec_str_i32};

verus! {

/// The car types a pool can hold.
#[derive(Debug, PartialEq, Eq, Hash, Clone, Copy, Structural)]
pub enum CarType {
    SubCompact,
    Compact,
    Suv,
    Nothing,
}

/// The printable name of a car type.
pub open spec fn car_type_label_spec(t: CarType) -> Seq<char> {
    match t {
        CarType::SubCompact => "SubCompact"@,
        CarType::Compact => "Compact"@,
        CarType::Suv => "Suv"@,
        CarType::Nothing => "Nothing"@,
    }
}

impl CarType {
    /// The printable name of the car type.
    pub fn label(&self) -> (r: String)
        ensures
            r@ == car_type_label_spec(*self),
    {
        match self {
            CarType::SubCompact => String::from_str("SubCompact"),
            CarType::Compact => String::from_str("Compact"),
            CarType::Suv => String::from_str("Suv"),
            CarType::Nothing => String::from_str("Nothing"),
        }
    }
}

/// The pool: one entry per car type ever asked for, in creation order.
/// Asking again for a known type hands back the existing entry's index, so
/// every car of one type is the same pool entry.
pub struct CarPool {
    types: Vec<CarType>,
}

impl CarPool {
    /// The types in the pool, in creation order.
    pub closed spec fn spec_types(&self) -> Seq<CarType> {
        self.types@
    }

    /// No type occurs twice in the pool.
    pub open spec fn wf(&self) -> bool {
        self.spec_types().no_duplicates()
    }

    /// An empty pool.
    pub fn init() -> (p: CarPool)
        ensures
            p.spec_types() == Seq::<CarType>::empty(),
            p.wf(),
    {
        let p = CarPool { types: Vec::new() };
        proof {
            assert(p.spec_types() =~= Seq::<CarType>::empty());
        }
        p
    }

    /// The index of the car of this type; the car is created only when no
    /// car of the type exists yet, else the existing one is shared.
    pub fn new_car(&mut self, car_type: CarType) -> (idx: usize)
        requires
            old(self).wf(),
        ensures
            final(self).wf(),
            idx < final(self).spec_types().len(),
            final(self).spec_types()[idx as int] == car_type,
            old(self).spec_types().contains(car_type) ==> final(self).spec_types() == old(
                self,
            ).spec_types(),
            !old(self).spec_types().contains(car_type) ==> final(self).spec_types() == old(
                self,
            ).spec_types().push(car_type),
    {
        let n = self.types.len();
        let mut i: usize = 0;
        while i < n
            invariant
                i <= n,
                *self == *old(self),
                old(self).wf(),
                n == self.types@.len(),
                forall|m: int| 0 <= m < i ==> self.types@[m] != car_type,
            decreases n - i,
        {
            if self.types[i] == car_type {
                return i;
            }
            i = i + 1;
        }
        proof {
            assert(!old(self).spec_types().contains(car_type));
        }
        self.types.push(car_type);
        proof {
            assert(final(self).spec_types().no_duplicates());
        }
        n
    }

    /// How many cars were actually created.
    pub fn count(&self) -> (r: usize)
        ensures
            r == self.spec_types().len(),
    {
        self.types.len()
    }

    /// The type of the car at an index.
    pub fn car_type(&self, idx: usize) -> (r: CarType)
        requires
            idx < self.spec_types().len(),
        ensures
            r == self.spec_types()[idx as int],
    {
        self.types[idx]
    }
}

/// The render report for one car.
pub open spec fn render_msg(t: CarType, color: Seq<char>, x: int, y: int) -> Seq<char> {
    "render a car of type "@ + car_type_label_spec(t) + ", and color "@ + color + " at ("@
        + dec_i32(x) + ", "@ + dec_i32(y) + ")"@
}

/// Reports the rendering of one car of a type, color and position.
pub fn render(car_type: CarType, color: String, x: i32, y: i32) -> (r: String)
    ensures
        r@ == render_msg(car_type, color@, x as int, y as int),
{
    String::from_str("render a car of type ").concat(car_type.label().as_str()).concat(
        ", and color ",
    ).concat(color.as_str()).concat(" at (").concat(dec_str_i32(x).as_str()).concat(", ").concat(
        dec_str_i32(y).as_str(),
    ).concat(")")
}

/// The colors a car can be drawn in.
pub open spec fn color_list() -> Seq<Seq<char>> {
    seq![
        "white"@,
        "black"@,
        "silver"@,
        "gray"@,
        "red"@,
        "blue"@,
        "brown"@,
        "beige"@,
        "yellow"@,
        "green"@,
    ]
}

/// One of the ten known colors, picked uniformly at random.
pub fn color_generator() -> (r: String)
    ensures
        exists|i: int| 0 <= i < color_list().len() && r@ == color_list()[i],
{
    let idx = crate::banner::random_index(10);
    let r = if idx == 0 {
        String::from_str("white")
    } else if idx == 1 {
        String::from_str("black")
    } else if idx == 2 {
        String::from_str("silver")
    } else if idx == 3 {
        String::from_str("gray")
    } else if idx == 4 {
        String::from_str("red")
    } else if idx == 5 {
        String::from_str("blue")
    } else if idx == 6 {
        String::from_str("brown")
    } else if idx == 7 {
        String::from_str("beige")
    } else if idx == 8 {
        String::from_str("yellow")
    } else {
        String::from_str("green")
    };
    proof {
        if idx <= 8 {
            assert(r@ == color_list()[idx as int]);
        } else {
            assert(r@ == color_list()[9]);
        }
    }
    r
}

} // verus!
