//! A pizza kitchen where a waiter drives any builder through the same four
//! steps: dough, sauce, topping, bake.

use vstd::prelude::*;

verus! {

/// How far an order has come.
pub enum PizzaProgress {
    Queued,
    Preparation,
    Baking,
    Ready,
}

/// The kinds of dough.
pub enum PizzaDough {
    Thin,
    Thick,
}

/// The kinds of sauce.
pub enum PizzaSauce {
    Tomato,
    CremeFraiche,
}

/// The kinds of topping.
pub enum PizzaTopping {
    Mozzarella,
    DoubleMozzarella,
    Bacon,
    Ham,
    Mushrooms,
    RedOnion,
    Oregano,
}

/// The printable name of a dough.
pub open spec fn dough_label_spec(d: PizzaDough) -> Seq<char> {
    match d {
        PizzaDough::Thin => "Thin"@,
        PizzaDough::Thick => "Thick"@,
    }
}

impl PizzaDough {
    /// The printable name of the dough.
    pub fn label(&self) -> (r: String)
        ensures
            r@ == dough_label_spec(*self),
    {
        match self {
            PizzaDough::Thin => String::from_str("Thin"),
            PizzaDough::Thick => String::from_str("Thick"),
        }
    }
}

/// The printable name of a topping.
pub open spec fn topping_label_spec(t: PizzaTopping) -> Seq<char> {
    match t {
        PizzaTopping::Mozzarella => "Mozzarella"@,
        PizzaTopping::DoubleMozzarella => "Double Mozzarella"@,
        PizzaTopping::Bacon => "Bacon"@,
        PizzaTopping::Ham => "Ham"@,
        PizzaTopping::Mushrooms => "Mushrooms"@,
        PizzaTopping::RedOnion => "Red Onion"@,
        PizzaTopping::Oregano => "Oregano"@,
    }
}

impl PizzaTopping {
    /// The printable name of the topping.
    pub fn label(&self) -> (r: String)
        ensures
            r@ == topping_label_spec(*self),
    {
        match self {
            PizzaTopping::Mozzarella => String::from_str("Mozzarella"),
            PizzaTopping::DoubleMozzarella => String::from_str("Double Mozzarella"),
            PizzaTopping::Bacon => String::from_str("Bacon"),
            PizzaTopping::Ham => String::from_str("Ham"),
            PizzaTopping::Mushrooms => String::from_str("Mushrooms"),
            PizzaTopping::RedOnion => String::from_str("Red Onion"),
            PizzaTopping::Oregano => String::from_str("Oregano"),
        }
    }
}

/// A pizza under construction: its name and what has been put on it so far.
pub struct Pizza {
    name: String,
    dough: Option<PizzaDough>,
    sauce: Option<PizzaSauce>,
    topping: Vec<PizzaTopping>,
}

impl Pizza {
    /// The pizza's name.
    pub closed spec fn spec_name(&self) -> Seq<char> {
        self.name@
    }

    /// The dough chosen so far.
    pub closed spec fn spec_dough(&self) -> Option<PizzaDough> {
        self.dough
    }

    /// The sauce chosen so far.
    pub closed spec fn spec_sauce(&self) -> Option<PizzaSauce> {
        self.sauce
    }

    /// The toppings added so far, in order.
    pub closed spec fn spec_topping(&self) -> Seq<PizzaTopping> {
        self.topping@
    }

    /// A bare pizza with nothing chosen yet.
    pub fn new(name: String) -> (p: Pizza)
        ensures
            p.spec_name() == name@,
            p.spec_dough() is None,
            p.spec_sauce() is None,
            p.spec_topping() == Seq::<PizzaTopping>::empty(),
    {
        let p = Pizza { name, dough: None, sauce: None, topping: Vec::new() };
        proof {
            assert(p.spec_topping() =~= Seq::<PizzaTopping>::empty());
        }
        p
    }

    pub fn get_name(&self) -> (r: &String)
        ensures
            r@ == self.spec_name(),
    {
        &self.name
    }

    /// Chooses the dough; everything else stays as it was.
    pub fn prepare_dough(&mut self, dough: PizzaDough)
        ensures
            final(self).spec_dough() == Some(dough),
            final(self).spec_name() == old(self).spec_name(),
            final(self).spec_sauce() == old(self).spec_sauce(),
            final(self).spec_topping() == old(self).spec_topping(),
    {
        self.dough = Some(dough);
    }

    /// Chooses the sauce; everything else stays as it was.
    pub fn set_sauce(&mut self, sauce: PizzaSauce)
        ensures
            final(self).spec_sauce() == Some(sauce),
            final(self).spec_name() == old(self).spec_name(),
            final(self).spec_dough() == old(self).spec_dough(),
            final(self).spec_topping() == old(self).spec_topping(),
    {
        self.sauce = Some(sauce);
    }

    /// Adds one topping at the end; everything else stays as it was.
    pub fn add_topping(&mut self, topping: PizzaTopping)
        ensures
            final(self).spec_topping() == old(self).spec_topping().push(topping),
            final(self).spec_name() == old(self).spec_name(),
            final(self).spec_dough() == old(self).spec_dough(),
            final(self).spec_sauce() == old(self).spec_sauce(),
    {
        self.topping.push(topping);
    }
}

/// The four steps every pizza builder goes through, plus the name of what it
/// builds; no step changes that name.
pub trait Builder: Sized {
    /// The name of the pizza being built.
    spec fn pizza_name(&self) -> Seq<char>;

    fn prepare_dough(&mut self)
        ensures
            final(self).pizza_name() == old(self).pizza_name(),
    ;

    fn add_sauce(&mut self)
        ensures
            final(self).pizza_name() == old(self).pizza_name(),
    ;

    fn add_topping(&mut self)
        ensures
            final(self).pizza_name() == old(self).pizza_name(),
    ;

    fn bake(&mut self)
        ensures
            final(self).pizza_name() == old(self).pizza_name(),
    ;

    fn get_pizza_name(&self) -> (r: &String)
        ensures
            r@ == self.pizza_name(),
    ;
}

/// Builds a margarita: thin dough, tomato sauce, double mozzarella and
/// oregano.
pub struct MargaritaBuilder {
    pizza: Pizza,
    progress: PizzaProgress,
    baking_time: u64,
}

impl MargaritaBuilder {
    /// Where the order stands.
    pub closed spec fn spec_progress(&self) -> PizzaProgress {
        self.progress
    }

    /// The pizza as built so far.
    pub closed spec fn spec_pizza(&self) -> Pizza {
        self.pizza
    }

    /// A queued margarita order.
    pub fn new() -> (b: Self)
        ensures
            b.pizza_name() == "margarita"@,
            b.spec_progress() is Queued,
    {
        MargaritaBuilder {
            pizza: Pizza::new(String::from_str("margarita")),
            progress: PizzaProgress::Queued,
            baking_time: 5,
        }
    }
}

impl Builder for MargaritaBuilder {
    closed spec fn pizza_name(&self) -> Seq<char> {
        self.pizza.spec_name()
    }

    /// Thin dough, and the order moves to preparation.
    fn prepare_dough(&mut self) {
        self.progress = PizzaProgress::Preparation;
        self.pizza.prepare_dough(PizzaDough::Thin);
    }

    /// Tomato sauce.
    fn add_sauce(&mut self) {
        self.pizza.set_sauce(PizzaSauce::Tomato);
    }

    /// Double mozzarella, then oregano.
    fn add_topping(&mut self) {
        self.pizza.add_topping(PizzaTopping::DoubleMozzarella);
        self.pizza.add_topping(PizzaTopping::Oregano);
    }

    /// The order moves to baking.
    fn bake(&mut self) {
        self.progress = PizzaProgress::Baking;
    }

    fn get_pizza_name(&self) -> (r: &String) {
        self.pizza.get_name()
    }
}

/// Hands an order to a builder and runs the four steps in order.
pub struct Waiter<T: Builder> {
    builder: Option<Box<T>>,
}

impl<T: Builder> Waiter<T> {
    /// The builder the waiter holds, if any.
    pub closed spec fn spec_builder(&self) -> Option<Box<T>> {
        self.builder
    }

    /// A waiter without an order.
    pub fn new() -> (w: Self)
        ensures
            w.spec_builder() is None,
    {
        Waiter { builder: None }
    }

    /// Runs the builder through dough, sauce, topping and bake, and keeps it;
    /// the name of the pizza built is the name the builder came with.
    pub fn construct_pizza(&mut self, builder: Box<T>)
        ensures
            match final(self).spec_builder() {
                Some(b) => b.pizza_name() == builder.pizza_name(),
                None => false,
            },
    {
        let mut b = builder;
        b.prepare_dough();
        b.add_sauce();
        b.add_topping();
        b.bake();
        self.builder = Some(b);
    }

    /// The name of the pizza under construction, if an order was taken.
    pub fn get_pizza_name(&self) -> (r: Option<&String>)
        ensures
            match r {
                Some(s) => self.spec_builder() matches Some(b) && s@ == b.pizza_name(),
                None => self.spec_builder() is None,
            },
    {
        match self.builder.as_ref() {
            Some(b) => Some(b.get_pizza_name()),
            None => None,
        }
    }
}

/// The margarita builder for an order of `m`; nothing for any other order.
pub fn deploy_waiter(order: String) -> (r: Option<Box<MargaritaBuilder>>)
    ensures
        r is Some <==> order@ == "m"@,
        r matches Some(b) ==> b.pizza_name() == "margarita"@,
{
    if order == String::from_str("m") {
        Some(Box::new(MargaritaBuilder::new()))
    } else {
        None
    }
}

} // verus!
