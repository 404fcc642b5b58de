//! Performers with incompatible interfaces and the adaptor that gives them a
//! single one: clubs organize events, musicians play, dancers dance.

use vstd::prelude::*;

verus! {

/// A musician, known by name.
pub struct Musician {
    name: String,
}

impl Musician {
    /// The musician's name.
    pub closed spec fn spec_name(&self) -> Seq<char> {
        self.name@
    }

    pub fn new(name: String) -> (m: Musician)
        ensures
            m.spec_name() == name@,
    {
        Musician { name }
    }

    /// What a musician does at an event.
    pub fn play(&self) -> (r: String)
        ensures
            r@ == "plays music"@,
    {
        String::from_str("plays music")
    }

    /// How a musician is introduced.
    pub fn is_called(&self) -> (r: String)
        ensures
            r@ == "the musician "@ + self.spec_name(),
    {
        String::from_str("the musician ").concat(self.name.as_str())
    }
}

/// A dancer, known by name.
pub struct Dancer {
    name: String,
}

impl Dancer {
    /// The dancer's name.
    pub closed spec fn spec_name(&self) -> Seq<char> {
        self.name@
    }

    pub fn new(name: String) -> (d: Dancer)
        ensures
            d.spec_name() == name@,
    {
        Dancer { name }
    }

    /// What a dancer does at an event.
    pub fn dance(&self) -> (r: String)
        ensures
            r@ == "does a dance performance"@,
    {
        String::from_str("does a dance performance")
    }

    /// How a dancer is introduced.
    pub fn is_called(&self) -> (r: String)
        ensures
            r@ == "the dancer "@ + self.spec_name(),
    {
        String::from_str("the dancer ").concat(self.name.as_str())
    }
}

/// A club, known by name.
pub struct Club {
    name: String,
}

impl Club {
    /// The club's name.
    pub closed spec fn spec_name(&self) -> Seq<char> {
        self.name@
    }

    pub fn new(name: String) -> (c: Club)
        ensures
            c.spec_name() == name@,
    {
        Club { name }
    }

    /// What a club does for an event.
    pub fn organize_event(&self) -> (r: String)
        ensures
            r@ == "does a dance performance"@,
    {
        String::from_str("does a dance performance")
    }

    /// How a club is introduced.
    pub fn is_called(&self) -> (r: String)
        ensures
            r@ == "the club "@ + self.spec_name(),
    {
        String::from_str("the club ").concat(self.name.as_str())
    }
}

/// Anything that can appear at an event.
pub enum EventElement {
    Club(Club),
    Musician(Musician),
    Dancer(Dancer),
}

/// What each kind of performer answers when asked to organize an event.
pub open spec fn organize_spec(e: EventElement) -> Seq<char> {
    match e {
        EventElement::Club(_) => "does a dance performance"@,
        EventElement::Musician(_) => "plays music"@,
        EventElement::Dancer(_) => "does a dance performance"@,
    }
}

/// How each kind of performer is introduced.
pub open spec fn called_spec(e: EventElement) -> Seq<char> {
    match e {
        EventElement::Club(c) => "the club "@ + c.spec_name(),
        EventElement::Musician(m) => "the musician "@ + m.spec_name(),
        EventElement::Dancer(d) => "the dancer "@ + d.spec_name(),
    }
}

/// Gives every event element the same two methods, whatever it is.
pub struct Adaptor {
    obj: EventElement,
}

impl Adaptor {
    /// The wrapped element.
    pub closed spec fn spec_obj(&self) -> EventElement {
        self.obj
    }

    pub fn new(obj: EventElement) -> (a: Adaptor)
        ensures
            a.spec_obj() == obj,
    {
        Adaptor { obj }
    }

    /// What the wrapped element does at an event.
    pub fn organize_event(&self) -> (r: String)
        ensures
            r@ == organize_spec(self.spec_obj()),
    {
        match &self.obj {
            EventElement::Club(club) => club.organize_event(),
            EventElement::Musician(musician) => musician.play(),
            EventElement::Dancer(dancer) => dancer.dance(),
        }
    }

    /// How the wrapped element is introduced.
    pub fn is_called(&self) -> (r: String)
        ensures
            r@ == called_spec(self.spec_obj()),
    {
        match &self.obj {
            EventElement::Club(club) => club.is_called(),
            EventElement::Musician(musician) => musician.is_called(),
            EventElement::Dancer(dancer) => dancer.is_called(),
        }
    }
}

} // verus!
