//! A publisher that keeps a list of named observers, each formatting the
//! published value in its own way: the publisher composes the notification
//! messages; printing them is its caller's business.

use vstd::prelude::*;

use crate::text::{dec_i32, dec_str_i32, digits, to_base_str};

verus! {

/// Returned when an observer with the same name is already subscribed.
#[derive(Debug, Clone, Copy, PartialEq, Eq, Structural)]
pub struct AlreadyExist;

/// Returned when no observer of the given name is subscribed.
#[derive(Debug, Clone, Copy, PartialEq, Eq, Structural)]
pub struct NotExist;

/// A named observer that formats a published value into a message.
pub trait Observer: Sized {
    /// The observer's name.
    spec fn spec_name(&self) -> Seq<char>;

    /// The message the observer composes for a publisher's value.
    spec fn message(&self, publisher_name: Seq<char>, data: int) -> Seq<char>;

    fn get_name(&self) -> (r: String)
        ensures
            r@ == self.spec_name(),
    ;

    fn notify(&self, publisher_name: &String, data: &i32) -> (r: String)
        ensures
            r@ == self.message(publisher_name@, *data as int),
    ;
}

/// The observer that reports the value in hexadecimal.
pub struct HexFormatterObs {
    name: String,
}

impl HexFormatterObs {
    pub fn new() -> (o: HexFormatterObs)
        ensures
            o.spec_name() == "HexFormatterObs"@,
    {
        HexFormatterObs { name: String::from_str("HexFormatterObs") }
    }
}

impl Observer for HexFormatterObs {
    closed spec fn spec_name(&self) -> Seq<char> {
        self.name@
    }

    /// The value is written in hexadecimal, in two's complement when it is
    /// negative.
    closed spec fn message(&self, publisher_name: Seq<char>, data: int) -> Seq<char> {
        self.name@ + ": '"@ + publisher_name + "' has now hex data = 0x"@ + digits(
            (data as i32 as u32) as nat,
            16,
        )
    }

    fn get_name(&self) -> (r: String) {
        self.name.clone()
    }

    fn notify(&self, publisher_name: &String, data: &i32) -> (r: String) {
        self.name.clone().concat(": '").concat(publisher_name.as_str()).concat(
            "' has now hex data = 0x",
        ).concat(to_base_str(*data as u32, 16).as_str())
    }
}

/// The observer that reports the value in binary.
pub struct BinaryFormatterObs {
    name: String,
}

impl BinaryFormatterObs {
    pub fn new() -> (o: BinaryFormatterObs)
        ensures
            o.spec_name() == "BinaryFormatterObs"@,
    {
        BinaryFormatterObs { name: String::from_str("BinaryFormatterObs") }
    }
}

impl Observer for BinaryFormatterObs {
    closed spec fn spec_name(&self) -> Seq<char> {
        self.name@
    }

    /// The value is written in binary, in two's complement when it is
    /// negative.
    closed spec fn message(&self, publisher_name: Seq<char>, data: int) -> Seq<char> {
        self.name@ + ": '"@ + publisher_name + "' has now bin data = 0b"@ + digits(
            (data as i32 as u32) as nat,
            2,
        )
    }

    fn get_name(&self) -> (r: String) {
        self.name.clone()
    }

    fn notify(&self, publisher_name: &String, data: &i32) -> (r: String) {
        self.name.clone().concat(": '").concat(publisher_name.as_str()).concat(
            "' has now bin data = 0b",
        ).concat(to_base_str(*data as u32, 2).as_str())
    }
}

/// Any of the observers a publisher can hold.
pub enum ObserverKind {
    Hex(HexFormatterObs),
    Binary(BinaryFormatterObs),
}

impl ObserverKind {
    /// The observer's name.
    pub open spec fn spec_name(&self) -> Seq<char> {
        match self {
            ObserverKind::Hex(o) => o.spec_name(),
            ObserverKind::Binary(o) => o.spec_name(),
        }
    }

    /// The message the observer composes for a publisher's value.
    pub open spec fn message(&self, publisher_name: Seq<char>, data: int) -> Seq<char> {
        match self {
            ObserverKind::Hex(o) => o.message(publisher_name, data),
            ObserverKind::Binary(o) => o.message(publisher_name, data),
        }
    }

    /// The observer's name.
    pub fn get_name(&self) -> (r: String)
        ensures
            r@ == self.spec_name(),
    {
        match self {
            ObserverKind::Hex(o) => o.get_name(),
            ObserverKind::Binary(o) => o.get_name(),
        }
    }

    /// The observer's message for a publisher's value.
    pub fn notify(&self, publisher_name: &String, data: &i32) -> (r: String)
        ensures
            r@ == self.message(publisher_name@, *data as int),
    {
        match self {
            ObserverKind::Hex(o) => o.notify(publisher_name, data),
            ObserverKind::Binary(o) => o.notify(publisher_name, data),
        }
    }
}

/// A named publisher that holds a value and a list of observers whose names
/// are unique.
pub trait Publisher: Sized {
    /// The subscribed observers, in subscription order.
    spec fn spec_observers(&self) -> Seq<ObserverKind>;

    /// The publisher's name.
    spec fn spec_name(&self) -> Seq<char>;

    /// The published value.
    spec fn spec_data(&self) -> int;

    /// Subscribes an observer; fails, changing nothing, when one of the same
    /// name is already subscribed.
    fn add(&mut self, observer: ObserverKind) -> (r: Result<(), AlreadyExist>)
        ensures
            r is Ok <==> (forall|i: int|
                0 <= i < old(self).spec_observers().len() ==> (#[trigger] old(
                    self,
                ).spec_observers()[i]).spec_name() != observer.spec_name()),
            r is Ok ==> final(self).spec_observers() == old(self).spec_observers().push(observer),
            r is Err ==> final(self).spec_observers() == old(self).spec_observers(),
            final(self).spec_name() == old(self).spec_name(),
            final(self).spec_data() == old(self).spec_data(),
    ;

    /// Unsubscribes the first observer of the given name; fails, changing
    /// nothing, when none has that name.
    fn remove(&mut self, observer_name: String) -> (r: Result<(), NotExist>)
        ensures
            r is Err <==> (forall|i: int|
                0 <= i < old(self).spec_observers().len() ==> (#[trigger] old(
                    self,
                ).spec_observers()[i]).spec_name() != observer_name@),
            r is Ok ==> exists|i: int|
                {
                    &&& 0 <= i < old(self).spec_observers().len()
                    &&& (#[trigger] old(self).spec_observers()[i]).spec_name() == observer_name@
                    &&& (forall|m: int|
                        0 <= m < i ==> (#[trigger] old(self).spec_observers()[m]).spec_name()
                            != observer_name@)
                    &&& final(self).spec_observers() == old(self).spec_observers().remove(i)
                },
            r is Err ==> final(self).spec_observers() == old(self).spec_observers(),
            final(self).spec_name() == old(self).spec_name(),
            final(self).spec_data() == old(self).spec_data(),
    ;

    /// The messages of all observers for the current value, in subscription
    /// order.
    fn notify(&self) -> (msgs: Vec<String>)
        ensures
            msgs@.len() == self.spec_observers().len(),
            forall|i: int|
                0 <= i < msgs@.len() ==> (#[trigger] msgs@[i])@ == self.spec_observers()[i].message(
                    self.spec_name(),
                    self.spec_data(),
                ),
    ;

    /// Describes the publisher and its value.
    fn get_info(&self) -> (r: String)
        ensures
            r@ == "DefaultFormatter: '"@ + self.spec_name() + "' has data = "@ + dec_i32(
                self.spec_data(),
            ),
    ;

    /// The published value.
    fn get_data(&self) -> (r: i32)
        ensures
            r as int == self.spec_data(),
    ;

    /// Publishes a new value and returns the observers' messages for it.
    fn set_data(&mut self, new_data: i32) -> (msgs: Vec<String>)
        ensures
            final(self).spec_data() == new_data as int,
            final(self).spec_observers() == old(self).spec_observers(),
            final(self).spec_name() == old(self).spec_name(),
            msgs@.len() == final(self).spec_observers().len(),
            forall|i: int|
                0 <= i < msgs@.len() ==> (#[trigger] msgs@[i])@
                    == final(self).spec_observers()[i].message(
                    final(self).spec_name(),
                    final(self).spec_data(),
                ),
    ;
}

/// The publisher that formats its value through its observers.
pub struct DefaultFormatter {
    observers: Vec<ObserverKind>,
    name: String,
    data: i32,
}

impl DefaultFormatter {
    /// A publisher with the given name, no observers, and data `0`.
    pub fn new(name: String) -> (p: DefaultFormatter)
        ensures
            p.spec_observers() == Seq::<ObserverKind>::empty(),
            p.spec_name() == name@,
            p.spec_data() == 0,
    {
        let p = DefaultFormatter { observers: Vec::new(), name, data: 0 };
        proof {
            assert(p.spec_observers() =~= Seq::<ObserverKind>::empty());
        }
        p
    }
}

impl Publisher for DefaultFormatter {
    closed spec fn spec_observers(&self) -> Seq<ObserverKind> {
        self.observers@
    }

    closed spec fn spec_name(&self) -> Seq<char> {
        self.name@
    }

    closed spec fn spec_data(&self) -> int {
        self.data as int
    }

    fn add(&mut self, observer: ObserverKind) -> (r: Result<(), AlreadyExist>) {
        let new_name = observer.get_name();
        let n = self.observers.len();
        let mut i: usize = 0;
        while i < n
            invariant
                i <= n,
                *self == *old(self),
                n == self.observers@.len(),
                forall|m: int|
                    0 <= m < i ==> (#[trigger] self.observers@[m]).spec_name() != new_name@,
                new_name@ == observer.spec_name(),
            decreases n - i,
        {
            if self.observers[i].get_name() == new_name {
                proof {
                    assert(old(self).spec_observers()[i as int].spec_name()
                        == observer.spec_name());
                }
                return Err(AlreadyExist);
            }
            i = i + 1;
        }
        self.observers.push(observer);
        Ok(())
    }

    fn remove(&mut self, observer_name: String) -> (r: Result<(), NotExist>) {
        let n = self.observers.len();
        let mut i: usize = 0;
        while i < n
            invariant
                i <= n,
                *self == *old(self),
                n == self.observers@.len(),
                forall|m: int|
                    0 <= m < i ==> (#[trigger] self.observers@[m]).spec_name() != observer_name@,
            decreases n - i,
        {
            if self.observers[i].get_name() == observer_name {
                let ghost ii = i as int;
                self.observers.remove(i);
                proof {
                    assert(old(self).spec_observers()[ii].spec_name() == observer_name@);
                    assert((forall|m: int|
                        0 <= m < ii ==> (#[trigger] old(self).spec_observers()[m]).spec_name()
                            != observer_name@) && final(self).spec_observers() == old(
                        self,
                    ).spec_observers().remove(ii));
                }
                return Ok(());
            }
            i = i + 1;
        }
        Err(NotExist)
    }

    fn notify(&self) -> (msgs: Vec<String>) {
        let mut msgs: Vec<String> = Vec::new();
        let n = self.observers.len();
        let mut i: usize = 0;
        while i < n
            invariant
                i <= n,
                n == self.observers@.len(),
                msgs@.len() == i,
                forall|m: int|
                    0 <= m < i ==> (#[trigger] msgs@[m])@ == self.observers@[m].message(
                        self.name@,
                        self.data as int,
                    ),
            decreases n - i,
        {
            msgs.push(self.observers[i].notify(&self.name, &self.data));
            i = i + 1;
        }
        msgs
    }

    fn get_info(&self) -> (r: String) {
        String::from_str("DefaultFormatter: '").concat(self.name.as_str()).concat(
            "' has data = ",
        ).concat(dec_str_i32(self.data).as_str())
    }

    fn get_data(&self) -> (r: i32) {
        self.data
    }

    fn set_data(&mut self, new_data: i32) -> (msgs: Vec<String>) {
        self.data = new_data;
        self.notify()
    }
}

} // verus!
