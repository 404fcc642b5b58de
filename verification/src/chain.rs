//! A chain of widgets, each handling the events it knows and passing the
//! rest to its parent.

use vstd::prelude::*;

use std::rc::Rc;

verus! {

/// The events a widget can be sent.
#[derive(Debug, Copy, Clone)]
pub enum Event {
    Down,
    Paint,
    Unhandled,
    Close,
}

/// Returned when no widget along the chain handles an event.
#[derive(Debug)]
pub struct UnhandledEvent;

/// The printable name of an event.
pub open spec fn event_label_spec(e: Event) -> Seq<char> {
    match e {
        Event::Down => "Down"@,
        Event::Paint => "Paint"@,
        Event::Unhandled => "Unhandled"@,
        Event::Close => "Close"@,
    }
}

impl Event {
    /// The printable name of the event.
    pub fn label(&self) -> (r: String)
        ensures
            r@ == event_label_spec(*self),
    {
        match self {
            Event::Down => String::from_str("Down"),
            Event::Paint => String::from_str("Paint"),
            Event::Unhandled => String::from_str("Unhandled"),
            Event::Close => String::from_str("Close"),
        }
    }
}

/// A widget that answers events, either itself or through its chain.
pub trait Widget: Sized {
    /// The widget's answer to an event: the message, or nothing when the
    /// event falls through the whole chain unhandled.
    spec fn response(&self, event: Event) -> Option<Seq<char>>;

    /// The widget's answer when an event reaches its fallback.
    spec fn default_response(&self, event: Event) -> Option<Seq<char>>;

    fn handle(&self, event: Event) -> (r: Result<String, UnhandledEvent>)
        ensures
            match r {
                Ok(s) => self.response(event) == Some(s@),
                Err(_) => self.response(event) is None,
            },
    ;

    fn handle_default(&self, event: Event) -> (r: Result<String, UnhandledEvent>)
        ensures
            match r {
                Ok(s) => self.default_response(event) == Some(s@),
                Err(_) => self.default_response(event) is None,
            },
    ;
}

/// The window at the root of the chain; it has no parent, handles `Close`,
/// and answers everything else through its own fallback.
pub struct MainWindow {}

impl MainWindow {
    pub fn new() -> MainWindow {
        MainWindow {  }
    }
}

impl Widget for MainWindow {
    closed spec fn response(&self, event: Event) -> Option<Seq<char>> {
        match event {
            Event::Close => Some("MainWindow: "@ + event_label_spec(event)),
            _ => self.default_response(event),
        }
    }

    closed spec fn default_response(&self, event: Event) -> Option<Seq<char>> {
        Some("MainWindow Default: "@ + event_label_spec(event))
    }

    /// Handles `Close` itself and answers every other event through the
    /// fallback.
    fn handle(&self, event: Event) -> (r: Result<String, UnhandledEvent>) {
        match event {
            Event::Close => Ok(String::from_str("MainWindow: ").concat(event.label().as_str())),
            _ => self.handle_default(event),
        }
    }

    /// Answers any event with the default message.
    fn handle_default(&self, event: Event) -> (r: Result<String, UnhandledEvent>) {
        Ok(String::from_str("MainWindow Default: ").concat(event.label().as_str()))
    }
}

/// The dialog in the middle of the chain; it handles `Paint` and passes
/// everything else to its parent.
pub struct SendDialog<T: Widget> {
    parent: Option<Rc<T>>,
}

impl<T: Widget> SendDialog<T> {
    pub fn new(parent: Option<Rc<T>>) -> (w: Self)
        ensures
            w.spec_parent() == parent,
    {
        SendDialog { parent }
    }

    /// The parent the dialog forwards to.
    pub closed spec fn spec_parent(&self) -> Option<Rc<T>> {
        self.parent
    }
}

impl<T: Widget> Widget for SendDialog<T> {
    closed spec fn response(&self, event: Event) -> Option<Seq<char>> {
        match event {
            Event::Paint => Some("SendDialog: "@ + event_label_spec(event)),
            _ => match self.parent {
                Some(parent) => parent.response(event),
                None => None,
            },
        }
    }

    closed spec fn default_response(&self, event: Event) -> Option<Seq<char>> {
        None
    }

    /// Handles `Paint` itself and forwards every other event to the parent,
    /// if there is one.
    fn handle(&self, event: Event) -> (r: Result<String, UnhandledEvent>) {
        match event {
            Event::Paint => Ok(String::from_str("SendDialog: ").concat(event.label().as_str())),
            _ => match &self.parent {
                Some(parent) => parent.handle(event),
                None => Err(UnhandledEvent),
            },
        }
    }

    /// Answers no event.
    fn handle_default(&self, event: Event) -> (r: Result<String, UnhandledEvent>) {
        Err(UnhandledEvent)
    }
}

/// The text box at the end of the chain; it handles `Down` and passes
/// everything else to its parent.
pub struct MsgText<T: Widget> {
    parent: Option<Rc<T>>,
}

impl<T: Widget> MsgText<T> {
    pub fn new(parent: Option<Rc<T>>) -> (w: Self)
        ensures
            w.spec_parent() == parent,
    {
        MsgText { parent }
    }

    /// The parent the text box forwards to.
    pub closed spec fn spec_parent(&self) -> Option<Rc<T>> {
        self.parent
    }
}

impl<T: Widget> Widget for MsgText<T> {
    closed spec fn response(&self, event: Event) -> Option<Seq<char>> {
        match event {
            Event::Down => Some("MsgText: "@ + event_label_spec(event)),
            _ => match self.parent {
                Some(parent) => parent.response(event),
                None => None,
            },
        }
    }

    closed spec fn default_response(&self, event: Event) -> Option<Seq<char>> {
        None
    }

    /// Handles `Down` itself and forwards every other event to the parent,
    /// if there is one.
    fn handle(&self, event: Event) -> (r: Result<String, UnhandledEvent>) {
        match event {
            Event::Down => Ok(String::from_str("MsgText: ").concat(event.label().as_str())),
            _ => match &self.parent {
                Some(parent) => parent.handle(event),
                None => Err(UnhandledEvent),
            },
        }
    }

    /// Answers no event.
    fn handle_default(&self, event: Event) -> (r: Result<String, UnhandledEvent>) {
        Err(UnhandledEvent)
    }
}

} // verus!
