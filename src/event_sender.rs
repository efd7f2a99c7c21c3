use vstd::prelude::*;
use std::sync::mpsc::{SendError, Sender};

verus! {

/// Makes `std::sync::mpsc::Sender` known to the verifier as an opaque handle.
#[verifier::external_type_specification]
#[verifier::external_body]
#[verifier::reject_recursive_types(T)]
pub struct ExSender<T>(Sender<T>);

/// Makes `std::sync::mpsc::SendError` known to the verifier, with its one
/// public field: the value that could not be sent.
#[verifier::external_type_specification]
#[verifier::reject_recursive_types(T)]
pub struct ExSendError<T>(SendError<T>);

/// Relies on `std::sync::mpsc::Sender::send`: it fails only when the receiver
/// is gone, and the error then hands back the value that was to be sent.
pub assume_specification<T>[ Sender::<T>::send ](sender: &Sender<T>, t: T) -> (r: Result<(), SendError<T>>)
    ensures
        r matches Err(e) ==> e.0 == t,
;

/// Relies on `Clone` for `std::sync::mpsc::Sender`: another handle to the
/// same channel. Nothing is promised of it beyond its type.
pub assume_specification<T>[ <Sender<T> as Clone>::clone ](sender: &Sender<T>) -> (r: Sender<T>);

/// Errors that `EventSender::send` returns.
#[derive(Debug)]
#[verifier::reject_recursive_types(Category)]
#[verifier::reject_recursive_types(EventSubset)]
pub enum EventSenderError<Category, EventSubset> {
    /// The event could not be sent; it is handed back.
    EventSubset(SendError<EventSubset>),
    /// The event was sent but its category could not be.
    Category(SendError<Category>),
}

/// Sends events of one subset, each followed by the category that names the
/// subset, so that a single observer thread can wait on the category channel
/// and then read the one event channel that it points to. Whoever holds an
/// `EventSender` can only fire events of its own subset.
#[derive(Debug)]
#[verifier::reject_recursive_types(Category)]
#[verifier::reject_recursive_types(EventSubset)]
pub struct EventSender<Category, EventSubset> {
    event_tx: Sender<EventSubset>,
    event_category: Category,
    event_category_tx: Sender<Category>,
}

impl<Category: Clone, EventSubset> EventSender<Category, EventSubset> {
    /// The category that every event of this sender is announced with.
    pub closed spec fn category(&self) -> Category {
        self.event_category
    }

    /// A sender of events on `event_tx`, announced as `event_category` on
    /// `event_category_tx`.
    pub fn new(
        event_tx: Sender<EventSubset>,
        event_category: Category,
        event_category_tx: Sender<Category>,
    ) -> (r: EventSender<Category, EventSubset>)
        ensures
            r.category() == event_category,
    {
        EventSender { event_tx, event_category, event_category_tx }
    }

    /// Fires `event` to the observer: first the event on its own channel,
    /// then the category on the shared one. The category is sent only once
    /// the event was; if the event could not be sent, it comes back in the
    /// error.
    pub fn send(&self, event: EventSubset) -> (r: Result<(), EventSenderError<Category, EventSubset>>)
        ensures
            r matches Err(EventSenderError::EventSubset(e)) ==> e.0 == event,
    {
        if let Err(error) = self.event_tx.send(event) {
            return Err(EventSenderError::EventSubset(error));
        }
        if let Err(error) = self.event_category_tx.send(self.event_category.clone()) {
            return Err(EventSenderError::Category(error));
        }
        Ok(())
    }
}

impl<Category: Clone, EventSubset> Clone for EventSender<Category, EventSubset> {
    /// Another sender for the same channels and category. `EventSubset` need
    /// not be `Clone`: only the channel handles are copied.
    fn clone(&self) -> (r: Self) {
        EventSender {
            event_tx: self.event_tx.clone(),
            event_category: self.event_category.clone(),
            event_category_tx: self.event_category_tx.clone(),
        }
    }
}

/// Category of events for an observer that listens to both Crust and Routing.
#[derive(Clone, Copy, Debug, PartialEq, Eq, Structural)]
pub enum MaidSafeEventCategory {
    /// A Crust event has been fired.
    Crust,
    /// A Routing event has been fired.
    Routing,
}

/// The observer that Crust, and users of Routing, register.
pub type MaidSafeObserver<EventSubset> = EventSender<MaidSafeEventCategory, EventSubset>;

} // verus!
