//! Watches on the daemon's configuration file and I/O trace directory.

use vstd::prelude::*;
use std::collections::VecDeque;
use crate::events::{EventType, InternalEvent, event_types, queue_internal_event};

verus! {

/// `inotify::Inotify`: an open inotify instance.
#[verifier::external_type_specification]
#[verifier::external_body]
pub struct ExInotify(inotify::Inotify);

/// The event mask of an inotify event, held as its bits so that it can be
/// serialized.
#[derive(Debug, Clone, Copy, PartialEq, Eq, Structural)]
pub struct EventMaskWrapper {
    pub event_mask: u32,
}

impl EventMaskWrapper {
    /// Wrap the bits of an event mask.
    pub fn new(event_mask: u32) -> (w: EventMaskWrapper)
        ensures
            w.event_mask == event_mask,
    {
        EventMaskWrapper { event_mask }
    }
}

/// The internal events that a batch of inotify events (mask bits and the
/// name of the changed file, if the event has one) turns into: one
/// `InotifyEvent` per event with a name, in order; nameless events are
/// skipped.
pub open spec fn inotify_event_types(events: Seq<(u32, Option<String>)>) -> Seq<EventType>
    decreases events.len(),
{
    if events.len() == 0 {
        Seq::empty()
    } else {
        let rest = inotify_event_types(events.drop_last());
        match events.last().1 {
            Some(path) => rest.push(EventType::InotifyEvent(EventMaskWrapper { event_mask: events.last().0 }, path)),
            None => rest,
        }
    }
}

/// The inotify subsystem of the daemon: an inotify instance once the
/// default watches are set up.
pub struct InotifyWatches {
    pub inotify: Option<inotify::Inotify>,
}

impl InotifyWatches {
    /// No watches yet.
    pub fn new() -> (w: InotifyWatches)
        ensures
            w.inotify is None,
    {
        InotifyWatches { inotify: None }
    }

    /// Queue the internal events for a batch of inotify events read from
    /// the instance. Without an instance there is nothing to queue.
    pub fn main_loop_hook(&self, events: &Vec<(u32, Option<String>)>, queue: &mut VecDeque<InternalEvent>)
        ensures
            final(queue)@.subrange(0, old(queue)@.len() as int) == old(queue)@,
            event_types(final(queue)@.subrange(old(queue)@.len() as int, final(queue)@.len() as int)) == (if self.inotify is Some {
                inotify_event_types(events@)
            } else {
                Seq::empty()
            }),
    {
        let ghost start = queue@;
        if self.inotify.is_none() {
            assert(queue@.subrange(start.len() as int, queue@.len() as int) =~= Seq::<InternalEvent>::empty());
            assert(queue@.subrange(0, start.len() as int) =~= start);
            return;
        }
        let mut i: usize = 0;
        proof {
            assert(queue@.subrange(start.len() as int, queue@.len() as int) =~= Seq::<InternalEvent>::empty());
            assert(events@.subrange(0, 0) =~= Seq::<(u32, Option<String>)>::empty());
            assert(queue@.subrange(0, start.len() as int) =~= start);
        }
        while i < events.len()
            invariant
                i <= events@.len(),
                queue@.len() >= start.len(),
                queue@.subrange(0, start.len() as int) == start,
                event_types(queue@.subrange(start.len() as int, queue@.len() as int)) == inotify_event_types(events@.subrange(0, i as int)),
            decreases events@.len() - i,
        {
            let ghost before = queue@;
            proof {
                assert(events@.subrange(0, i + 1).drop_last() =~= events@.subrange(0, i as int));
                assert(events@.subrange(0, i + 1).last() == events@[i as int]);
            }
            match &events[i].1 {
                Some(path) => {
                    let mask = EventMaskWrapper::new(events[i].0);
                    queue_internal_event(EventType::InotifyEvent(mask, path.clone()), queue);
                    proof {
                        assert(queue@.subrange(0, start.len() as int) =~= before.subrange(0, start.len() as int));
                        assert(queue@.subrange(start.len() as int, queue@.len() as int) =~= before.subrange(start.len() as int, before.len() as int).push(queue@.last()));
                        assert(event_types(queue@.subrange(start.len() as int, queue@.len() as int)) =~= event_types(before.subrange(start.len() as int, before.len() as int)).push(queue@.last().event_type));
                    }
                },
                None => {},
            }
            i = i + 1;
        }
        proof {
            assert(events@.subrange(0, events@.len() as int) =~= events@);
        }
    }
}

} // verus!
