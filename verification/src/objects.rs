//! The kernel objects that capabilities name: endpoints and notifications, each found by the
//! index that a capability carries.

use vstd::prelude::*;
use crate::cap_table::Capability;
use crate::endpoint::{recv_post, send_post, Endpoint};
use crate::notification::{signal_post, wait_post, Notification};
use crate::sched::{Action, Scheduler};

verus! {

/// The endpoint that `cap` names among `n` endpoints, if it names one that exists.
pub open spec fn endpoint_index(cap: Capability, n: nat) -> Option<int> {
    match cap {
        Capability::Endpoint(i) => if (i as usize) < n { Some(i as usize as int) } else { None },
        Capability::Notification(_) => None,
    }
}

/// The notification that `cap` names among `n` notifications, if it names one that exists.
pub open spec fn notification_index(cap: Capability, n: nat) -> Option<int> {
    match cap {
        Capability::Notification(i) => if (i as usize) < n { Some(i as usize as int) } else { None },
        Capability::Endpoint(_) => None,
    }
}

/// Every endpoint and notification of the kernel; a capability's index selects one of them.
pub struct KernelObjects {
    endpoints: Vec<Endpoint>,
    notifications: Vec<Notification>,
}

impl KernelObjects {
    pub closed spec fn endpoints(&self) -> Seq<Endpoint> {
        self.endpoints@
    }

    pub closed spec fn notifications(&self) -> Seq<Notification> {
        self.notifications@
    }

    /// No objects yet.
    pub fn new() -> (r: Self)
        ensures
            r.endpoints() == Seq::<Endpoint>::empty(),
            r.notifications() == Seq::<Notification>::empty(),
    {
        KernelObjects { endpoints: Vec::new(), notifications: Vec::new() }
    }

    /// Adds `endpoint` and returns the capability that names it.
    pub fn add_endpoint(&mut self, endpoint: Endpoint) -> (r: Capability)
        ensures
            r == Capability::Endpoint(old(self).endpoints().len() as u64),
            endpoint_index(r, final(self).endpoints().len()) == Some(old(self).endpoints().len() as int),
            final(self).endpoints() == old(self).endpoints().push(endpoint),
            final(self).notifications() == old(self).notifications(),
    {
        let idx = self.endpoints.len();
        self.endpoints.push(endpoint);
        Capability::Endpoint(idx as u64)
    }

    /// Adds `notification` and returns the capability that names it.
    pub fn add_notification(&mut self, notification: Notification) -> (r: Capability)
        ensures
            r == Capability::Notification(old(self).notifications().len() as u64),
            notification_index(r, final(self).notifications().len()) == Some(old(self).notifications().len() as int),
            final(self).notifications() == old(self).notifications().push(notification),
            final(self).endpoints() == old(self).endpoints(),
    {
        let idx = self.notifications.len();
        self.notifications.push(notification);
        Capability::Notification(idx as u64)
    }

    /// The running thread sends on the endpoint that `cap` names; `None`, with nothing
    /// changed, when `cap` names no endpoint.
    pub fn send(&mut self, cap: Capability, sched: &mut Scheduler) -> (r: Option<Action>)
        requires
            old(sched).wf(),
            old(sched).running() is Some,
        ensures
            final(sched).wf(),
            final(self).notifications() == old(self).notifications(),
            match endpoint_index(cap, old(self).endpoints().len()) {
                Some(i) => {
                    &&& final(self).endpoints() == old(self).endpoints().update(i, final(self).endpoints()[i])
                    &&& r matches Some(a) && send_post(old(self).endpoints()[i], final(self).endpoints()[i], *old(sched), *final(sched), a)
                },
                None => r is None && final(self).endpoints() == old(self).endpoints() && *final(sched) == *old(sched),
            },
    {
        match cap {
            Capability::Endpoint(idx) => {
                let i = idx as usize;
                if i < self.endpoints.len() {
                    let mut e = self.endpoints.remove(i);
                    let action = e.send(sched);
                    self.endpoints.insert(i, e);
                    assert(self.endpoints@ =~= old(self).endpoints().update(i as int, e));
                    Some(action)
                } else {
                    None
                }
            },
            Capability::Notification(_) => None,
        }
    }

    /// The running thread receives on the endpoint that `cap` names; `None`, with nothing
    /// changed, when `cap` names no endpoint.
    pub fn recv(&mut self, cap: Capability, sched: &mut Scheduler) -> (r: Option<Action>)
        requires
            old(sched).wf(),
            old(sched).running() is Some,
        ensures
            final(sched).wf(),
            final(self).notifications() == old(self).notifications(),
            match endpoint_index(cap, old(self).endpoints().len()) {
                Some(i) => {
                    &&& final(self).endpoints() == old(self).endpoints().update(i, final(self).endpoints()[i])
                    &&& r matches Some(a) && recv_post(old(self).endpoints()[i], final(self).endpoints()[i], *old(sched), *final(sched), a)
                },
                None => r is None && final(self).endpoints() == old(self).endpoints() && *final(sched) == *old(sched),
            },
    {
        match cap {
            Capability::Endpoint(idx) => {
                let i = idx as usize;
                if i < self.endpoints.len() {
                    let mut e = self.endpoints.remove(i);
                    let action = e.recv(sched);
                    self.endpoints.insert(i, e);
                    assert(self.endpoints@ =~= old(self).endpoints().update(i as int, e));
                    Some(action)
                } else {
                    None
                }
            },
            Capability::Notification(_) => None,
        }
    }

    /// Signals the notification that `cap` names; `false`, with nothing changed, when `cap`
    /// names no notification.
    pub fn signal(&mut self, cap: Capability, sched: &mut Scheduler) -> (r: bool)
        requires
            old(sched).wf(),
            notification_index(cap, old(self).notifications().len()) matches Some(i) ==> {
                let n = old(self).notifications()[i];
                n.waiting().len() == 0 ==> n.pending() < u64::MAX
            },
        ensures
            final(sched).wf(),
            final(self).endpoints() == old(self).endpoints(),
            match notification_index(cap, old(self).notifications().len()) {
                Some(i) => {
                    &&& r
                    &&& final(self).notifications() == old(self).notifications().update(i, final(self).notifications()[i])
                    &&& signal_post(old(self).notifications()[i], final(self).notifications()[i], *old(sched), *final(sched))
                },
                None => !r && final(self).notifications() == old(self).notifications() && *final(sched) == *old(sched),
            },
    {
        match cap {
            Capability::Notification(idx) => {
                let i = idx as usize;
                if i < self.notifications.len() {
                    let mut n = self.notifications.remove(i);
                    n.signal(sched);
                    self.notifications.insert(i, n);
                    assert(self.notifications@ =~= old(self).notifications().update(i as int, n));
                    true
                } else {
                    false
                }
            },
            Capability::Endpoint(_) => false,
        }
    }

    /// Waits on the notification that `cap` names; `None`, with nothing changed, when `cap`
    /// names no notification.
    pub fn wait(&mut self, cap: Capability, sched: &mut Scheduler) -> (r: Option<Action>)
        requires
            old(sched).wf(),
            notification_index(cap, old(self).notifications().len()) matches Some(i) ==>
                (old(self).notifications()[i].pending() == 0 ==> old(sched).running() is Some),
        ensures
            final(sched).wf(),
            final(self).endpoints() == old(self).endpoints(),
            match notification_index(cap, old(self).notifications().len()) {
                Some(i) => {
                    &&& final(self).notifications() == old(self).notifications().update(i, final(self).notifications()[i])
                    &&& r matches Some(a) && wait_post(old(self).notifications()[i], final(self).notifications()[i], *old(sched), *final(sched), a)
                },
                None => r is None && final(self).notifications() == old(self).notifications() && *final(sched) == *old(sched),
            },
    {
        match cap {
            Capability::Notification(idx) => {
                let i = idx as usize;
                if i < self.notifications.len() {
                    let mut n = self.notifications.remove(i);
                    let action = n.wait(sched);
                    self.notifications.insert(i, n);
                    assert(self.notifications@ =~= old(self).notifications().update(i as int, n));
                    Some(action)
                } else {
                    None
                }
            },
            Capability::Endpoint(_) => None,
        }
    }
}

} // verus!
