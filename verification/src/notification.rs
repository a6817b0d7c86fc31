//! Notifications: the agent that hands them to every subscriber, and the
//! list that the notification widget shows.

use crate::structures::same_text;
use vstd::prelude::*;

verus! {

broadcast use vstd::string::group_string_axioms;

#[derive(Clone, Copy, Debug, PartialEq, Eq, Structural)]
pub enum NotificationType {
    Info,
    Warning,
    Error,
    Success,
}

#[derive(Clone, Debug)]
pub struct Notification {
    pub content: String,
    pub notification_type: NotificationType,
}

pub ghost struct NotificationView {
    pub content: Seq<char>,
    pub notification_type: NotificationType,
}

impl View for Notification {
    type V = NotificationView;

    open spec fn view(&self) -> NotificationView {
        NotificationView { content: self.content@, notification_type: self.notification_type }
    }
}

impl Notification {
    /// Two notifications with the same text and kind are the same.
    pub fn same_as(&self, other: &Notification) -> (r: bool)
        ensures
            r == (self@ == other@),
    {
        same_text(self.content.as_str(), other.content.as_str()) && self.notification_type
            == other.notification_type
    }

    pub fn duplicate(&self) -> (r: Notification)
        ensures
            r@ == self@,
    {
        Notification { content: self.content.clone(), notification_type: self.notification_type }
    }
}

#[derive(Clone, Debug)]
pub enum NotificationAgentInput {
    Notify(Notification),
}

#[derive(Clone, Debug)]
pub enum NotificationAgentOutput {
    Notify(Notification),
}

/// The agent that passes every notification on to all subscribers; the
/// handler ids stand for the application's subscribers.
pub struct NotificationAgent {
    pub subscribers: Vec<u64>,
}

impl NotificationAgent {
    pub fn create() -> (r: NotificationAgent)
        ensures
            r.subscribers@ == Seq::<u64>::empty(),
    {
        NotificationAgent { subscribers: Vec::new() }
    }

    /// A component subscribes.
    pub fn connected(&mut self, id: u64)
        ensures
            final(self).subscribers@ == old(self).subscribers@.push(id),
    {
        self.subscribers.push(id);
    }

    /// A component leaves: its first subscription is dropped.
    pub fn disconnected(&mut self, id: u64)
        ensures
            final(self).subscribers@ == (if old(self).subscribers@.contains(id) {
                old(self).subscribers@.remove(crate::socket_agent::first_index(old(self).subscribers@, id))
            } else {
                old(self).subscribers@
            }),
    {
        crate::socket_agent::remove_first(&mut self.subscribers, id);
    }

    /// A notification to pass on to every subscriber (`handle_input`).
    pub fn handle_input(&self, msg: NotificationAgentInput) -> (out: NotificationAgentOutput)
        ensures
            match (msg, out) {
                (NotificationAgentInput::Notify(a), NotificationAgentOutput::Notify(b)) => a == b,
            },
    {
        match msg {
            NotificationAgentInput::Notify(n) => NotificationAgentOutput::Notify(n),
        }
    }
}

/// The CSS class of a notification of the kind.
pub fn notification_class(t: NotificationType) -> (s: &'static str)
    ensures
        s@ == (match t {
            NotificationType::Info => "notification is-info"@,
            NotificationType::Warning => "notification is-warning"@,
            NotificationType::Error => "notification is-danger"@,
            NotificationType::Success => "notification is-primary"@,
        }),
{
    match t {
        NotificationType::Info => "notification is-info",
        NotificationType::Warning => "notification is-warning",
        NotificationType::Error => "notification is-danger",
        NotificationType::Success => "notification is-primary",
    }
}

/// The notifications on screen, oldest first.
pub struct NotificationWidget {
    pub notifs: Vec<Notification>,
}

pub open spec fn list_view(v: Seq<Notification>) -> Seq<NotificationView> {
    v.map_values(|n: Notification| n@)
}

/// The position of the first notification equal to `n`.
pub open spec fn first_equal(v: Seq<NotificationView>, n: NotificationView) -> int {
    choose|i: int| 0 <= i < v.len() && v[i] == n && forall|j: int| 0 <= j < i ==> v[j] != n
}

impl NotificationWidget {
    pub fn new() -> (r: NotificationWidget)
        ensures
            r.notifs@.len() == 0,
    {
        NotificationWidget { notifs: Vec::new() }
    }

    /// A new notification goes last (`AddNotif`).
    pub fn add_notif(&mut self, n: Notification)
        ensures
            list_view(final(self).notifs@) == list_view(old(self).notifs@).push(n@),
    {
        self.notifs.push(n);
        assert(list_view(self.notifs@) =~= list_view(old(self).notifs@).push(n@));
    }

    /// The first notification equal to `n` goes away; gives back its
    /// position, or none when there is no such notification (`RemoveNotif`).
    pub fn remove_notif(&mut self, n: &Notification) -> (r: Option<usize>)
        ensures
            match r {
                Some(i) => {
                    &&& list_view(old(self).notifs@).contains(n@)
                    &&& i == first_equal(list_view(old(self).notifs@), n@)
                    &&& list_view(final(self).notifs@) == list_view(old(self).notifs@).remove(i as int)
                },
                None => !list_view(old(self).notifs@).contains(n@) && list_view(final(self).notifs@)
                    == list_view(old(self).notifs@),
            },
    {
        let ghost v = list_view(self.notifs@);
        let mut i: usize = 0;
        while i < self.notifs.len()
            invariant
                i <= self.notifs.len(),
                self.notifs@ == old(self).notifs@,
                v == list_view(self.notifs@),
                forall|j: int| 0 <= j < i ==> v[j] != n@,
            decreases self.notifs.len() - i,
        {
            if self.notifs[i].same_as(n) {
                proof {
                    let k = first_equal(v, n@);
                    assert(v[i as int] == n@);
                    assert(k == i) by {
                        if k < i {
                            assert(v[k] != n@);
                        }
                        if k > i {
                            assert(v[i as int] == n@);
                        }
                    }
                }
                self.notifs.remove(i);
                assert(list_view(self.notifs@) =~= v.remove(i as int));
                return Some(i);
            }
            i = i + 1;
        }
        assert(!v.contains(n@));
        None
    }
}


/// A notification that is added and then dismissed leaves the list as it
/// was, when no equal one was there before.
pub proof fn lemma_add_then_remove(v: Seq<NotificationView>, n: NotificationView)
    requires
        !v.contains(n),
    ensures
        v.push(n).contains(n),
        first_equal(v.push(n), n) == v.len(),
        v.push(n).remove(v.len() as int) == v,
{
    let t = v.push(n);
    assert(t[v.len() as int] == n);
    assert(0 <= v.len() < t.len() && t[v.len() as int] == n && forall|j: int| 0 <= j < v.len() ==> t[j] != n) by {
        assert forall|j: int| 0 <= j < v.len() implies t[j] != n by {
            assert(t[j] == v[j]);
        }
    }
    let k = first_equal(t, n);
    assert(k == v.len()) by {
        if k < v.len() {
            assert(t[k] == v[k]);
        }
    }
    assert(t.remove(v.len() as int) =~= v);
}

} // verus!
