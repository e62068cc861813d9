//! The mailbox that carries results from request threads to the screen.
//!
//! Each request opens a channel and gets its ticket; values sent with any ticket
//! but the newest are dropped, so only the latest request's output is shown.
use vstd::prelude::*;

verus! {

pub struct MailboxModel<T> {
    /// The ticket of the newest channel.
    pub current: u64,
    /// The values not yet handed out, each with the ticket it was sent with.
    pub pending: Seq<(u64, T)>,
}

/// Every waiting value came on the newest channel.
pub open spec fn all_current<T>(m: MailboxModel<T>) -> bool {
    forall|i: int| 0 <= i < m.pending.len() ==> (#[trigger] m.pending[i]).0 == m.current
}

/// A new channel: the ticket goes up and what waited is dropped.
pub open spec fn opened<T>(m: MailboxModel<T>) -> MailboxModel<T> {
    MailboxModel { current: (m.current + 1) as u64, pending: Seq::empty() }
}

/// A value sent with `ticket` waits if the ticket is the newest, and is dropped otherwise.
pub open spec fn sent<T>(m: MailboxModel<T>, ticket: u64, v: T) -> MailboxModel<T> {
    if ticket == m.current {
        MailboxModel { current: m.current, pending: m.pending.push((ticket, v)) }
    } else {
        m
    }
}

/// The oldest waiting value leaves first.
pub open spec fn polled<T>(m: MailboxModel<T>) -> (MailboxModel<T>, Option<T>) {
    if m.pending.len() > 0 {
        (
            MailboxModel { current: m.current, pending: m.pending.subrange(1, m.pending.len() as int) },
            Some(m.pending[0].1),
        )
    } else {
        (m, None)
    }
}

pub struct Mailbox<T> {
    current: u64,
    pending: Vec<(u64, T)>,
}

impl<T> View for Mailbox<T> {
    type V = MailboxModel<T>;

    closed spec fn view(&self) -> MailboxModel<T> {
        MailboxModel { current: self.current, pending: self.pending@ }
    }
}

impl<T> Mailbox<T> {
    pub fn new() -> (r: Self)
        ensures
            r@ == (MailboxModel::<T> { current: 0, pending: Seq::empty() }),
    {
        Mailbox { current: 0, pending: Vec::new() }
    }

    /// The ticket of the newest channel.
    pub fn current(&self) -> (r: u64)
        ensures
            r == self@.current,
    {
        self.current
    }

    /// Whether another channel can be opened.
    pub fn can_open(&self) -> (r: bool)
        ensures
            r == (self@.current < u64::MAX),
    {
        self.current < u64::MAX
    }

    /// Opens a channel for a new request, dropping what the older ones left, and
    /// returns its ticket.
    pub fn open_channel(&mut self) -> (ticket: u64)
        requires
            old(self)@.current < u64::MAX,
        ensures
            final(self)@ == opened(old(self)@),
            ticket == final(self)@.current,
    {
        self.current = self.current + 1;
        self.pending = Vec::new();
        self.current
    }

    /// Sends `value` on the channel `ticket`; returns whether it was kept.
    pub fn send(&mut self, ticket: u64, value: T) -> (kept: bool)
        ensures
            final(self)@ == sent(old(self)@, ticket, value),
            kept == (ticket == old(self)@.current),
    {
        if ticket == self.current {
            self.pending.push((ticket, value));
            true
        } else {
            false
        }
    }

    /// Hands out the oldest waiting value, if any.
    pub fn poll(&mut self) -> (r: Option<T>)
        ensures
            (final(self)@, r) == polled(old(self)@),
    {
        if self.pending.len() > 0 {
            let (_, v) = self.pending.remove(0);
            Some(v)
        } else {
            None
        }
    }
}

/// Every operation keeps all waiting values on the newest channel.
pub proof fn lemma_all_current_kept<T>(m: MailboxModel<T>, ticket: u64, v: T)
    requires
        all_current(m),
    ensures
        m.current < u64::MAX ==> all_current(opened(m)),
        all_current(sent(m, ticket, v)),
        all_current(polled(m).0),
{
    let s = sent(m, ticket, v);
    assert forall|i: int| 0 <= i < s.pending.len() implies (#[trigger] s.pending[i]).0
        == s.current by {
        if i < m.pending.len() {
            assert(s.pending[i] == m.pending[i]);
        }
    }
    let p = polled(m).0;
    assert forall|i: int| 0 <= i < p.pending.len() implies (#[trigger] p.pending[i]).0
        == p.current by {
        assert(p.pending[i] == m.pending[i + 1]);
    }
}

/// After a new channel is opened, no value sent on an older channel is ever handed
/// out: what waited is gone, a later send with an older ticket is dropped, and what
/// polling hands out always came with the newest ticket.
pub proof fn lemma_latest_wins<T>(m: MailboxModel<T>, old_ticket: u64, v: T)
    requires
        m.current < u64::MAX,
        old_ticket <= m.current,
    ensures
        polled(opened(m)).1 is None,
        sent(opened(m), old_ticket, v) == opened(m),
        old_ticket < opened(m).current,
        forall|n: MailboxModel<T>, w: T|
            all_current(n) && polled(n).1 == Some(w) ==> n.pending[0] == (n.current, w),
{
}

} // verus!
