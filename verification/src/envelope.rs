//! The synchronizable unit of a message: its identifiers, flags and
//! display metadata, without the body.

use vstd::prelude::*;

use crate::flag::{FlagView, Flags};

verus! {

/// A sender: an optional display name plus an address.
#[derive(Debug)]
pub struct Mailbox {
    pub name: Option<String>,
    pub addr: String,
}

/// The mathematical identity of a mailbox.
pub struct MailboxView {
    pub name: Option<Seq<char>>,
    pub addr: Seq<char>,
}

impl View for Mailbox {
    type V = MailboxView;

    open spec fn view(&self) -> MailboxView {
        MailboxView {
            name: match &self.name {
                Some(n) => Some(n@),
                None => None,
            },
            addr: self.addr@,
        }
    }
}

impl Mailbox {
    pub fn new(name: Option<String>, addr: String) -> (r: Mailbox)
        ensures
            r.name == name,
            r.addr == addr,
    {
        Mailbox { name, addr }
    }

    pub fn new_nameless(addr: String) -> (r: Mailbox)
        ensures
            r.name is None,
            r.addr == addr,
    {
        Mailbox { name: None, addr }
    }
}

impl Clone for Mailbox {
    fn clone(&self) -> (r: Mailbox)
        ensures
            r@ == self@,
    {
        Mailbox {
            name: match &self.name {
                Some(n) => Some(n.clone()),
                None => None,
            },
            addr: self.addr.clone(),
        }
    }
}

impl Default for Mailbox {
    fn default() -> (r: Mailbox)
        ensures
            r.name is None,
            r.addr@ == Seq::<char>::empty(),
    {
        Mailbox { name: None, addr: String::new() }
    }
}

/// A message envelope.
///
/// `internal_id` is the store's own identifier, unique within one
/// backend and folder but not stable across store re-opens; `id` is the
/// stable identifier shown to callers; `message_id` correlates the same
/// message across backends; `date` is a unix timestamp in seconds.
#[derive(Debug)]
pub struct Envelope {
    pub id: String,
    pub internal_id: String,
    pub message_id: String,
    pub flags: Flags,
    pub subject: String,
    pub from: Mailbox,
    pub date: i64,
}

/// The mathematical identity of an envelope.
pub struct EnvelopeView {
    pub id: Seq<char>,
    pub internal_id: Seq<char>,
    pub message_id: Seq<char>,
    pub flags: Set<FlagView>,
    pub subject: Seq<char>,
    pub from: MailboxView,
    pub date: int,
}

impl View for Envelope {
    type V = EnvelopeView;

    open spec fn view(&self) -> EnvelopeView {
        EnvelopeView {
            id: self.id@,
            internal_id: self.internal_id@,
            message_id: self.message_id@,
            flags: self.flags@,
            subject: self.subject@,
            from: self.from@,
            date: self.date as int,
        }
    }
}

impl Envelope {
    /// Well-formed: the flag set stores no flag twice.
    pub open spec fn wf(&self) -> bool {
        self.flags.wf()
    }
}

impl Clone for Envelope {
    fn clone(&self) -> (r: Envelope)
        ensures
            r@ == self@,
            r.wf() == self.wf(),
    {
        Envelope {
            id: self.id.clone(),
            internal_id: self.internal_id.clone(),
            message_id: self.message_id.clone(),
            flags: self.flags.clone(),
            subject: self.subject.clone(),
            from: self.from.clone(),
            date: self.date,
        }
    }
}

impl Default for Envelope {
    fn default() -> (r: Envelope)
        ensures
            r.wf(),
            r@.id == Seq::<char>::empty(),
            r@.internal_id == Seq::<char>::empty(),
            r@.message_id == Seq::<char>::empty(),
            r@.flags == Set::<FlagView>::empty(),
            r@.subject == Seq::<char>::empty(),
            r@.from.name is None,
            r@.from.addr == Seq::<char>::empty(),
            r@.date == 0,
    {
        Envelope {
            id: String::new(),
            internal_id: String::new(),
            message_id: String::new(),
            flags: Flags::new(),
            subject: String::new(),
            from: Mailbox::default(),
            date: 0,
        }
    }
}

} // verus!
