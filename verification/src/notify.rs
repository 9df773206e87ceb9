//! The Notification Log: the append-only list of transient status messages
//! that the archive-upload flow emits. A notification can be marked
//! dismissed, but — deliberately, matching the shipped behavior — dismissal
//! never removes it from the log.

use vstd::prelude::*;
use vstd::string::StringExecFns;

verus! {

/// How an archive upload ended.
#[derive(Debug, Clone, Copy, PartialEq, Eq, Structural)]
pub enum Severity {
    Success,
    Failure,
}

/// One status message: which item it names, how the upload ended, and the
/// failure detail (empty on success).
#[derive(Debug, PartialEq)]
pub struct Notification {
    pub severity: Severity,
    pub item_name: String,
    pub detail: String,
    pub dismissed: bool,
}

/// Mathematical image of a [`Notification`].
pub struct NotificationView {
    pub severity: Severity,
    pub item_name: Seq<char>,
    pub detail: Seq<char>,
    pub dismissed: bool,
}

impl View for Notification {
    type V = NotificationView;

    open spec fn view(&self) -> NotificationView {
        NotificationView {
            severity: self.severity,
            item_name: self.item_name@,
            detail: self.detail@,
            dismissed: self.dismissed,
        }
    }
}

impl Notification {
    /// The user-facing message line for this notification.
    pub fn message(&self) -> (r: String)
        ensures
            self.severity == Severity::Success ==> r@ == "Successfully uploaded "@
                + self.item_name@ + "!"@,
            self.severity == Severity::Failure ==> r@ == "Failed to upload "@ + self.item_name@
                + ": "@ + self.detail@,
    {
        match self.severity {
            Severity::Success => {
                let mut s = String::new();
                s.append("Successfully uploaded ");
                s.append(self.item_name.as_str());
                s.append("!");
                proof {
                    assert(s@ =~= "Successfully uploaded "@ + self.item_name@ + "!"@);
                }
                s
            },
            Severity::Failure => {
                let mut s = String::new();
                s.append("Failed to upload ");
                s.append(self.item_name.as_str());
                s.append(": ");
                s.append(self.detail.as_str());
                proof {
                    assert(s@ =~= "Failed to upload "@ + self.item_name@ + ": "@ + self.detail@);
                }
                s
            },
        }
    }
}

/// The ordered, append-only log of notifications.
pub struct NotificationLog {
    notes: Vec<Notification>,
}

impl View for NotificationLog {
    type V = Seq<NotificationView>;

    closed spec fn view(&self) -> Seq<NotificationView> {
        self.notes@.map_values(|n: Notification| n@)
    }
}

impl NotificationLog {
    /// An empty log.
    pub fn new() -> (log: Self)
        ensures
            log@ =~= Seq::<NotificationView>::empty(),
    {
        NotificationLog { notes: Vec::new() }
    }

    /// How many notifications were ever appended; dismissed ones count too.
    pub fn len(&self) -> (n: usize)
        ensures
            n == self@.len(),
    {
        self.notes.len()
    }

    /// The notification at position `i`, in order of appending.
    pub fn get(&self, i: usize) -> (n: &Notification)
        requires
            i < self@.len(),
        ensures
            n@ == self@[i as int],
    {
        &self.notes[i]
    }

    /// Read-only view of the whole log, oldest first.
    pub fn snapshot(&self) -> (r: &Vec<Notification>)
        ensures
            r@.map_values(|n: Notification| n@) == self@,
    {
        &self.notes
    }

    /// Appends one not-yet-dismissed notification; nothing is ever removed.
    pub fn append_note(&mut self, severity: Severity, item_name: String, detail: String)
        ensures
            final(self)@ == old(self)@.push(
                NotificationView { severity, item_name: item_name@, detail: detail@, dismissed: false },
            ),
    {
        let ghost pre = self@;
        self.notes.push(Notification { severity, item_name, detail, dismissed: false });
        proof {
            assert(self@ =~= pre.push(self.notes@[pre.len() as int]@));
        }
    }

    /// Marks the notification at position `i` dismissed. The log keeps its
    /// length: a dismissed notification still counts and can still be read.
    pub fn dismiss(&mut self, i: usize) -> (found: bool)
        ensures
            final(self)@.len() == old(self)@.len(),
            found == (i < old(self)@.len()),
            found ==> final(self)@ == old(self)@.update(
                i as int,
                NotificationView { dismissed: true, ..old(self)@[i as int] },
            ),
            !found ==> final(self)@ == old(self)@,
    {
        if i >= self.notes.len() {
            return false;
        }
        let ghost pre = self@;
        let n = &mut self.notes[i];
        n.dismissed = true;
        proof {
            assert(self@ =~= pre.update(
                i as int,
                NotificationView { dismissed: true, ..pre[i as int] },
            ));
        }
        true
    }
}

} // verus!
