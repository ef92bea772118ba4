//! The kinds of mail backend, and which of them serves a request.

use vstd::prelude::*;

verus! {

/// A kind of mail backend.
#[derive(Clone, Copy, Debug, PartialEq, Eq, Hash, Structural)]
pub enum BackendKind {
    Unset,
    Imap,
    Maildir,
    Notmuch,
    Smtp,
    Sendmail,
}

impl BackendKind {
    /// The kinds that hold folders and can list them.
    pub open spec fn holds_folders(self) -> bool {
        self == BackendKind::Imap || self == BackendKind::Maildir || self == BackendKind::Notmuch
    }
}

/// What an account sets up of its backends: the kind that reads mail, the
/// kind that sends it, and for each kind whether the account configures it.
#[derive(Clone, Debug)]
pub struct ContextBuilder {
    pub backend: BackendKind,
    pub sending_backend: BackendKind,
    pub imap: bool,
    pub maildir: bool,
    pub notmuch: bool,
    pub smtp: bool,
    pub sendmail: bool,
}

impl ContextBuilder {
    /// Whether the account configures the backend of kind `kind`.
    pub open spec fn configures(self, kind: BackendKind) -> bool {
        match kind {
            BackendKind::Unset => false,
            BackendKind::Imap => self.imap,
            BackendKind::Maildir => self.maildir,
            BackendKind::Notmuch => self.notmuch,
            BackendKind::Smtp => self.smtp,
            BackendKind::Sendmail => self.sendmail,
        }
    }

    /// The kind of backend that lists the folders: the one that reads mail,
    /// if it is of a kind that holds folders and the account configures it.
    pub fn list_folders(&self) -> (r: Option<BackendKind>)
        ensures
            r == if self.backend.holds_folders() && self.configures(self.backend) {
                Some(self.backend)
            } else {
                None
            },
    {
        match self.backend {
            BackendKind::Imap => if self.imap {
                Some(BackendKind::Imap)
            } else {
                None
            },
            BackendKind::Maildir => if self.maildir {
                Some(BackendKind::Maildir)
            } else {
                None
            },
            BackendKind::Notmuch => if self.notmuch {
                Some(BackendKind::Notmuch)
            } else {
                None
            },
            _ => None,
        }
    }
}

} // verus!
