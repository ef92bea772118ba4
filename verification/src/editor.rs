//! Editing a message in the user's editor: the choices offered before and
//! after, and what is done next at each point of the exchange.

use vstd::prelude::*;

verus! {

/// What can be done with a draft that was found when editing starts.
#[derive(Clone, Copy, Debug, PartialEq, Eq, Structural)]
pub enum PreEditChoice {
    Edit,
    Discard,
    Quit,
}

impl PreEditChoice {
    /// The words the choice is offered with.
    pub open spec fn label_text(self) -> Seq<char> {
        match self {
            PreEditChoice::Edit => "Edit it"@,
            PreEditChoice::Discard => "Discard it"@,
            PreEditChoice::Quit => "Quit"@,
        }
    }

    /// The words the choice is offered with.
    pub fn label(&self) -> (r: &'static str)
        ensures
            r@ == self.label_text(),
    {
        match self {
            PreEditChoice::Edit => "Edit it",
            PreEditChoice::Discard => "Discard it",
            PreEditChoice::Quit => "Quit",
        }
    }

    /// The choices, in the order in which they are offered.
    pub fn choices() -> (r: Vec<PreEditChoice>)
        ensures
            r@ == seq![PreEditChoice::Edit, PreEditChoice::Discard, PreEditChoice::Quit],
    {
        vec![PreEditChoice::Edit, PreEditChoice::Discard, PreEditChoice::Quit]
    }
}

/// What can be done with a message once the editor has closed.
#[derive(Clone, Copy, Debug, PartialEq, Eq, Structural)]
pub enum PostEditChoice {
    Send,
    Edit,
    LocalDraft,
    RemoteDraft,
    Discard,
}

impl PostEditChoice {
    /// The words the choice is offered with.
    pub open spec fn label_text(self) -> Seq<char> {
        match self {
            PostEditChoice::Send => "Send it"@,
            PostEditChoice::Edit => "Edit it again"@,
            PostEditChoice::LocalDraft => "Save it as local draft"@,
            PostEditChoice::RemoteDraft => "Save it as remote draft"@,
            PostEditChoice::Discard => "Discard it"@,
        }
    }

    /// The words the choice is offered with.
    pub fn label(&self) -> (r: &'static str)
        ensures
            r@ == self.label_text(),
    {
        match self {
            PostEditChoice::Send => "Send it",
            PostEditChoice::Edit => "Edit it again",
            PostEditChoice::LocalDraft => "Save it as local draft",
            PostEditChoice::RemoteDraft => "Save it as remote draft",
            PostEditChoice::Discard => "Discard it",
        }
    }

    /// The choices, in the order in which they are offered.
    pub fn choices() -> (r: Vec<PostEditChoice>)
        ensures
            r@ == seq![
                PostEditChoice::Send,
                PostEditChoice::Edit,
                PostEditChoice::LocalDraft,
                PostEditChoice::RemoteDraft,
                PostEditChoice::Discard,
            ],
    {
        vec![
            PostEditChoice::Send,
            PostEditChoice::Edit,
            PostEditChoice::LocalDraft,
            PostEditChoice::RemoteDraft,
            PostEditChoice::Discard,
        ]
    }
}

/// Where the exchange with the user stands.
#[derive(Clone, Copy, Debug, PartialEq, Eq, Structural)]
pub enum EditState {
    /// Nothing has happened yet: it is not known whether a draft exists.
    Start,
    /// A draft exists and the user is asked what to do with it.
    PreEdit,
    /// The editor is open.
    Editing,
    /// The editor has closed and the user is asked what to do with the
    /// message.
    PostEdit,
    /// The exchange is over.
    Done,
}

/// What came back from outside.
#[derive(Clone, Copy, Debug, PartialEq, Eq, Structural)]
pub enum EditEvent {
    /// A local draft exists.
    DraftFound,
    /// No local draft exists.
    NoDraft,
    /// The user answered the question asked before editing.
    PreEditChosen(PreEditChoice),
    /// The user answered the question asked after editing.
    PostEditChosen(PostEditChoice),
    /// The question could not be asked or was not answered.
    PromptFailed,
    /// The editor has closed and the message was read back.
    Edited,
    /// The draft could not be written or read, or the editor not started.
    Failed,
}

/// What is to be done outside next.
#[derive(Clone, Copy, Debug, PartialEq, Eq, Structural)]
pub enum EditAction {
    /// Ask what to do with the draft that was found.
    AskPreEdit,
    /// Show why the question failed, then ask it again.
    ReportAndAskPreEdit,
    /// Open the editor on the draft that was found.
    OpenLocalDraft,
    /// Write the message as the local draft and open the editor on it.
    OpenTemplate,
    /// Ask what to do with the edited message.
    AskPostEdit,
    /// Show why the question failed, then ask it again.
    ReportAndAskPostEdit,
    /// Compile and send the message, save a copy, remove the local draft.
    Send,
    /// Leave the local draft where it is.
    KeepLocalDraft,
    /// Compile the message, add it to the drafts folder, remove the local
    /// draft.
    SaveRemoteDraft,
    /// Remove the local draft.
    DiscardDraft,
    /// Leave without touching anything.
    Quit,
    /// Leave with the failure that was met.
    GiveUp,
    /// The event does not belong to the state: nothing is done.
    Ignore,
}

/// The state that follows `state` on `event`, and what is to be done.
pub open spec fn transition(state: EditState, event: EditEvent) -> (EditState, EditAction) {
    match (state, event) {
        (EditState::Done, _) => (EditState::Done, EditAction::Ignore),
        (_, EditEvent::Failed) => (EditState::Done, EditAction::GiveUp),
        (EditState::Start, EditEvent::DraftFound) => (EditState::PreEdit, EditAction::AskPreEdit),
        (EditState::Start, EditEvent::NoDraft) => (EditState::Editing, EditAction::OpenTemplate),
        (EditState::PreEdit, EditEvent::PreEditChosen(PreEditChoice::Edit)) => (
            EditState::Editing,
            EditAction::OpenLocalDraft,
        ),
        (EditState::PreEdit, EditEvent::PreEditChosen(PreEditChoice::Discard)) => (
            EditState::Editing,
            EditAction::OpenTemplate,
        ),
        (EditState::PreEdit, EditEvent::PreEditChosen(PreEditChoice::Quit)) => (
            EditState::Done,
            EditAction::Quit,
        ),
        (EditState::PreEdit, EditEvent::PromptFailed) => (
            EditState::PreEdit,
            EditAction::ReportAndAskPreEdit,
        ),
        (EditState::Editing, EditEvent::Edited) => (EditState::PostEdit, EditAction::AskPostEdit),
        (EditState::PostEdit, EditEvent::PostEditChosen(PostEditChoice::Send)) => (
            EditState::Done,
            EditAction::Send,
        ),
        (EditState::PostEdit, EditEvent::PostEditChosen(PostEditChoice::Edit)) => (
            EditState::Editing,
            EditAction::OpenTemplate,
        ),
        (EditState::PostEdit, EditEvent::PostEditChosen(PostEditChoice::LocalDraft)) => (
            EditState::Done,
            EditAction::KeepLocalDraft,
        ),
        (EditState::PostEdit, EditEvent::PostEditChosen(PostEditChoice::RemoteDraft)) => (
            EditState::Done,
            EditAction::SaveRemoteDraft,
        ),
        (EditState::PostEdit, EditEvent::PostEditChosen(PostEditChoice::Discard)) => (
            EditState::Done,
            EditAction::DiscardDraft,
        ),
        (EditState::PostEdit, EditEvent::PromptFailed) => (
            EditState::PostEdit,
            EditAction::ReportAndAskPostEdit,
        ),
        (_, _) => (state, EditAction::Ignore),
    }
}

impl EditAction {
    /// The actions that end the exchange.
    pub open spec fn is_final(self) -> bool {
        self == EditAction::Send || self == EditAction::KeepLocalDraft || self
            == EditAction::SaveRemoteDraft || self == EditAction::DiscardDraft || self
            == EditAction::Quit || self == EditAction::GiveUp
    }

    /// The actions after which no local draft is left.
    pub open spec fn spec_removes_local_draft(self) -> bool {
        self == EditAction::Send || self == EditAction::SaveRemoteDraft || self
            == EditAction::DiscardDraft
    }

    /// Tells whether the local draft is removed once the action is done.
    pub fn removes_local_draft(&self) -> (r: bool)
        ensures
            r == self.spec_removes_local_draft(),
    {
        match self {
            EditAction::Send | EditAction::SaveRemoteDraft | EditAction::DiscardDraft => true,
            _ => false,
        }
    }

    /// What the user is told before the action starts.
    pub open spec fn announcement_text(self) -> Option<Seq<char>> {
        match self {
            EditAction::Send => Some("Sending email…"@),
            _ => None,
        }
    }

    /// What the user is told before the action starts, if anything.
    pub fn announcement(&self) -> (r: Option<&'static str>)
        ensures
            r is Some <==> self.announcement_text() is Some,
            r is Some ==> r->0@ == self.announcement_text()->0,
    {
        match self {
            EditAction::Send => Some("Sending email…"),
            _ => None,
        }
    }

    /// What the user is told once the action is done.
    pub open spec fn notice_text(self) -> Option<Seq<char>> {
        match self {
            EditAction::Send => Some("Done!"@),
            EditAction::KeepLocalDraft => Some("Email successfully saved locally"@),
            EditAction::SaveRemoteDraft => Some("Email successfully saved to drafts"@),
            _ => None,
        }
    }

    /// What the user is told once the action is done, if anything.
    pub fn notice(&self) -> (r: Option<&'static str>)
        ensures
            r is Some <==> self.notice_text() is Some,
            r is Some ==> r->0@ == self.notice_text()->0,
    {
        match self {
            EditAction::Send => Some("Done!"),
            EditAction::KeepLocalDraft => Some("Email successfully saved locally"),
            EditAction::SaveRemoteDraft => Some("Email successfully saved to drafts"),
            _ => None,
        }
    }
}

impl EditState {
    /// The state in which every exchange starts.
    pub fn new() -> (r: EditState)
        ensures
            r == EditState::Start,
    {
        EditState::Start
    }

    /// Takes `event` in: returns the state that follows and what is to be
    /// done next.
    pub fn step(self, event: EditEvent) -> (r: (EditState, EditAction))
        ensures
            r == transition(self, event),
    {
        match self {
            EditState::Done => (EditState::Done, EditAction::Ignore),
            _ => match event {
                EditEvent::Failed => (EditState::Done, EditAction::GiveUp),
                _ => match self {
                    EditState::Start => match event {
                        EditEvent::DraftFound => (EditState::PreEdit, EditAction::AskPreEdit),
                        EditEvent::NoDraft => (EditState::Editing, EditAction::OpenTemplate),
                        _ => (self, EditAction::Ignore),
                    },
                    EditState::PreEdit => match event {
                        EditEvent::PreEditChosen(choice) => match choice {
                            PreEditChoice::Edit => (EditState::Editing, EditAction::OpenLocalDraft),
                            PreEditChoice::Discard => (EditState::Editing, EditAction::OpenTemplate),
                            PreEditChoice::Quit => (EditState::Done, EditAction::Quit),
                        },
                        EditEvent::PromptFailed => (
                            EditState::PreEdit,
                            EditAction::ReportAndAskPreEdit,
                        ),
                        _ => (self, EditAction::Ignore),
                    },
                    EditState::Editing => match event {
                        EditEvent::Edited => (EditState::PostEdit, EditAction::AskPostEdit),
                        _ => (self, EditAction::Ignore),
                    },
                    EditState::PostEdit => match event {
                        EditEvent::PostEditChosen(choice) => match choice {
                            PostEditChoice::Send => (EditState::Done, EditAction::Send),
                            PostEditChoice::Edit => (EditState::Editing, EditAction::OpenTemplate),
                            PostEditChoice::LocalDraft => (
                                EditState::Done,
                                EditAction::KeepLocalDraft,
                            ),
                            PostEditChoice::RemoteDraft => (
                                EditState::Done,
                                EditAction::SaveRemoteDraft,
                            ),
                            PostEditChoice::Discard => (EditState::Done, EditAction::DiscardDraft),
                        },
                        EditEvent::PromptFailed => (
                            EditState::PostEdit,
                            EditAction::ReportAndAskPostEdit,
                        ),
                        _ => (self, EditAction::Ignore),
                    },
                    EditState::Done => (EditState::Done, EditAction::Ignore),
                },
            },
        }
    }
}

/// Once over, the exchange stays over and asks for nothing more.
pub proof fn lemma_done_is_final(event: EditEvent)
    ensures
        transition(EditState::Done, event) == (EditState::Done, EditAction::Ignore),
{
}

/// The exchange ends exactly with an action that ends it.
pub proof fn lemma_ends_with_final_action(state: EditState, event: EditEvent)
    requires
        state != EditState::Done,
    ensures
        transition(state, event).0 == EditState::Done <==> transition(state, event).1.is_final(),
{
}

/// A local draft is removed only after the editor has closed and the user
/// has chosen to send the message, to save it remotely or to discard it.
pub proof fn lemma_draft_removed_on_choice(state: EditState, event: EditEvent)
    ensures
        transition(state, event).1.spec_removes_local_draft() <==> state == EditState::PostEdit && (
        event == EditEvent::PostEditChosen(PostEditChoice::Send) || event
            == EditEvent::PostEditChosen(PostEditChoice::RemoteDraft) || event
            == EditEvent::PostEditChosen(PostEditChoice::Discard)),
{
}

/// An event that the state does not wait for changes nothing.
pub proof fn lemma_ignored_event_keeps_state(state: EditState, event: EditEvent)
    ensures
        transition(state, event).1 == EditAction::Ignore ==> transition(state, event).0 == state,
{
}

} // verus!
