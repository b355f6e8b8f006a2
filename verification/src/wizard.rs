//! The set-up as a sequence of gates.
//!
//! A [`Wizard`] is what the set-up knows between two requests. Each
//! [`Request`] tells the host what to show and what to do; the host answers
//! with an [`Event`], and [`Wizard::step`] gives the next request. What the
//! next request is, for every state and every event, is [`step_spec`].

use vstd::prelude::*;
use vstd::string::*;
use crate::error::{Error, ErrorView};
use crate::identities::Identities;
use crate::keys::{draw_view, KeyMaterial, KeyView};
use crate::record::{optional_text, Paths, PathsView, RecordView, UserRecord};
use crate::text::{secrets_file, secrets_file_text, Notice, Prompt, PromptView};

verus! {

/// Permission bits of the secrets file: read and write for the owner only.
pub const SECRETS_MODE: u32 = 0o600;

/// What the set-up is waiting for.
#[derive(Clone, Copy, Debug, PartialEq, Eq, Structural)]
pub enum Stage {
    /// The answer to the general go-ahead.
    Ready,
    /// Whether a secrets file is there already.
    Probing,
    /// The answer to the warning that keys and data will be erased.
    Reinit,
    /// The data directory.
    DataDir,
    /// The cache directory.
    CacheDir,
    /// The secrets file, opened empty.
    Opening,
    /// The display name.
    Name,
    /// Whether another identity is to be added or updated.
    IdentityAsk,
    /// The label of the identity.
    IdentityLabel,
    /// The value of the identity.
    IdentityValue,
    /// Whether a status message is to be added.
    StatusAsk,
    /// The status message.
    StatusText,
    /// The encoded record.
    Encoding,
    /// The write to the secrets file.
    Writing,
    /// Nothing: the secrets file has been written.
    Done,
    /// Nothing: the run has stopped with an error.
    Failed,
}

/// What the host reports after it has performed a request.
#[derive(Debug)]
pub enum Event {
    /// The user's answer to a confirmation.
    Answer(bool),
    /// The line that the user entered.
    Line(String),
    /// Whether the probed file exists.
    Exists(bool),
    /// The directory was created, the file opened, or the text written.
    Completed,
    /// The record, encoded.
    Encoded(String),
    /// The request could not be performed; the message says why.
    Failed(String),
}

/// The mathematical value of an [`Event`].
pub enum EventView {
    Answer(bool),
    Line(Seq<char>),
    Exists(bool),
    Completed,
    Encoded(Seq<char>),
    Failed(Seq<char>),
}

impl View for Event {
    type V = EventView;

    open spec fn view(&self) -> EventView {
        match self {
            Event::Answer(yes) => EventView::Answer(*yes),
            Event::Line(text) => EventView::Line(text@),
            Event::Exists(there) => EventView::Exists(*there),
            Event::Completed => EventView::Completed,
            Event::Encoded(body) => EventView::Encoded(body@),
            Event::Failed(message) => EventView::Failed(message@),
        }
    }
}

impl Event {
    /// A copy of the event.
    pub fn duplicate(&self) -> (copy: Event)
        ensures
            copy@ == self@,
    {
        match self {
            Event::Answer(yes) => Event::Answer(*yes),
            Event::Line(text) => Event::Line(text.clone()),
            Event::Exists(there) => Event::Exists(*there),
            Event::Completed => Event::Completed,
            Event::Encoded(body) => Event::Encoded(body.clone()),
            Event::Failed(message) => Event::Failed(message.clone()),
        }
    }
}

/// What the host is to do.
#[derive(Debug)]
pub enum Action {
    /// Ask a yes/no question. `default` is the answer that is offered, where
    /// the set-up prescribes one.
    Confirm { prompt: Prompt, default: Option<bool> },
    /// Ask for one line of text.
    Input { prompt: Prompt },
    /// Find out whether the file exists.
    Probe { path: String },
    /// Create the directory, and its parents, unless it is there.
    CreateDir { path: String },
    /// Open the secrets file for writing, created if absent and emptied if
    /// not. Where the place has permission bits, the file has exactly the
    /// bits `mode` once this is done: a new file from the moment of its
    /// creation, never with wider bits first; a file that was there from now
    /// on, whatever bits it had, and before anything is written to it.
    OpenSecrets { path: String, mode: u32 },
    /// Encode the record as structured text.
    Encode { record: UserRecord },
    /// Write the text to the open secrets file.
    Write { text: String },
    /// End the run with this result.
    Finish { result: Result<(), Error> },
}

/// The mathematical value of an [`Action`].
pub enum ActionView {
    Confirm { prompt: PromptView, default: Option<bool> },
    Input { prompt: PromptView },
    Probe { path: Seq<char> },
    CreateDir { path: Seq<char> },
    OpenSecrets { path: Seq<char>, mode: u32 },
    Encode { record: RecordView },
    Write { text: Seq<char> },
    Finish { result: Result<(), ErrorView> },
}

impl ActionView {
    /// The action changes the file system when the host performs it.
    pub open spec fn mutates(self) -> bool {
        self is CreateDir || self is OpenSecrets || self is Write
    }
}

impl View for Action {
    type V = ActionView;

    open spec fn view(&self) -> ActionView {
        match self {
            Action::Confirm { prompt, default } => ActionView::Confirm {
                prompt: prompt@,
                default: *default,
            },
            Action::Input { prompt } => ActionView::Input { prompt: prompt@ },
            Action::Probe { path } => ActionView::Probe { path: path@ },
            Action::CreateDir { path } => ActionView::CreateDir { path: path@ },
            Action::OpenSecrets { path, mode } => ActionView::OpenSecrets {
                path: path@,
                mode: *mode,
            },
            Action::Encode { record } => ActionView::Encode { record: record@ },
            Action::Write { text } => ActionView::Write { text: text@ },
            Action::Finish { result } => ActionView::Finish {
                result: match result {
                    Ok(_) => Ok(()),
                    Err(error) => Err(error@),
                },
            },
        }
    }
}

/// One turn of the set-up: a passage to show, then an action to perform.
#[derive(Debug)]
pub struct Request {
    /// What to show first, if anything.
    pub notice: Option<Notice>,
    /// What to do then.
    pub action: Action,
}

/// The mathematical value of a [`Request`].
pub struct RequestView {
    pub notice: Option<Notice>,
    pub action: ActionView,
}

impl View for Request {
    type V = RequestView;

    open spec fn view(&self) -> RequestView {
        RequestView { notice: self.notice, action: self.action@ }
    }
}

/// The state of the set-up between two requests.
#[derive(Debug)]
pub struct Wizard {
    paths: Paths,
    stage: Stage,
    name: String,
    identities: Identities,
    label: String,
    failure: Option<Error>,
}

/// The mathematical value of a [`Wizard`].
pub struct WizardView {
    /// Where the set-up works.
    pub paths: PathsView,
    /// What the set-up is waiting for.
    pub stage: Stage,
    /// The display name, once entered and until the record is assembled.
    pub name: Seq<char>,
    /// The identities entered so far, until the record is assembled.
    pub identities: Map<Seq<char>, Seq<char>>,
    /// The label whose value is being asked for.
    pub label: Seq<char>,
    /// Why the run stopped, once it has.
    pub failure: Option<ErrorView>,
}

/// The message of the error with which the set-up stops when the host
/// reports something that the request did not ask for.
pub open spec fn unexpected_reply() -> Seq<char> {
    "the reply does not answer the request"@
}

/// The error that a failed request amounts to: it goes by what was being
/// done when the host reported the failure.
pub open spec fn failure_kind(stage: Stage, message: Seq<char>) -> ErrorView {
    match stage {
        Stage::Probing | Stage::DataDir | Stage::CacheDir | Stage::Opening | Stage::Writing =>
            ErrorView::Io(message),
        Stage::Encoding => ErrorView::Encoding(message),
        _ => ErrorView::Interaction(message),
    }
}

/// What is shown before the secrets file is opened: nothing where the file
/// can be created for its owner alone, and elsewhere the warning that the
/// user has to restrict access to it.
pub open spec fn open_notice(paths: PathsView) -> Option<Notice> {
    if paths.permission_bits {
        None
    } else {
        Some(Notice::RestrictAccess)
    }
}

/// The request that ends a run with a result.
pub open spec fn finish(result: Result<(), ErrorView>) -> RequestView {
    RequestView { notice: None, action: ActionView::Finish { result } }
}

impl WizardView {
    /// The run has ended.
    pub open spec fn finished(self) -> bool {
        self.stage == Stage::Done || self.stage == Stage::Failed
    }

    /// The result of a run that has ended: success, or the error.
    pub open spec fn outcome(self) -> Result<(), ErrorView> {
        if self.stage == Stage::Done {
            Ok(())
        } else {
            match self.failure {
                Some(error) => Err(error),
                None => Err(ErrorView::UserAborted),
            }
        }
    }

    /// Moves on to `stage` with the given request.
    pub open spec fn go(self, stage: Stage, notice: Option<Notice>, action: ActionView) -> (
        WizardView,
        RequestView,
    ) {
        (WizardView { stage, ..self }, RequestView { notice, action })
    }

    /// Stops the run with `error`.
    pub open spec fn stop(self, error: ErrorView) -> (WizardView, RequestView) {
        (WizardView { stage: Stage::Failed, failure: Some(error), ..self }, finish(Err(error)))
    }

    /// Begins to create the directories.
    pub open spec fn create_directories(self) -> (WizardView, RequestView) {
        self.go(
            Stage::DataDir,
            Some(Notice::CreatingDirectories),
            ActionView::CreateDir { path: self.paths.base_data },
        )
    }

    /// Asks whether an identity is to be added or updated.
    pub open spec fn ask_identity(self, notice: Notice) -> (WizardView, RequestView) {
        self.go(
            Stage::IdentityAsk,
            Some(notice),
            ActionView::Confirm { prompt: PromptView::AddIdentity, default: None },
        )
    }

    /// Assembles the record from what was collected and from `keys`, and
    /// hands it out to be encoded. The wizard keeps none of it.
    pub open spec fn seal(self, status: Option<Seq<char>>, keys: KeyView) -> (
        WizardView,
        RequestView,
    ) {
        WizardView {
            name: Seq::empty(),
            identities: Map::empty(),
            ..self
        }.go(
            Stage::Encoding,
            None,
            ActionView::Encode {
                record: RecordView {
                    name: self.name,
                    identities: self.identities,
                    status,
                    keypair: keys,
                },
            },
        )
    }
}

impl WizardView {
    /// Ends the collection with what the draw of the key pair gave: with a
    /// pair the record is assembled; without one the run stops on the
    /// failure of the operating system, and no record is handed out.
    pub open spec fn conclude(
        self,
        status: Option<Seq<char>>,
        drawn: Result<KeyView, Seq<char>>,
    ) -> (WizardView, RequestView) {
        match drawn {
            Ok(keys) => self.seal(status, keys),
            Err(message) => self.stop(ErrorView::Io(message)),
        }
    }
}

/// The state in which a run begins, and its first request.
pub open spec fn init_spec(paths: PathsView) -> (WizardView, RequestView) {
    (
        WizardView {
            paths,
            stage: Stage::Ready,
            name: Seq::empty(),
            identities: Map::empty(),
            label: Seq::empty(),
            failure: None,
        },
        RequestView {
            notice: Some(Notice::Welcome),
            action: ActionView::Confirm { prompt: PromptView::Ready, default: None },
        },
    )
}

/// The event completes the collection: the key pair is drawn and the record
/// assembled in answer to it.
pub open spec fn seals(w: WizardView, e: EventView) -> bool {
    ||| w.stage == Stage::StatusAsk && e == EventView::Answer(false)
    ||| w.stage == Stage::StatusText && e is Line
}

/// The next state and the next request, for a state, the event that the host
/// reports, and what the draw of a key pair gives should the record be
/// assembled now.
///
/// A run that has ended stays as it is. A failure that the host reports stops
/// the run, as does a declined confirmation, as does an event of a sort that
/// the pending request did not ask for, as does a draw that gives no key
/// pair. Otherwise the gates follow one another in a fixed order, with one
/// loop: identities are asked for until the user declines.
pub open spec fn step_spec(w: WizardView, e: EventView, drawn: Result<KeyView, Seq<char>>) -> (
    WizardView,
    RequestView,
) {
    if w.finished() {
        (w, finish(w.outcome()))
    } else if let EventView::Failed(message) = e {
        w.stop(failure_kind(w.stage, message))
    } else {
        match (w.stage, e) {
            (Stage::Ready, EventView::Answer(yes)) => if yes {
                w.go(Stage::Probing, None, ActionView::Probe { path: w.paths.user_info })
            } else {
                w.stop(ErrorView::UserAborted)
            },
            (Stage::Probing, EventView::Exists(there)) => if there {
                w.go(
                    Stage::Reinit,
                    Some(Notice::AlreadyInitialized),
                    ActionView::Confirm { prompt: PromptView::Reinitialize, default: Some(false) },
                )
            } else {
                w.create_directories()
            },
            (Stage::Reinit, EventView::Answer(yes)) => if yes {
                w.create_directories()
            } else {
                w.stop(ErrorView::UserAborted)
            },
            (Stage::DataDir, EventView::Completed) => w.go(
                Stage::CacheDir,
                None,
                ActionView::CreateDir { path: w.paths.base_cache },
            ),
            (Stage::CacheDir, EventView::Completed) => w.go(
                Stage::Opening,
                open_notice(w.paths),
                ActionView::OpenSecrets { path: w.paths.user_info, mode: SECRETS_MODE },
            ),
            (Stage::Opening, EventView::Completed) => w.go(
                Stage::Name,
                Some(Notice::RequiredInfo),
                ActionView::Input { prompt: PromptView::Name },
            ),
            (Stage::Name, EventView::Line(name)) => WizardView { name, ..w }.ask_identity(
                Notice::OptionalItems,
            ),
            (Stage::IdentityAsk, EventView::Answer(yes)) => if yes {
                w.go(
                    Stage::IdentityLabel,
                    None,
                    ActionView::Input { prompt: PromptView::IdentityLabel },
                )
            } else {
                w.go(
                    Stage::StatusAsk,
                    Some(Notice::StatusIntro),
                    ActionView::Confirm { prompt: PromptView::AddStatus, default: None },
                )
            },
            (Stage::IdentityLabel, EventView::Line(label)) => WizardView { label, ..w }.go(
                Stage::IdentityValue,
                None,
                ActionView::Input { prompt: PromptView::IdentityValue(label) },
            ),
            (Stage::IdentityValue, EventView::Line(value)) => WizardView {
                identities: w.identities.insert(w.label, value),
                label: Seq::empty(),
                ..w
            }.ask_identity(Notice::CurrentIdentities),
            (Stage::StatusAsk, EventView::Answer(yes)) => if yes {
                w.go(Stage::StatusText, None, ActionView::Input { prompt: PromptView::Status })
            } else {
                w.conclude(None, drawn)
            },
            (Stage::StatusText, EventView::Line(status)) => w.conclude(Some(status), drawn),
            (Stage::Encoding, EventView::Encoded(body)) => w.go(
                Stage::Writing,
                None,
                ActionView::Write { text: secrets_file(body) },
            ),
            (Stage::Writing, EventView::Completed) => w.go(
                Stage::Done,
                Some(Notice::Initialized),
                finish(Ok(())).action,
            ),
            _ => w.stop(ErrorView::Interaction(unexpected_reply())),
        }
    }
}

/// The place of a gate in the order of the set-up.
pub open spec fn rank(stage: Stage) -> nat {
    match stage {
        Stage::Ready => 0,
        Stage::Probing => 1,
        Stage::Reinit => 2,
        Stage::DataDir => 3,
        Stage::CacheDir => 4,
        Stage::Opening => 5,
        Stage::Name => 6,
        Stage::IdentityAsk => 7,
        Stage::IdentityLabel => 8,
        Stage::IdentityValue => 9,
        Stage::StatusAsk => 10,
        Stage::StatusText => 11,
        Stage::Encoding => 12,
        Stage::Writing => 13,
        Stage::Done => 14,
        Stage::Failed => 14,
    }
}

/// There is no way back: every step moves to a later gate or ends the run,
/// but for the one loop, in which the question for another identity follows
/// the value of the last one. A run that has ended stays as it is, and a
/// declined confirmation is not asked again. The places that the set-up
/// works in stay the same throughout.
pub proof fn law_no_way_back(w: WizardView, e: EventView, drawn: Result<KeyView, Seq<char>>)
    ensures
        ({
            let next = step_spec(w, e, drawn).0;
            ||| rank(next.stage) > rank(w.stage)
            ||| w.stage == Stage::IdentityValue && next.stage == Stage::IdentityAsk
            ||| w.finished() && next == w
        }),
        step_spec(w, e, drawn).0.paths == w.paths,
{
}

/// What the draw of a key pair gave, as a request shows it: the key pair of
/// the record that it hands out to be encoded, or the message of the failure
/// with which it ends the run.
pub open spec fn draw_of(request: RequestView) -> Result<KeyView, Seq<char>> {
    match request.action {
        ActionView::Encode { record } => Ok(record.keypair),
        ActionView::Finish { result: Err(ErrorView::Io(message)) } => Err(message),
        _ => Err(Seq::empty()),
    }
}

impl View for Wizard {
    type V = WizardView;

    closed spec fn view(&self) -> WizardView {
        WizardView {
            paths: self.paths@,
            stage: self.stage,
            name: self.name@,
            identities: self.identities@,
            label: self.label@,
            failure: match self.failure {
                Some(error) => Some(error@),
                None => None,
            },
        }
    }
}

/// Begins a run of the set-up for the given places: the greeting, and the
/// question whether to start. Nothing has been touched yet.
pub fn init(paths: Paths) -> (begun: (Wizard, Request))
    ensures
        (begun.0@, begun.1@) == init_spec(paths@),
{
    let wizard = Wizard {
        paths,
        stage: Stage::Ready,
        name: String::new(),
        identities: Identities::new(),
        label: String::new(),
        failure: None,
    };
    let request = Request {
        notice: Some(Notice::Welcome),
        action: Action::Confirm { prompt: Prompt::Ready, default: None },
    };
    (wizard, request)
}

impl Wizard {
    /// What the set-up is waiting for.
    pub fn stage(&self) -> (stage: Stage)
        ensures
            stage == self@.stage,
    {
        self.stage
    }

    /// Whether the run has ended.
    pub fn is_finished(&self) -> (finished: bool)
        ensures
            finished == self@.finished(),
    {
        self.stage == Stage::Done || self.stage == Stage::Failed
    }

    /// The identities entered so far.
    pub fn identities(&self) -> (identities: &Identities)
        ensures
            identities@ == self@.identities,
    {
        &self.identities
    }

    /// Whether the collection is complete with `event`, so that
    /// [`Wizard::advance`] uses what it is given as the draw of the key pair.
    pub fn awaits_keys(&self, event: &Event) -> (awaited: bool)
        ensures
            awaited == seals(self@, event@),
    {
        match self.stage {
            Stage::StatusAsk => match event {
                Event::Answer(yes) => !*yes,
                _ => false,
            },
            Stage::StatusText => match event {
                Event::Line(_) => true,
                _ => false,
            },
            _ => false,
        }
    }

    fn go(self, stage: Stage, notice: Option<Notice>, action: Action) -> (next: (Wizard, Request))
        ensures
            (next.0@, next.1@) == self@.go(stage, notice, action@),
    {
        (Wizard { stage, ..self }, Request { notice, action })
    }

    fn stop(self, error: Error) -> (next: (Wizard, Request))
        ensures
            (next.0@, next.1@) == self@.stop(error@),
    {
        let reported = error.duplicate();
        (
            Wizard { stage: Stage::Failed, failure: Some(error), ..self },
            Request { notice: None, action: Action::Finish { result: Err(reported) } },
        )
    }

    fn create_directories(self) -> (next: (Wizard, Request))
        ensures
            (next.0@, next.1@) == self@.create_directories(),
    {
        let path = self.paths.base_data.clone();
        self.go(Stage::DataDir, Some(Notice::CreatingDirectories), Action::CreateDir { path })
    }

    fn ask_identity(self, notice: Notice) -> (next: (Wizard, Request))
        ensures
            (next.0@, next.1@) == self@.ask_identity(notice),
    {
        self.go(
            Stage::IdentityAsk,
            Some(notice),
            Action::Confirm { prompt: Prompt::AddIdentity, default: None },
        )
    }

    fn seal(self, status: Option<String>, keys: KeyMaterial) -> (next: (Wizard, Request))
        ensures
            (next.0@, next.1@) == self@.seal(optional_text(status), keys@),
    {
        let Wizard { paths, stage, name, identities, label, failure } = self;
        let record = UserRecord { name, identities, status, keypair: keys };
        let emptied = Wizard {
            paths,
            stage,
            name: String::new(),
            identities: Identities::new(),
            label,
            failure,
        };
        emptied.go(Stage::Encoding, None, Action::Encode { record })
    }

    fn outcome(&self) -> (result: Result<(), Error>)
        ensures
            (match result {
                Ok(_) => Ok(()),
                Err(error) => Err(error@),
            }) == self@.outcome(),
    {
        if self.stage == Stage::Done {
            Ok(())
        } else {
            match &self.failure {
                Some(error) => Err(error.duplicate()),
                None => Err(Error::UserAborted),
            }
        }
    }

    /// Answers an event with which the collection is not complete.
    fn respond(self, event: Event) -> (next: (Wizard, Request))
        requires
            !seals(self@, event@),
        ensures
            forall|drawn: Result<KeyView, Seq<char>>|
                (next.0@, next.1@) == #[trigger] step_spec(self@, event@, drawn),
    {
        if self.is_finished() {
            let result = self.outcome();
            return (self, Request { notice: None, action: Action::Finish { result } });
        }
        match event {
            Event::Failed(message) => {
                let error = match self.stage {
                    Stage::Probing
                    | Stage::DataDir
                    | Stage::CacheDir
                    | Stage::Opening
                    | Stage::Writing => Error::Io(message),
                    Stage::Encoding => Error::Encoding(message),
                    _ => Error::Interaction(message),
                };
                self.stop(error)
            },
            Event::Answer(yes) => match self.stage {
                Stage::Ready => if yes {
                    let path = self.paths.user_info.clone();
                    self.go(Stage::Probing, None, Action::Probe { path })
                } else {
                    self.stop(Error::UserAborted)
                },
                Stage::Reinit => if yes {
                    self.create_directories()
                } else {
                    self.stop(Error::UserAborted)
                },
                Stage::IdentityAsk => if yes {
                    self.go(
                        Stage::IdentityLabel,
                        None,
                        Action::Input { prompt: Prompt::IdentityLabel },
                    )
                } else {
                    self.go(
                        Stage::StatusAsk,
                        Some(Notice::StatusIntro),
                        Action::Confirm { prompt: Prompt::AddStatus, default: None },
                    )
                },
                Stage::StatusAsk => self.go(
                    Stage::StatusText,
                    None,
                    Action::Input { prompt: Prompt::Status },
                ),
                _ => self.unexpected(),
            },
            Event::Exists(there) => match self.stage {
                Stage::Probing => if there {
                    self.go(
                        Stage::Reinit,
                        Some(Notice::AlreadyInitialized),
                        Action::Confirm { prompt: Prompt::Reinitialize, default: Some(false) },
                    )
                } else {
                    self.create_directories()
                },
                _ => self.unexpected(),
            },
            Event::Completed => match self.stage {
                Stage::DataDir => {
                    let path = self.paths.base_cache.clone();
                    self.go(Stage::CacheDir, None, Action::CreateDir { path })
                },
                Stage::CacheDir => {
                    let path = self.paths.user_info.clone();
                    let notice = if self.paths.permission_bits {
                        None
                    } else {
                        Some(Notice::RestrictAccess)
                    };
                    self.go(Stage::Opening, notice, Action::OpenSecrets { path, mode: SECRETS_MODE })
                },
                Stage::Opening => self.go(
                    Stage::Name,
                    Some(Notice::RequiredInfo),
                    Action::Input { prompt: Prompt::Name },
                ),
                Stage::Writing => self.go(
                    Stage::Done,
                    Some(Notice::Initialized),
                    Action::Finish { result: Ok(()) },
                ),
                _ => self.unexpected(),
            },
            Event::Line(text) => match self.stage {
                Stage::Name => {
                    let named = Wizard { name: text, ..self };
                    named.ask_identity(Notice::OptionalItems)
                },
                Stage::IdentityLabel => {
                    let prompt = Prompt::IdentityValue(text.clone());
                    let labelled = Wizard { label: text, ..self };
                    labelled.go(Stage::IdentityValue, None, Action::Input { prompt })
                },
                Stage::IdentityValue => {
                    let Wizard { paths, stage, name, identities, label, failure } = self;
                    let mut identities = identities;
                    identities.insert(label, text);
                    let extended = Wizard {
                        paths,
                        stage,
                        name,
                        identities,
                        label: String::new(),
                        failure,
                    };
                    extended.ask_identity(Notice::CurrentIdentities)
                },
                _ => self.unexpected(),
            },
            Event::Encoded(body) => match self.stage {
                Stage::Encoding => {
                    let text = secrets_file_text(&body);
                    self.go(Stage::Writing, None, Action::Write { text })
                },
                _ => self.unexpected(),
            },
        }
    }

    fn unexpected(self) -> (next: (Wizard, Request))
        ensures
            (next.0@, next.1@) == self@.stop(ErrorView::Interaction(unexpected_reply())),
    {
        self.stop(Error::Interaction("the reply does not answer the request".to_owned()))
    }

    /// The next state and request, with `drawn` as what the draw of a key pair
    /// gives should the collection be complete with `event`: the key pair of
    /// the record, or the message of the failure on which the run stops.
    pub fn advance(self, event: Event, drawn: Result<KeyMaterial, String>) -> (next: (
        Wizard,
        Request,
    ))
        ensures
            (next.0@, next.1@) == step_spec(self@, event@, draw_view(drawn)),
    {
        if self.awaits_keys(&event) {
            let status = match event {
                Event::Line(text) => Some(text),
                _ => None,
            };
            match drawn {
                Ok(keys) => self.seal(status, keys),
                Err(message) => self.stop(Error::Io(message)),
            }
        } else {
            self.respond(event)
        }
    }

    /// The next state and request. Where the collection is complete with
    /// `event`, a key pair is drawn at this moment and not before, from the
    /// random source of the operating system, and the record is handed out
    /// with it. Where the operating system has no random bytes to give, the
    /// run stops there with that failure, and no record is handed out.
    pub fn step(self, event: Event) -> (next: (Wizard, Request))
        ensures
            (next.0@, next.1@) == step_spec(self@, event@, draw_of(next.1@)),
            !seals(self@, event@) ==> !(next.1@.action is Encode),
            seals(self@, event@) ==> next.1@.action is Encode || next.1@.action is Finish,
            draw_of(next.1@) matches Ok(keys) ==> keys.consistent(),
    {
        let ghost before = self@;
        let ghost reported = event@;
        if self.awaits_keys(&event) {
            let drawn = KeyMaterial::generate();
            self.advance(event, drawn)
        } else {
            let next = self.respond(event);
            proof {
                let none: Result<KeyView, Seq<char>> = Err(Seq::empty());
                assert((next.0@, next.1@) == step_spec(before, reported, none));
            }
            next
        }
    }
}

} // verus!
