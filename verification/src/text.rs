//! What the set-up says to the user, and the banner of the secrets file.

use vstd::prelude::*;
use vstd::string::*;

verus! {

/// A passage that the host shows before it performs a request.
#[derive(Clone, Copy, Debug, PartialEq, Eq, Structural)]
pub enum Notice {
    /// The greeting at the start.
    Welcome,
    /// A secrets file is there already; going on erases keys and data.
    AlreadyInitialized,
    /// The directories are about to be created.
    CreatingDirectories,
    /// The secrets file cannot be created for its owner alone: the user is
    /// to restrict access to it.
    RestrictAccess,
    /// The files are in place; the required questions follow.
    RequiredInfo,
    /// The required questions are done; identities are explained.
    OptionalItems,
    /// Heading of the identities entered so far, which the host lists.
    CurrentIdentities,
    /// The status message is explained.
    StatusIntro,
    /// The secrets file has been written.
    Initialized,
}

/// The warning to a user whose secrets file, at `path`, cannot be created
/// for its owner alone.
pub open spec fn restrict_access_warning(path: Seq<char>) -> Seq<char> {
    "Warning! You should set the permissions for "@ + path
        + " to only be readable by this user!"@
}

/// The warning that the user has to restrict access to the secrets file at
/// `path` by hand.
pub fn restrict_access_text(path: &String) -> (text: String)
    ensures
        text@ == restrict_access_warning(path@),
{
    let head = "Warning! You should set the permissions for ".to_owned();
    head.concat(path.as_str()).concat(" to only be readable by this user!")
}

impl Notice {
    /// The passage, line breaks included, for a set-up whose secrets file is
    /// at `secrets`.
    pub open spec fn text(self, secrets: Seq<char>) -> Seq<char> {
        match self {
            Notice::Welcome => "Welcome to frauth!"@,
            Notice::AlreadyInitialized =>
                "\nIt looks like you've already initialized frauth.\nDo you want to re-initialize? THIS WILL ERASE YOUR EXISTING KEYS AND DATA!"@,
            Notice::CreatingDirectories => "\nCreating directories..."@,
            Notice::RestrictAccess => restrict_access_warning(secrets),
            Notice::RequiredInfo =>
                "Done.\n\nOkay! We'll get started by collecting some required info."@,
            Notice::OptionalItems =>
                "\nOkay, that's everything that's required. Now let's collect some optional items.\n\nWe'll now collect any identities you'd like to associate with yourself. You can add as many as you like.\nThese identities will be publicly visible to anyone.\n\nIdentities have a 'name', like 'twitter', 'email', 'mobile', etc.\nand an 'id', like 'my_twitter_id', 'me@example.com', or '+4912345678901'."@,
            Notice::CurrentIdentities => "\nCurrent identities:"@,
            Notice::StatusIntro =>
                "\nWould you like to add a public status message? You can change or add this later as well."@,
            Notice::Initialized => "\nfrauth has been initialized!"@,
        }
    }

    /// The passage as a string to print, for a set-up whose secrets file is
    /// at `secrets`.
    pub fn to_text(self, secrets: &String) -> (text: String)
        ensures
            text@ == self.text(secrets@),
    {
        match self {
            Notice::Welcome => "Welcome to frauth!".to_owned(),
            Notice::AlreadyInitialized =>
                "\nIt looks like you've already initialized frauth.\nDo you want to re-initialize? THIS WILL ERASE YOUR EXISTING KEYS AND DATA!".to_owned(),
            Notice::CreatingDirectories => "\nCreating directories...".to_owned(),
            Notice::RestrictAccess => restrict_access_text(secrets),
            Notice::RequiredInfo =>
                "Done.\n\nOkay! We'll get started by collecting some required info.".to_owned(),
            Notice::OptionalItems =>
                "\nOkay, that's everything that's required. Now let's collect some optional items.\n\nWe'll now collect any identities you'd like to associate with yourself. You can add as many as you like.\nThese identities will be publicly visible to anyone.\n\nIdentities have a 'name', like 'twitter', 'email', 'mobile', etc.\nand an 'id', like 'my_twitter_id', 'me@example.com', or '+4912345678901'.".to_owned(),
            Notice::CurrentIdentities => "\nCurrent identities:".to_owned(),
            Notice::StatusIntro =>
                "\nWould you like to add a public status message? You can change or add this later as well.".to_owned(),
            Notice::Initialized => "\nfrauth has been initialized!".to_owned(),
        }
    }
}

/// A question put to the user.
#[derive(Debug)]
pub enum Prompt {
    /// The general go-ahead.
    Ready,
    /// Go on although keys and data will be erased.
    Reinitialize,
    /// The display name.
    Name,
    /// Whether to add or update an identity.
    AddIdentity,
    /// The label of an identity.
    IdentityLabel,
    /// The value of the identity with the given label.
    IdentityValue(String),
    /// Whether to add a status message.
    AddStatus,
    /// The status message.
    Status,
}

/// The mathematical value of a [`Prompt`].
pub enum PromptView {
    Ready,
    Reinitialize,
    Name,
    AddIdentity,
    IdentityLabel,
    IdentityValue(Seq<char>),
    AddStatus,
    Status,
}

impl PromptView {
    /// The wording of the question.
    pub open spec fn text(self) -> Seq<char> {
        match self {
            PromptView::Ready => "Ready to get started?"@,
            PromptView::Reinitialize => "Continue?"@,
            PromptView::Name => "What name do you want to go by?"@,
            PromptView::AddIdentity => "\nAdd/Update an identity?"@,
            PromptView::IdentityLabel => "\nIdentity name"@,
            PromptView::IdentityValue(label) => label + " id"@,
            PromptView::AddStatus => "\nAdd a status?"@,
            PromptView::Status => "\nStatus"@,
        }
    }
}

impl View for Prompt {
    type V = PromptView;

    open spec fn view(&self) -> PromptView {
        match self {
            Prompt::Ready => PromptView::Ready,
            Prompt::Reinitialize => PromptView::Reinitialize,
            Prompt::Name => PromptView::Name,
            Prompt::AddIdentity => PromptView::AddIdentity,
            Prompt::IdentityLabel => PromptView::IdentityLabel,
            Prompt::IdentityValue(label) => PromptView::IdentityValue(label@),
            Prompt::AddStatus => PromptView::AddStatus,
            Prompt::Status => PromptView::Status,
        }
    }
}

impl Prompt {
    /// The wording of the question.
    pub fn to_text(&self) -> (text: String)
        ensures
            text@ == self@.text(),
    {
        match self {
            Prompt::Ready => "Ready to get started?".to_owned(),
            Prompt::Reinitialize => "Continue?".to_owned(),
            Prompt::Name => "What name do you want to go by?".to_owned(),
            Prompt::AddIdentity => "\nAdd/Update an identity?".to_owned(),
            Prompt::IdentityLabel => "\nIdentity name".to_owned(),
            Prompt::IdentityValue(label) => label.clone().concat(" id"),
            Prompt::AddStatus => "\nAdd a status?".to_owned(),
            Prompt::Status => "\nStatus".to_owned(),
        }
    }
}

/// The banner at the top of the secrets file. It is a comment to the reader
/// and no part of the encoded record.
pub open spec fn secrets_header() -> Seq<char> {
    "\n# User information, generated by a really early version of frauth.\n#\n# THIS FILE CONTAINS SECRET DATA! You should never post or share it anywhere!\n#\n# Instead, use command (TODO) to generate the file to publish publicly.\n"@
}

/// The whole text of a secrets file: the banner, then the encoded record.
pub open spec fn secrets_file(body: Seq<char>) -> Seq<char> {
    secrets_header() + body
}

/// Puts the banner in front of an encoded record.
pub fn secrets_file_text(body: &String) -> (text: String)
    ensures
        text@ == secrets_file(body@),
{
    let banner =
        "\n# User information, generated by a really early version of frauth.\n#\n# THIS FILE CONTAINS SECRET DATA! You should never post or share it anywhere!\n#\n# Instead, use command (TODO) to generate the file to publish publicly.\n".to_owned();
    banner.concat(body.as_str())
}

} // verus!
