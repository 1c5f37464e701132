//! Changing the password of an administrator: the form, and what the handler
//! decides between its calls to the session and the database.
//!
//! The handler reads the user from the session, looks up the user's name,
//! checks the current password and stores the new one. After each of these it
//! hands the outcome to `step`, which says what to do next. Whatever fails in
//! the session or the database ends in a server error; what is wrong with the
//! form ends in a redirection back to the form with a notice.

use vstd::prelude::*;
use vstd::string::*;
use crate::ids::UserId;
use crate::routes::flash::{flash_html, render_flash_messages, texts};

verus! {

/// The page up to the flash messages.
pub const PAGE_HEAD: &'static str = "<!DOCTYPE html>\n<html lang=\"e\">\n<head>\n    <meta http-equiv=\"content-type\" content=\"text/html; charset=utf-8\">\n    <title>Change Password</title>\n</head>\n<body>\n    ";

/// The page after the flash messages.
pub const PAGE_TAIL: &'static str = "\n    <form action=\"/admin/password\" method=\"post\">\n        <label>Current password\n            <input type=\"password\" placeholder=\"Enter current password\" name=\"current_password\">\n        </label>\n\n        <br>\n\n        <label>New password\n            <input type=\"password\" placeholder=\"Enter new password\" name=\"new_password\">\n        </label>\n\n        <br>\n\n        <label>Confirm new password\n            <input type=\"password\" placeholder=\"Confirm new password\" name=\"new_password_check\">\n        </label>\n\n    </form>\n\n    <p><a href=\"/admin/dashboard\">&lt;- Back</a></p>\n</body>\n</html>\n\n\n        ";

/// The page with the form, showing `messages`.
pub open spec fn change_password_page(messages: Seq<Seq<char>>) -> Seq<char> {
    PAGE_HEAD@ + flash_html(messages) + PAGE_TAIL@
}

/// Renders the page with the form to change the password, with the flash
/// messages of the session above the form.
pub fn render_change_password_form(messages: &Vec<String>) -> (page: String)
    ensures
        page@ == change_password_page(texts(messages@)),
{
    let mut page = String::from_str(PAGE_HEAD);
    let shown = render_flash_messages(messages);
    page.append(shown.as_str());
    page.append(PAGE_TAIL);
    page
}

/// Where a redirection leads.
#[derive(Clone, Copy, Debug, PartialEq, Eq, Structural)]
pub enum Location {
    Login,
    PasswordForm,
}

impl Location {
    /// The path of the location.
    pub open spec fn spec_path(self) -> Seq<char> {
        match self {
            Location::Login => "/login"@,
            Location::PasswordForm => "/admin/password"@,
        }
    }

    /// The path of the location.
    pub fn path(&self) -> (path: &'static str)
        ensures
            path@ == self.spec_path(),
    {
        match self {
            Location::Login => "/login",
            Location::PasswordForm => "/admin/password",
        }
    }
}

/// What the user is told on the next page.
#[derive(Clone, Copy, Debug, PartialEq, Eq, Structural)]
pub enum Notice {
    PasswordsDiffer,
    CurrentPasswordIncorrect,
    NewPasswordUnacceptable,
    PasswordChanged,
}

impl Notice {
    /// The text of the notice.
    pub open spec fn spec_text(self) -> Seq<char> {
        match self {
            Notice::PasswordsDiffer => "You entered two different new passwords - the field values must match."@,
            Notice::CurrentPasswordIncorrect => "The current password is incorrect."@,
            Notice::NewPasswordUnacceptable => "The new password must be longer than 12 characters and shorter than 129 characters."@,
            Notice::PasswordChanged => "Your password has been changed."@,
        }
    }

    /// The text of the notice.
    pub fn text(&self) -> (text: &'static str)
        ensures
            text@ == self.spec_text(),
    {
        match self {
            Notice::PasswordsDiffer => "You entered two different new passwords - the field values must match.",
            Notice::CurrentPasswordIncorrect => "The current password is incorrect.",
            Notice::NewPasswordUnacceptable => "The new password must be longer than 12 characters and shorter than 129 characters.",
            Notice::PasswordChanged => "Your password has been changed.",
        }
    }

    /// Whether the notice reports success; the others report an error.
    pub fn is_success(&self) -> (success: bool)
        ensures
            success == (*self == Notice::PasswordChanged),
    {
        match self {
            Notice::PasswordChanged => true,
            _ => false,
        }
    }
}

/// The answer to the request.
#[derive(Clone, Copy, Debug, PartialEq, Eq)]
pub enum Reply {
    /// A server error: the session or the database failed.
    ServerError,
    /// A redirection, with a notice for the next page if there is one.
    SeeOther { to: Location, notice: Option<Notice> },
}

/// What the form holds, as far as the decisions need it.
#[derive(Clone, Copy, Debug, PartialEq, Eq)]
pub struct FormFacts {
    /// The new password and its repetition are equal.
    pub passwords_match: bool,
    /// The new password is an acceptable password.
    pub new_password_acceptable: bool,
}

/// What the session said of the user.
#[derive(Clone, Copy, Debug, PartialEq, Eq)]
pub enum SessionUser {
    /// The session could not be read.
    Failed,
    /// Nobody is logged in.
    Anonymous,
    /// This user is logged in.
    LoggedIn(UserId),
}

/// What the check of the current password gave.
#[derive(Clone, Copy, Debug, PartialEq, Eq, Structural)]
pub enum CredentialCheck {
    Valid,
    /// The current password is wrong.
    Invalid,
    /// The check itself failed.
    Failed,
}

/// How far the handler has come.
#[derive(Clone, Copy, Debug, PartialEq, Eq)]
pub enum ChangeState {
    /// The session is being read.
    ReadingSession,
    /// The name of the user is being looked up.
    LookingUpUsername(UserId),
    /// The current password is being checked.
    CheckingCredentials(UserId),
    /// The new password is being stored.
    StoringPassword(UserId),
    /// The request is answered.
    Answered,
}

/// What happened since the last step.
#[derive(Clone, Copy, Debug, PartialEq, Eq)]
pub enum ChangeEvent {
    /// The session was read.
    Session(SessionUser),
    /// The name of the user was looked up; `false` says that the lookup failed.
    Username(bool),
    /// The current password was checked.
    Credentials(CredentialCheck),
    /// The new password was stored; `false` says that storing failed.
    Stored(bool),
}

/// What the handler is to do next.
#[derive(Clone, Copy, Debug, PartialEq, Eq)]
pub enum ChangeAction {
    /// Look up the name of this user; answer with `Username`.
    LookUpUsername(UserId),
    /// Check the current password of this user; answer with `Credentials`.
    CheckCredentials(UserId),
    /// Store the new password of this user; answer with `Stored`.
    StorePassword(UserId),
    /// Answer the request.
    Respond(Reply),
    /// The event does not belong to the state: nothing is to be done.
    Ignore,
}

/// A redirection back to the form with a notice.
pub open spec fn back_to_form(notice: Notice) -> (ChangeState, ChangeAction) {
    (
        ChangeState::Answered,
        ChangeAction::Respond(Reply::SeeOther { to: Location::PasswordForm, notice: Some(notice) }),
    )
}

/// A server error.
pub open spec fn server_error() -> (ChangeState, ChangeAction) {
    (ChangeState::Answered, ChangeAction::Respond(Reply::ServerError))
}

/// The state that follows `state` on `event`, and the action to perform.
pub open spec fn next(form: FormFacts, state: ChangeState, event: ChangeEvent) -> (
    ChangeState,
    ChangeAction,
) {
    match (state, event) {
        (ChangeState::ReadingSession, ChangeEvent::Session(SessionUser::Failed)) => server_error(),
        (ChangeState::ReadingSession, ChangeEvent::Session(SessionUser::Anonymous)) => (
            ChangeState::Answered,
            ChangeAction::Respond(Reply::SeeOther { to: Location::Login, notice: None }),
        ),
        (ChangeState::ReadingSession, ChangeEvent::Session(SessionUser::LoggedIn(user_id))) => {
            if form.passwords_match {
                (ChangeState::LookingUpUsername(user_id), ChangeAction::LookUpUsername(user_id))
            } else {
                back_to_form(Notice::PasswordsDiffer)
            }
        },
        (ChangeState::LookingUpUsername(user_id), ChangeEvent::Username(found)) => {
            if found {
                (ChangeState::CheckingCredentials(user_id), ChangeAction::CheckCredentials(user_id))
            } else {
                server_error()
            }
        },
        (ChangeState::CheckingCredentials(user_id), ChangeEvent::Credentials(check)) => match check {
            CredentialCheck::Failed => server_error(),
            CredentialCheck::Invalid => back_to_form(Notice::CurrentPasswordIncorrect),
            CredentialCheck::Valid => {
                if form.new_password_acceptable {
                    (ChangeState::StoringPassword(user_id), ChangeAction::StorePassword(user_id))
                } else {
                    back_to_form(Notice::NewPasswordUnacceptable)
                }
            },
        },
        (ChangeState::StoringPassword(_), ChangeEvent::Stored(stored)) => {
            if stored {
                back_to_form(Notice::PasswordChanged)
            } else {
                server_error()
            }
        },
        _ => (state, ChangeAction::Ignore),
    }
}

/// Makes the redirection back to the form with a notice.
fn redirect_to_form(notice: Notice) -> (r: (ChangeState, ChangeAction))
    ensures
        r == back_to_form(notice),
{
    (
        ChangeState::Answered,
        ChangeAction::Respond(Reply::SeeOther { to: Location::PasswordForm, notice: Some(notice) }),
    )
}

/// Makes the server error.
fn fail() -> (r: (ChangeState, ChangeAction))
    ensures
        r == server_error(),
{
    (ChangeState::Answered, ChangeAction::Respond(Reply::ServerError))
}

/// Takes the outcome of the handler's last call and says what to do next. The
/// handler starts in `ChangeState::ReadingSession`, by reading the session.
pub fn step(form: FormFacts, state: ChangeState, event: ChangeEvent) -> (r: (ChangeState, ChangeAction))
    ensures
        r == next(form, state, event),
{
    match state {
        ChangeState::ReadingSession => match event {
            ChangeEvent::Session(SessionUser::Failed) => fail(),
            ChangeEvent::Session(SessionUser::Anonymous) => (
                ChangeState::Answered,
                ChangeAction::Respond(Reply::SeeOther { to: Location::Login, notice: None }),
            ),
            ChangeEvent::Session(SessionUser::LoggedIn(user_id)) => {
                if form.passwords_match {
                    (ChangeState::LookingUpUsername(user_id), ChangeAction::LookUpUsername(user_id))
                } else {
                    redirect_to_form(Notice::PasswordsDiffer)
                }
            },
            _ => (state, ChangeAction::Ignore),
        },
        ChangeState::LookingUpUsername(user_id) => match event {
            ChangeEvent::Username(found) => {
                if found {
                    (ChangeState::CheckingCredentials(user_id), ChangeAction::CheckCredentials(user_id))
                } else {
                    fail()
                }
            },
            _ => (state, ChangeAction::Ignore),
        },
        ChangeState::CheckingCredentials(user_id) => match event {
            ChangeEvent::Credentials(CredentialCheck::Failed) => fail(),
            ChangeEvent::Credentials(CredentialCheck::Invalid) => redirect_to_form(
                Notice::CurrentPasswordIncorrect,
            ),
            ChangeEvent::Credentials(CredentialCheck::Valid) => {
                if form.new_password_acceptable {
                    (ChangeState::StoringPassword(user_id), ChangeAction::StorePassword(user_id))
                } else {
                    redirect_to_form(Notice::NewPasswordUnacceptable)
                }
            },
            _ => (state, ChangeAction::Ignore),
        },
        ChangeState::StoringPassword(_) => match event {
            ChangeEvent::Stored(stored) => {
                if stored {
                    redirect_to_form(Notice::PasswordChanged)
                } else {
                    fail()
                }
            },
            _ => (state, ChangeAction::Ignore),
        },
        ChangeState::Answered => (state, ChangeAction::Ignore),
    }
}

} // verus!
