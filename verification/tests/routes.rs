use newsletter_backend::routes::admin::dashboard::render_dashboard;
use newsletter_backend::routes::admin::newsletters::render_send_issue_form;
use newsletter_backend::routes::admin::password::{
    render_change_password_form, step, ChangeAction, ChangeEvent, ChangeState, CredentialCheck,
    FormFacts, Location, Notice, Reply, SessionUser,
};
use newsletter_backend::routes::flash::render_flash_messages;
use newsletter_backend::routes::subscriptions_confirm::{
    after_confirmation, after_token_lookup, ConfirmStep, Parameters, TokenLookup,
};

const GOOD: FormFacts = FormFacts { passwords_match: true, new_password_acceptable: true };

fn back(notice: Notice) -> (ChangeState, ChangeAction) {
    (
        ChangeState::Answered,
        ChangeAction::Respond(Reply::SeeOther { to: Location::PasswordForm, notice: Some(notice) }),
    )
}

fn server_error() -> (ChangeState, ChangeAction) {
    (ChangeState::Answered, ChangeAction::Respond(Reply::ServerError))
}

#[test]
fn flash_messages_are_paragraphs_in_italics() {
    assert_eq!(render_flash_messages(&Vec::new()), "");
    assert_eq!(
        render_flash_messages(&vec!["The current password is incorrect.".to_string()]),
        "<p><i>The current password is incorrect.</i></p>\n"
    );
    assert_eq!(
        render_flash_messages(&vec!["one".to_string(), String::new(), "three".to_string()]),
        "<p><i>one</i></p>\n<p><i></i></p>\n<p><i>three</i></p>\n"
    );
}

#[test]
fn logged_user_can_get_send_issuer_form() {
    let page = render_send_issue_form(&Vec::new());
    assert!(page.contains("<p>Send new issue</p>"));
    assert!(page.starts_with("<!DOCTYPE html>\n<html lang=\"en\">\n"));
    assert!(page.ends_with("</html>\n"));
    assert!(page.contains("<form action=\"/admin/newsletters\" method=\"post\">"));
    assert!(page.contains("name=\"text_content\""));
}

#[test]
fn the_send_issue_form_shows_the_flash_messages() {
    let page =
        render_send_issue_form(&vec!["The newsletter issue has been published!".to_string()]);
    assert!(page.contains("<p><i>The newsletter issue has been published!</i></p>"));
    assert!(page.contains(
        "<p>Send new issue</p>\n        <p><i>The newsletter issue has been published!</i></p>\n\n        <form"
    ));
    let empty = render_send_issue_form(&Vec::new());
    assert_eq!(
        page.len(),
        empty.len() + "<p><i>The newsletter issue has been published!</i></p>\n".len()
    );
}

#[test]
fn the_change_password_form_shows_the_flash_messages() {
    let page = render_change_password_form(&vec!["Your password has been changed.".to_string()]);
    assert!(page.starts_with("<!DOCTYPE html>\n<html lang=\"e\">\n<head>"));
    assert!(page.contains("<title>Change Password</title>"));
    assert!(page.contains(
        "<body>\n    <p><i>Your password has been changed.</i></p>\n\n    <form action=\"/admin/password\" method=\"post\">"
    ));
    assert!(page.contains("name=\"new_password_check\""));
    assert!(page.ends_with("</html>\n\n\n        "));
}

#[test]
fn the_dashboard_welcomes_the_user() {
    let page = render_dashboard("ursula");
    assert!(page.starts_with("<!DOCTYPE html>\n<html>\n    <head>"));
    assert!(page.contains("<title>Admin dashboard</title>"));
    assert!(page.contains("<p>Welcome ursula</p>"));
    assert!(page.contains("<form name=\"logoutForm\" action=\"/admin/logout\" method=\"post\">"));
    assert!(page.ends_with("    </body>\n</html>"));
    assert_eq!(render_dashboard("").len() + 6, page.len());
}

#[test]
fn parameters_hold_the_token() {
    let parameters = Parameters { subscription_token: "token".to_string() };
    assert_eq!(parameters.subscription_token, "token");
    assert_eq!(parameters.clone(), parameters);
}

#[test]
fn confirmation_decides_on_the_lookup() {
    assert_eq!(after_token_lookup(TokenLookup::Failed), ConfirmStep::Respond(500));
    assert_eq!(after_token_lookup(TokenLookup::Unknown), ConfirmStep::Respond(401));
    assert_eq!(after_token_lookup(TokenLookup::Found(77)), ConfirmStep::MarkConfirmed(77));
    assert_eq!(after_confirmation(true), 200);
    assert_eq!(after_confirmation(false), 500);
}

#[test]
fn locations_and_notices() {
    assert_eq!(Location::Login.path(), "/login");
    assert_eq!(Location::PasswordForm.path(), "/admin/password");
    assert_eq!(
        Notice::PasswordsDiffer.text(),
        "You entered two different new passwords - the field values must match."
    );
    assert_eq!(Notice::CurrentPasswordIncorrect.text(), "The current password is incorrect.");
    assert_eq!(
        Notice::NewPasswordUnacceptable.text(),
        "The new password must be longer than 12 characters and shorter than 129 characters."
    );
    assert_eq!(Notice::PasswordChanged.text(), "Your password has been changed.");
    assert!(Notice::PasswordChanged.is_success());
    assert!(!Notice::PasswordsDiffer.is_success());
    assert!(!Notice::CurrentPasswordIncorrect.is_success());
    assert!(!Notice::NewPasswordUnacceptable.is_success());
}

#[test]
fn a_password_change_that_goes_through() {
    let (state, action) = step(GOOD, ChangeState::ReadingSession, ChangeEvent::Session(SessionUser::LoggedIn(5)));
    assert_eq!((state, action), (ChangeState::LookingUpUsername(5), ChangeAction::LookUpUsername(5)));
    let (state, action) = step(GOOD, state, ChangeEvent::Username(true));
    assert_eq!((state, action), (ChangeState::CheckingCredentials(5), ChangeAction::CheckCredentials(5)));
    let (state, action) = step(GOOD, state, ChangeEvent::Credentials(CredentialCheck::Valid));
    assert_eq!((state, action), (ChangeState::StoringPassword(5), ChangeAction::StorePassword(5)));
    assert_eq!(step(GOOD, state, ChangeEvent::Stored(true)), back(Notice::PasswordChanged));
}

#[test]
fn must_be_logged_in_to_change_the_password() {
    assert_eq!(
        step(GOOD, ChangeState::ReadingSession, ChangeEvent::Session(SessionUser::Anonymous)),
        (
            ChangeState::Answered,
            ChangeAction::Respond(Reply::SeeOther { to: Location::Login, notice: None })
        )
    );
    assert_eq!(
        step(GOOD, ChangeState::ReadingSession, ChangeEvent::Session(SessionUser::Failed)),
        server_error()
    );
}

#[test]
fn the_new_passwords_must_match() {
    let differ = FormFacts { passwords_match: false, new_password_acceptable: true };
    assert_eq!(
        step(differ, ChangeState::ReadingSession, ChangeEvent::Session(SessionUser::LoggedIn(5))),
        back(Notice::PasswordsDiffer)
    );
    // Who is not logged in is sent to the login page first.
    assert_eq!(
        step(differ, ChangeState::ReadingSession, ChangeEvent::Session(SessionUser::Anonymous)),
        (
            ChangeState::Answered,
            ChangeAction::Respond(Reply::SeeOther { to: Location::Login, notice: None })
        )
    );
}

#[test]
fn the_current_password_must_be_right() {
    assert_eq!(
        step(GOOD, ChangeState::CheckingCredentials(5), ChangeEvent::Credentials(CredentialCheck::Invalid)),
        back(Notice::CurrentPasswordIncorrect)
    );
    assert_eq!(
        step(GOOD, ChangeState::CheckingCredentials(5), ChangeEvent::Credentials(CredentialCheck::Failed)),
        server_error()
    );
}

#[test]
fn the_new_password_must_be_acceptable() {
    let weak = FormFacts { passwords_match: true, new_password_acceptable: false };
    assert_eq!(
        step(weak, ChangeState::CheckingCredentials(5), ChangeEvent::Credentials(CredentialCheck::Valid)),
        back(Notice::NewPasswordUnacceptable)
    );
    // A wrong current password is reported before a weak new one.
    assert_eq!(
        step(weak, ChangeState::CheckingCredentials(5), ChangeEvent::Credentials(CredentialCheck::Invalid)),
        back(Notice::CurrentPasswordIncorrect)
    );
}

#[test]
fn failures_of_the_database_are_server_errors() {
    assert_eq!(step(GOOD, ChangeState::LookingUpUsername(5), ChangeEvent::Username(false)), server_error());
    assert_eq!(step(GOOD, ChangeState::StoringPassword(5), ChangeEvent::Stored(false)), server_error());
}

#[test]
fn password_events_out_of_turn_are_ignored() {
    assert_eq!(
        step(GOOD, ChangeState::ReadingSession, ChangeEvent::Stored(true)),
        (ChangeState::ReadingSession, ChangeAction::Ignore)
    );
    assert_eq!(
        step(GOOD, ChangeState::Answered, ChangeEvent::Session(SessionUser::LoggedIn(5))),
        (ChangeState::Answered, ChangeAction::Ignore)
    );
    assert_eq!(
        step(GOOD, ChangeState::StoringPassword(5), ChangeEvent::Username(true)),
        (ChangeState::StoringPassword(5), ChangeAction::Ignore)
    );
}
