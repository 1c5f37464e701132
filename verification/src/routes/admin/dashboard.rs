//! The dashboard of an administrator.

use vstd::prelude::*;
use vstd::string::*;

verus! {

/// The page up to the name of the user.
pub const PAGE_HEAD: &'static str = "<!DOCTYPE html>\n<html>\n    <head>\n        <meta http-equiv=\"content-type\" content=\"text/html; charset=utf-8\">\n        <title>Admin dashboard</title>\n    </head>\n    <body>\n        <p>Welcome ";

/// The page after the name of the user.
pub const PAGE_TAIL: &'static str = "</p>\n        <p><a href=\"/admin/password\">Change password</a></p>\n\n        <form name=\"logoutForm\" action=\"/admin/logout\" method=\"post\">\n            <input type=\"submit\" value=\"Logout\">\n        </form>\n    </body>\n</html>";

/// The dashboard page that welcomes `username`.
pub open spec fn dashboard_page(username: Seq<char>) -> Seq<char> {
    PAGE_HEAD@ + username + PAGE_TAIL@
}

/// Renders the dashboard page for a user. The name is put into the page as it
/// is given.
pub fn render_dashboard(username: &str) -> (page: String)
    ensures
        page@ == dashboard_page(username@),
{
    let mut page = String::from_str(PAGE_HEAD);
    page.append(username);
    page.append(PAGE_TAIL);
    page
}

} // verus!
