//! The form by which an administrator sends a new issue.

use vstd::prelude::*;
use vstd::string::*;
use crate::routes::flash::{flash_html, render_flash_messages, texts};

verus! {

/// The page up to the flash messages.
pub const PAGE_HEAD: &'static str = "<!DOCTYPE html>\n<html lang=\"en\">\n    <head>\n        <meta http-equiv=\"content-type\" content=\"text/html; charset=utf-8\">\n        <title>Send new issue</title>\n    </head>\n    <body>\n        <p>Send new issue</p>\n        ";

/// The page after the flash messages.
pub const PAGE_TAIL: &'static str = "\n        <form action=\"/admin/newsletters\" method=\"post\">\n            <label>Title\n                <input\n                    type=\"text\"\n                    placeholder=\"Enter title\"\n                    name=\"subject\"\n                >\n            </label>\n\n            <label>Text Content\n                <textarea\n                    placeholder=\"Enter the content in plaint text\"\n                    name=\"text_content\"\n                    rows=\"20\"\n                    cols=\"50\"\n                ></textarea>\n            </label>\n\n            <label>HTML Content\n                <textarea\n                    placeholder=\"Enter the content in HTML format\"\n                    name=\"html_content\"\n                    rows=\"20\"\n                    cols=\"50\"\n                ></textarea>\n            </label>\n\n            <button type=\"submit\">Publish</button>\n        </form>\n\n        <p><a href=\"/admin/dashboard\">&lt;- Back</a></p>\n    </body>\n</html>\n";

/// The page with the form, showing `messages`.
pub open spec fn send_issue_page(messages: Seq<Seq<char>>) -> Seq<char> {
    PAGE_HEAD@ + flash_html(messages) + PAGE_TAIL@
}

/// Renders the page with the form for a new issue, with the flash messages of
/// the session above the form.
pub fn render_send_issue_form(messages: &Vec<String>) -> (page: String)
    ensures
        page@ == send_issue_page(texts(messages@)),
{
    let mut page = String::from_str(PAGE_HEAD);
    let shown = render_flash_messages(messages);
    page.append(shown.as_str());
    page.append(PAGE_TAIL);
    page
}

} // verus!
