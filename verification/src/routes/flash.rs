//! Flash messages as they are shown on a page.

use vstd::prelude::*;
use vstd::string::*;

verus! {

/// The texts of a list of messages.
pub open spec fn texts(messages: Seq<String>) -> Seq<Seq<char>> {
    messages.map_values(|message: String| message@)
}

/// One message on a page: a paragraph in italics, and a line break after it.
pub open spec fn flash_paragraph(message: Seq<char>) -> Seq<char> {
    "<p><i>"@ + message + "</i></p>\n"@
}

/// The messages on a page: one paragraph each, in their order.
pub open spec fn flash_html(messages: Seq<Seq<char>>) -> Seq<char>
    decreases messages.len(),
{
    if messages.len() == 0 {
        Seq::empty()
    } else {
        flash_html(messages.drop_last()) + flash_paragraph(messages.last())
    }
}

/// Renders the messages for a page. A message is put into the page as it is
/// given.
pub fn render_flash_messages(messages: &Vec<String>) -> (html: String)
    ensures
        html@ == flash_html(texts(messages@)),
{
    let mut html = String::new();
    let mut i: usize = 0;
    while i < messages.len()
        invariant
            i <= messages.len(),
            html@ == flash_html(texts(messages@.take(i as int))),
        decreases messages.len() - i,
    {
        proof {
            let grown = texts(messages@.take(i as int + 1));
            assert(grown.drop_last() =~= texts(messages@.take(i as int)));
            assert(grown.last() == messages@[i as int]@);
        }
        let ghost before = html@;
        html.append("<p><i>");
        html.append(messages[i].as_str());
        html.append("</i></p>\n");
        assert(html@ =~= before + flash_paragraph(messages@[i as int]@));
        i += 1;
    }
    assert(messages@.take(i as int) =~= messages@);
    html
}

} // verus!
