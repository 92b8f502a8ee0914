//! The page a browser shows for a friend-invite link.
use vstd::prelude::*;

verus! {

pub const PAGE_START: &'static str = "<!DOCTYPE html>\n<html lang=\"en\">\n<head>\n    <meta charset=\"utf-8\">\n    <meta name=\"viewport\" content=\"width=device-width, initial-scale=1\">\n    <title>";

pub const PAGE_AFTER_TITLE: &'static str = "</title>\n    <meta property=\"og:title\" content=\"";

pub const PAGE_AFTER_OG_TITLE: &'static str = "\">\n    <meta property=\"og:description\" content=\"";

pub const PAGE_AFTER_OG_DESCRIPTION: &'static str = "\">\n    <style>\n        * { margin: 0; padding: 0; box-sizing: border-box; }\n        body {\n            font-family: -apple-system, BlinkMacSystemFont, \"Segoe UI\", Roboto, Helvetica, Arial, sans-serif;\n            background: #0f172a;\n            color: #e2e8f0;\n            display: flex;\n            align-items: center;\n            justify-content: center;\n            min-height: 100vh;\n            padding: 1rem;\n        }\n        .card {\n            background: #1e293b;\n            border-radius: 1rem;\n            padding: 2.5rem 2rem;\n            max-width: 400px;\n            width: 100%;\n            text-align: center;\n        }\n        .icon {\n            font-size: 3rem;\n            margin-bottom: 1rem;\n        }\n        h1 {\n            font-size: 1.25rem;\n            font-weight: 600;\n            margin-bottom: 0.75rem;\n            color: #f8fafc;\n        }\n        p {\n            font-size: 0.95rem;\n            line-height: 1.5;\n            color: #94a3b8;\n            margin-bottom: 1.5rem;\n        }\n        .open-btn {\n            display: inline-block;\n            background: #3b82f6;\n            color: #fff;\n            text-decoration: none;\n            font-weight: 600;\n            font-size: 1rem;\n            padding: 0.75rem 1.5rem;\n            border-radius: 0.5rem;\n            transition: background 0.15s;\n        }\n        .open-btn:hover {\n            background: #2563eb;\n        }\n        .footer {\n            margin-top: 1.5rem;\n            font-size: 0.8rem;\n            color: #64748b;\n        }\n    </style>\n</head>\n<body>\n    <div class=\"card\">\n        <div class=\"icon\">\u{1f4e1}</div>\n        <h1>";

pub const PAGE_AFTER_HEADING: &'static str = "</h1>\n        <p>";

pub const PAGE_AFTER_DESCRIPTION: &'static str = "</p>\n        <a class=\"open-btn\" href=\"";

pub const PAGE_END: &'static str = "\">Open in Carrier Wave</a>\n        <div class=\"footer\">Carrier Wave &mdash; Ham Radio Challenges</div>\n    </div>\n</body>\n</html>";

pub const DEEP_LINK_PREFIX: &'static str = "carrierwave://invite/";

pub open spec fn opt_str(o: Option<&str>) -> Option<Seq<char>> {
    match o {
        Some(s) => Some(s@),
        None => None,
    }
}

pub open spec fn invite_title(callsign: Option<Seq<char>>) -> Seq<char> {
    match callsign {
        Some(cs) => cs + " wants to be friends on Carrier Wave"@,
        None => "Friend invite on Carrier Wave"@,
    }
}

pub open spec fn invite_heading(callsign: Option<Seq<char>>) -> Seq<char> {
    match callsign {
        Some(cs) => cs + " wants to be friends!"@,
        None => "You've been invited!"@,
    }
}

pub open spec fn invite_description(callsign: Option<Seq<char>>) -> Seq<char> {
    match callsign {
        Some(cs) => "Open this link in Carrier Wave to add "@ + cs + " as a friend."@,
        None => "Open this link in Carrier Wave to accept this friend invite."@,
    }
}

/// The whole page: title, heading and description name the inviter when one
/// is known, and the button opens the app's deep link for the token.
pub open spec fn invite_page(callsign: Option<Seq<char>>, token: Seq<char>) -> Seq<char> {
    PAGE_START@ + invite_title(callsign) + PAGE_AFTER_TITLE@ + invite_title(callsign) + PAGE_AFTER_OG_TITLE@
        + invite_description(callsign) + PAGE_AFTER_OG_DESCRIPTION@ + invite_heading(callsign)
        + PAGE_AFTER_HEADING@ + invite_description(callsign) + PAGE_AFTER_DESCRIPTION@ + DEEP_LINK_PREFIX@
        + token + PAGE_END@
}

fn title_text(callsign: Option<&str>) -> (r: String)
    ensures
        r@ == invite_title(opt_str(callsign)),
{
    match callsign {
        Some(cs) => {
            let mut s = cs.to_owned();
            s.append(" wants to be friends on Carrier Wave");
            s
        },
        None => "Friend invite on Carrier Wave".to_owned(),
    }
}

fn heading_text(callsign: Option<&str>) -> (r: String)
    ensures
        r@ == invite_heading(opt_str(callsign)),
{
    match callsign {
        Some(cs) => {
            let mut s = cs.to_owned();
            s.append(" wants to be friends!");
            s
        },
        None => "You've been invited!".to_owned(),
    }
}

fn description_text(callsign: Option<&str>) -> (r: String)
    ensures
        r@ == invite_description(opt_str(callsign)),
{
    match callsign {
        Some(cs) => {
            let mut s = "Open this link in Carrier Wave to add ".to_owned();
            s.append(cs);
            s.append(" as a friend.");
            s
        },
        None => "Open this link in Carrier Wave to accept this friend invite.".to_owned(),
    }
}

/// The HTML page for an invite link; `callsign` is the inviter's, when known.
pub fn render_invite_page(callsign: Option<&str>, token: &str) -> (r: String)
    ensures
        r@ == invite_page(opt_str(callsign), token@),
{
    let title = title_text(callsign);
    let heading = heading_text(callsign);
    let description = description_text(callsign);
    let mut page = PAGE_START.to_owned();
    page.append(title.as_str());
    page.append(PAGE_AFTER_TITLE);
    page.append(title.as_str());
    page.append(PAGE_AFTER_OG_TITLE);
    page.append(description.as_str());
    page.append(PAGE_AFTER_OG_DESCRIPTION);
    page.append(heading.as_str());
    page.append(PAGE_AFTER_HEADING);
    page.append(description.as_str());
    page.append(PAGE_AFTER_DESCRIPTION);
    page.append(DEEP_LINK_PREFIX);
    page.append(token);
    page.append(PAGE_END);
    page
}

} // verus!
