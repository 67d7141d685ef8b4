//! The administrator's dashboard page.

use vstd::prelude::*;
use vstd::string::*;

verus! {

/// The page, up to the user's name.
pub open spec fn page_head() -> Seq<char> {
    "<!DOCTYPE html>
                <html lang=\"en\">
                <head>
                <meta http-equiv=\"content-type\" content=\"text/html; charset=utf-8\">
                <title>Admin dashboard</title>
                </head>
                <body>
                <p>Welcome "@
}

/// The page, after the user's name.
pub open spec fn page_tail() -> Seq<char> {
    "!</p>
                <p>Available actions:</p>
                <ol>
                <li><a href=\"/admin/password\">Change password</a></li>
                <li>
                <form name=\"logoutForm\" action=\"/admin/logout\" method=\"post\">
                <input type=\"submit\" value=\"Logout\">
                </form>
                </li>
                </ol>
                </body>
                </html>"@
}

/// The dashboard page for the user `username`: a welcome by name, the link
/// to the change of password, and the logout form.
pub fn dashboard_page(username: &str) -> (page: String)
    ensures
        page@ == page_head() + username@ + page_tail(),
{
    let mut page = "<!DOCTYPE html>
                <html lang=\"en\">
                <head>
                <meta http-equiv=\"content-type\" content=\"text/html; charset=utf-8\">
                <title>Admin dashboard</title>
                </head>
                <body>
                <p>Welcome ".to_owned();
    page.append(username);
    page.append(
        "!</p>
                <p>Available actions:</p>
                <ol>
                <li><a href=\"/admin/password\">Change password</a></li>
                <li>
                <form name=\"logoutForm\" action=\"/admin/logout\" method=\"post\">
                <input type=\"submit\" value=\"Logout\">
                </form>
                </li>
                </ol>
                </body>
                </html>",
    );
    page
}

} // verus!
