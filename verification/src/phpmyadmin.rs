//! The configuration of phpMyAdmin.

use vstd::prelude::*;
use crate::text::{from_chars, replace_all, replace_all_chars, to_chars};

verus! {

/// The line that refuses a login without a password.
pub const PASSWORD_REQUIRED: &'static str = "$cfg['Servers'][$i]['AllowNoPassword'] = false;";

/// The line that allows a login without a password.
pub const PASSWORD_OPTIONAL: &'static str = "$cfg['Servers'][$i]['AllowNoPassword'] = true;";

/// The configuration with a login without a password allowed: each line
/// that refuses it gives way to the one that allows it.
pub open spec fn password_optional(config: Seq<char>) -> Seq<char> {
    replace_all(config, PASSWORD_REQUIRED@, PASSWORD_OPTIONAL@)
}

/// The configuration with a login without a password allowed.
pub fn allow_no_password(config: &str) -> (edited: String)
    ensures
        edited@ == password_optional(config@),
{
    let text = to_chars(config);
    let from = to_chars(PASSWORD_REQUIRED);
    let to = to_chars(PASSWORD_OPTIONAL);
    let edited = replace_all_chars(&text, &from, &to);
    from_chars(&edited)
}

} // verus!
