//! The configuration of the bundled database.

use vstd::prelude::*;
use crate::text::{from_chars, push_all, push_str, replace_char, replace_char_chars, to_chars};

verus! {

/// The configuration up to the base directory.
pub const INI_HEAD: &'static str = "\n[mysqld]\nbasedir=";

/// The configuration between the base directory and the data directory.
pub const INI_DATA: &'static str = "\ndatadir=";

/// The configuration between the data directory and the directory of the
/// messages.
pub const INI_MESSAGES: &'static str = "/data\nlc-messages-dir=";

/// The configuration after the directory of the messages.
pub const INI_TAIL: &'static str =
    "/share\n\n[client]\nport=3306\nsocket=mysql.sock\nlog-error=./mysql-error.log\npid-file=./mysql.pid\nlc-messages-dir=./share\n        ";

/// The text of the database's configuration: `path` is its base directory,
/// `my_ini_dir_path` the directory below which its data and its messages
/// lie; `/` stands in place of every `\` of both.
pub open spec fn ini_file(path: Seq<char>, my_ini_dir_path: Seq<char>) -> Seq<char> {
    INI_HEAD@ + replace_char(path, '\\', '/') + INI_DATA@ + replace_char(
        my_ini_dir_path,
        '\\',
        '/',
    ) + INI_MESSAGES@ + replace_char(my_ini_dir_path, '\\', '/') + INI_TAIL@
}

/// The text of the database's configuration.
pub fn generate_ini_file(path: &str, my_ini_dir_path: &str) -> (text: String)
    ensures
        text@ == ini_file(path@, my_ini_dir_path@),
{
    let base = to_chars(path);
    let base = replace_char_chars(&base, '\\', '/');
    let dir = to_chars(my_ini_dir_path);
    let dir = replace_char_chars(&dir, '\\', '/');
    let mut out = to_chars(INI_HEAD);
    push_all(&mut out, &base);
    push_str(&mut out, INI_DATA);
    push_all(&mut out, &dir);
    push_str(&mut out, INI_MESSAGES);
    push_all(&mut out, &dir);
    push_str(&mut out, INI_TAIL);
    from_chars(&out)
}

} // verus!
