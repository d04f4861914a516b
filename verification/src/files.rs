//! Where the shell keeps its files: in the user's home directory.
use vstd::prelude::*;

use crate::path::is_absolute;

verus! {

/// The configuration file, relative to the home directory.
pub const CONFIG_FILE: &'static str = ".cmish-config.json";
/// The command history, relative to the home directory.
pub const HISTORY_FILE: &'static str = ".cmish-history";

/// `file` under the directory `home`, joined as `Path::join` joins a
/// relative path, with `separator` the platform's main separator (`/` on
/// Unix, `\` on Windows): with a separator between them unless `home` is
/// empty or already ends with a separator. `/` counts as a separator on every
/// platform.
pub open spec fn join_file(home: Seq<char>, separator: char, file: Seq<char>) -> Seq<char> {
    if home.len() == 0 {
        file
    } else if home.last() == '/' || home.last() == separator {
        home + file
    } else {
        home + seq![separator] + file
    }
}

fn get_file_path(home: &str, separator: char, file: &str) -> (res: String)
    requires
        !is_absolute(file@),
    ensures
        res@ == join_file(home@, separator, file@),
{
    let mut res = String::from_str(home);
    let cs = crate::text::chars_of(home);
    if cs.len() > 0 && cs[cs.len() - 1] != '/' && cs[cs.len() - 1] != separator {
        crate::text::push_char(&mut res, separator);
    }
    res.append(file);
    res
}

/// The path of the configuration file under the home directory `home`, on a
/// platform whose main path separator is `separator`.
pub fn get_config_path(home: &str, separator: char) -> (res: String)
    requires
        separator == '/' || separator == '\\',
    ensures
        res@ == join_file(home@, separator, CONFIG_FILE@),
{
    proof {
        reveal_strlit(".cmish-config.json");
    }
    get_file_path(home, separator, CONFIG_FILE)
}

/// The path of the history file under the home directory `home`, on a
/// platform whose main path separator is `separator`.
pub fn get_history_path(home: &str, separator: char) -> (res: String)
    requires
        separator == '/' || separator == '\\',
    ensures
        res@ == join_file(home@, separator, HISTORY_FILE@),
{
    proof {
        reveal_strlit(".cmish-history");
    }
    get_file_path(home, separator, HISTORY_FILE)
}

} // verus!
