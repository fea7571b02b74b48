//! Where the configuration file is: an explicit argument, or a file in the home directory.
use vstd::prelude::*;

verus! {

/// The file name of the configuration in the home directory.
pub const CONFIG_FILE_NAME: &'static str = ".tz.rc";

/// The message returned when neither an argument nor a home directory gives a path.
pub const NO_HOME_MESSAGE: &'static str = "No home directory!";

/// The path that `rel` names relative to `base`, joined with the platform's separator.
pub uninterp spec fn joined_path(base: Seq<char>, rel: Seq<char>) -> Seq<char>;

/// Relies on `std::path::Path::join`: `rel` is appended to `base` as a further
/// path component (the result depends on the two strings alone).
#[verifier::external_body]
fn join_path(base: &str, rel: &str) -> (r: String)
    ensures
        r@ == joined_path(base@, rel@),
{
    std::path::Path::new(base).join(rel).to_string_lossy().into_owned()
}

/// The configuration path for the program arguments `args` (the program's name first)
/// and the home directory, if one is known.
pub fn get_tz_file(args: &Vec<String>, opt_home: &Option<String>) -> (r: Result<String, String>)
    ensures
        args@.len() > 1 ==> r is Ok && r->Ok_0@ == args@[1]@,
        args@.len() <= 1 && opt_home is Some ==> r is Ok && r->Ok_0@ == joined_path(
            opt_home->Some_0@,
            CONFIG_FILE_NAME@,
        ),
        args@.len() <= 1 && opt_home is None ==> r is Err && r->Err_0@ == NO_HOME_MESSAGE@,
{
    if args.len() > 1 {
        Ok(args[1].clone())
    } else {
        match opt_home {
            Some(home) => Ok(join_path(home.as_str(), CONFIG_FILE_NAME)),
            None => Err(NO_HOME_MESSAGE.to_string()),
        }
    }
}

} // verus!
