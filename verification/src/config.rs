use vstd::prelude::*;
use vstd::string::StringExecFns;

verus! {

// Where the application keeps its data: a `.thirdspace` directory under the
// user's home, holding `config.json` and a `logs` directory. Only learning
// the home directory needs the platform; the paths under it are fixed.

/// The application's data directory under a given home directory.
pub open spec fn spec_app_dir(home: Seq<char>) -> Seq<char> {
    home + "/.thirdspace"@
}

/// The log directory under a given home directory.
pub open spec fn spec_logs_dir(home: Seq<char>) -> Seq<char> {
    spec_app_dir(home) + "/logs"@
}

/// The config file path under a given home directory.
pub open spec fn spec_config_path(home: Seq<char>) -> Seq<char> {
    spec_app_dir(home) + "/config.json"@
}

/// Relies on `dirs::home_dir`: the user's home directory, if the platform
/// reports one. The answer depends on the environment, so nothing is assumed
/// of it; a home path that is not valid UTF-8 counts as absent.
#[verifier::external_body]
fn home_dir_string() -> (r: Option<String>) {
    Some(dirs::home_dir()?.to_str()?.to_string())
}

/// The application's data directory, if the home directory is known.
pub fn app_dir() -> (r: Option<String>)
    ensures
        r matches Some(p) ==> exists|h: Seq<char>| p@ == spec_app_dir(h),
{
    match home_dir_string() {
        None => None,
        Some(h) => {
            let ghost home = h@;
            let mut p = h;
            p.append("/.thirdspace");
            proof {
                assert(p@ == spec_app_dir(home));
            }
            Some(p)
        },
    }
}

/// The log directory, if the home directory is known.
pub fn logs_dir() -> (r: Option<String>)
    ensures
        r matches Some(p) ==> exists|h: Seq<char>| p@ == spec_logs_dir(h),
{
    match app_dir() {
        None => None,
        Some(d) => {
            let ghost dir = d@;
            let mut p = d;
            p.append("/logs");
            proof {
                let h = choose|h: Seq<char>| dir == spec_app_dir(h);
                assert(p@ == spec_logs_dir(h));
            }
            Some(p)
        },
    }
}

/// The config file path, if the home directory is known.
pub fn config_path() -> (r: Option<String>)
    ensures
        r matches Some(p) ==> exists|h: Seq<char>| p@ == spec_config_path(h),
{
    match app_dir() {
        None => None,
        Some(d) => {
            let ghost dir = d@;
            let mut p = d;
            p.append("/config.json");
            proof {
                let h = choose|h: Seq<char>| dir == spec_app_dir(h);
                assert(p@ == spec_config_path(h));
            }
            Some(p)
        },
    }
}

} // verus!
