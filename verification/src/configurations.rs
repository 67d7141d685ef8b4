//! The environment that the application runs in, as the configuration names
//! it.

use vstd::prelude::*;
use vstd::string::*;

verus! {

/// Where the application runs.
#[derive(Debug, Clone, Copy, PartialEq, Eq, Structural)]
pub enum Environment {
    Local,
    Production,
}

/// The message for a name that is no environment.
pub open spec fn environment_error(name: Seq<char>) -> Seq<char> {
    name + " is not supported. Use either local or production."@
}

impl Environment {
    /// The environment's name: `local` or `production`.
    pub fn as_str(&self) -> (name: &'static str)
        ensures
            name@ == match *self {
                Environment::Local => "local"@,
                Environment::Production => "production"@,
            },
    {
        match self {
            Environment::Local => "local",
            Environment::Production => "production",
        }
    }

    /// The environment with the given name. Only `local` and `production`
    /// name one.
    pub fn try_from(value: String) -> (r: Result<Environment, String>)
        ensures
            match r {
                Ok(Environment::Local) => value@ == "local"@,
                Ok(Environment::Production) => value@ == "production"@,
                Err(message) => value@ != "local"@ && value@ != "production"@ && message@ == environment_error(
                    value@,
                ),
            },
    {
        if value == "local".to_owned() {
            Ok(Environment::Local)
        } else if value == "production".to_owned() {
            Ok(Environment::Production)
        } else {
            Err(value.concat(" is not supported. Use either local or production."))
        }
    }
}

} // verus!
