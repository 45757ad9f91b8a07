//! The deployment environment that selects a configuration.

use vstd::prelude::*;
use vstd::string::StringExecFns;
use vstd::std_specs::convert::FromSpecImpl;

verus! {

/// The environment that is assumed when none is named.
pub const DEFAULT_ENVIRONMENT: &'static str = "development";

/// A deployment environment: one of the three well-known ones, or any other
/// by its name.
#[derive(Debug, Clone, PartialEq, Eq)]
pub enum Environment {
    /// The environment called `production`.
    Production,
    /// The environment called `development`.
    Development,
    /// The environment called `test`.
    Test,
    /// Any other environment, by its name.
    Any(String),
}

/// Whether `name` is the name of one of the well-known environments.
pub open spec fn is_well_known(name: Seq<char>) -> bool {
    name == "production"@ || name == "development"@ || name == "test"@
}

/// The names of the well-known environments differ from each other.
pub proof fn lemma_names_differ()
    ensures
        "production"@ != "development"@,
        "production"@ != "test"@,
        "development"@ != "test"@,
{
    reveal_strlit("production");
    reveal_strlit("development");
    reveal_strlit("test");
    assert("production"@.len() == 10);
    assert("development"@.len() == 11);
    assert("test"@.len() == 4);
}

impl Environment {
    /// The name of the environment, as it is written in file names and
    /// settings.
    pub open spec fn name(self) -> Seq<char> {
        match self {
            Environment::Production => "production"@,
            Environment::Development => "development"@,
            Environment::Test => "test"@,
            Environment::Any(s) => s@,
        }
    }

    /// Whether the environment is written in its canonical form: a
    /// well-known name never hides in `Any`.
    pub open spec fn canonical(self) -> bool {
        self matches Environment::Any(s) ==> !is_well_known(s@)
    }

    /// The environment called `input`: a well-known one where the name is
    /// one of theirs, else `Any` with that name.
    pub fn parse(input: &str) -> (env: Self)
        ensures
            env.name() == input@,
            env.canonical(),
            env is Production <==> input@ == "production"@,
            env is Development <==> input@ == "development"@,
            env is Test <==> input@ == "test"@,
    {
        proof {
            lemma_names_differ();
        }
        Environment::from(String::from_str(input))
    }

    /// The name of the environment.
    pub fn to_string(&self) -> (name: String)
        ensures
            name@ == self.name(),
    {
        match self {
            Environment::Production => String::from_str("production"),
            Environment::Development => String::from_str("development"),
            Environment::Test => String::from_str("test"),
            Environment::Any(s) => s.clone(),
        }
    }
}

impl From<String> for Environment {
    fn from(env: String) -> (environment: Self) {
        if env == String::from_str("production") {
            Environment::Production
        } else if env == String::from_str("development") {
            Environment::Development
        } else if env == String::from_str("test") {
            Environment::Test
        } else {
            Environment::Any(env)
        }
    }
}

impl FromSpecImpl<String> for Environment {
    open spec fn obeys_from_spec() -> bool {
        true
    }

    open spec fn from_spec(env: String) -> Self {
        if env@ == "production"@ {
            Environment::Production
        } else if env@ == "development"@ {
            Environment::Development
        } else if env@ == "test"@ {
            Environment::Test
        } else {
            Environment::Any(env)
        }
    }
}

impl std::str::FromStr for Environment {
    type Err = &'static str;

    fn from_str(input: &str) -> (res: Result<Self, Self::Err>)
        ensures
            res matches Ok(env) && env.name() == input@ && env.canonical() && (env is Production
                <==> input@ == "production"@) && (env is Development <==> input@
                == "development"@) && (env is Test <==> input@ == "test"@),
    {
        Ok(Environment::parse(input))
    }
}

} // verus!
