//! The settings of the application, and the environment that selects them.

use vstd::prelude::*;
use vstd::string::*;
use vstd::std_specs::convert::TryFromSpecImpl;
use crate::text::{decimal, decimal_string};

verus! {

/// Where the database is and how to log in.
#[derive(Clone, Debug, PartialEq, Eq)]
pub struct DatabaseSettings {
    pub username: String,
    pub password: String,
    pub port: u16,
    pub host: String,
    pub database_name: String,
}

/// The address of the database server for these settings, without a database.
pub open spec fn server_url(settings: DatabaseSettings) -> Seq<char> {
    "postgres://"@ + settings.username@ + ":"@ + settings.password@ + "@"@ + settings.host@ + ":"@
        + decimal(settings.port as nat)
}

impl DatabaseSettings {
    /// The connection string of the database:
    /// `postgres://` user `:` password `@` host `:` port `/` database.
    pub fn connection_string(&self) -> (url: String)
        ensures
            url@ == server_url(*self) + "/"@ + self.database_name@,
    {
        let mut url = self.connection_string_without_db();
        url.append("/");
        url.append(self.database_name.as_str());
        url
    }

    /// The connection string of the database server, without a database:
    /// `postgres://` user `:` password `@` host `:` port.
    pub fn connection_string_without_db(&self) -> (url: String)
        ensures
            url@ == server_url(*self),
    {
        let mut url = String::from_str("postgres://");
        url.append(self.username.as_str());
        url.append(":");
        url.append(self.password.as_str());
        url.append("@");
        url.append(self.host.as_str());
        url.append(":");
        let port = decimal_string(self.port as u64);
        url.append(port.as_str());
        url
    }
}

/// How the metrics are named.
#[derive(Clone, Debug, PartialEq, Eq)]
pub struct MetricsSettings {
    pub namespace: String,
}

/// Where the traces go.
#[derive(Clone, Debug, PartialEq, Eq)]
pub struct TracerSettings {
    pub export_endpoint: String,
}

/// The environment that the application runs in.
#[derive(Clone, Copy, Debug, PartialEq, Eq, Structural)]
pub enum Environment {
    Development,
    Docker,
    Production,
}

/// The lowercase form of a text, as `str::to_lowercase` gives it.
pub uninterp spec fn lowercase(s: Seq<char>) -> Seq<char>;

/// Calls `str::to_lowercase`, which maps each character to its lowercase
/// form by the Unicode tables. The contract only gives the result its name.
#[verifier::external_body]
fn to_lowercase(s: &str) -> (lowered: String)
    ensures
        lowered@ == lowercase(s@),
{
    s.to_lowercase()
}

/// The environment that a name in lower case stands for.
pub open spec fn environment_named(name: Seq<char>) -> Option<Environment> {
    if name == "dev"@ || name == "development"@ {
        Some(Environment::Development)
    } else if name == "docker"@ {
        Some(Environment::Docker)
    } else if name == "production"@ {
        Some(Environment::Production)
    } else {
        None
    }
}

/// What is said of a name that stands for no environment.
pub open spec fn unsupported(name: Seq<char>) -> Seq<char> {
    name + " is not a supported environment. Use `dev`, `docker` or `production`."@
}

/// Whether the text is exactly the literal.
fn is_text(s: &String, literal: &str) -> (same: bool)
    ensures
        same == (s@ == literal@),
{
    *s == String::from_str(literal)
}

impl Environment {
    /// The name of the environment, as a sequence of characters.
    pub open spec fn name(self) -> Seq<char> {
        match self {
            Environment::Development => "dev"@,
            Environment::Docker => "docker"@,
            Environment::Production => "production"@,
        }
    }

    /// The name of the environment: `dev`, `docker` or `production`.
    pub fn as_str(&self) -> (name: &'static str)
        ensures
            name@ == self.name(),
    {
        match self {
            Environment::Development => "dev",
            Environment::Docker => "docker",
            Environment::Production => "production",
        }
    }

    /// The name of the file that holds the settings of the environment.
    pub fn settings_file_name(&self) -> (name: String)
        ensures
            name@ == self.name() + ".yaml"@,
    {
        let mut name = String::from_str(self.as_str());
        name.append(".yaml");
        name
    }

    /// The environment that a name in lower case stands for: `dev` and
    /// `development`, `docker`, `production`. Any other name is refused with a
    /// message that repeats it.
    pub fn from_lowercase(name: String) -> (r: Result<Environment, String>)
        ensures
            match r {
                Ok(environment) => environment_named(name@) == Some(environment),
                Err(message) => environment_named(name@) is None && message@ == unsupported(name@),
            },
    {
        if is_text(&name, "dev") || is_text(&name, "development") {
            Ok(Environment::Development)
        } else if is_text(&name, "docker") {
            Ok(Environment::Docker)
        } else if is_text(&name, "production") {
            Ok(Environment::Production)
        } else {
            let mut message = name;
            message.append(" is not a supported environment. Use `dev`, `docker` or `production`.");
            Err(message)
        }
    }

    /// The environment that the setting of `APP_ENVIRONMENT` selects; it
    /// is the development environment where the variable is not set.
    pub fn select(setting: Option<String>) -> (r: Result<Environment, String>)
        ensures
            match setting {
                None => r == Ok::<Environment, String>(Environment::Development),
                Some(value) => match r {
                    Ok(environment) => environment_named(lowercase(value@)) == Some(environment),
                    Err(message) => environment_named(lowercase(value@)) is None && message@
                        == unsupported(lowercase(value@)),
                },
            },
    {
        match setting {
            None => Ok(Environment::Development),
            Some(value) => Environment::try_from(value),
        }
    }
}

impl TryFrom<String> for Environment {
    type Error = String;

    /// The environment that a name stands for, whatever its case.
    fn try_from(value: String) -> (r: Result<Environment, String>)
        ensures
            match r {
                Ok(environment) => environment_named(lowercase(value@)) == Some(environment),
                Err(message) => environment_named(lowercase(value@)) is None && message@ == unsupported(
                    lowercase(value@),
                ),
            },
    {
        Environment::from_lowercase(to_lowercase(value.as_str()))
    }
}

/// The message of a refusal is a new text, which no spec function can name:
/// what `try_from` returns is said by its own contract, not by `try_from_spec`.
impl TryFromSpecImpl<String> for Environment {
    open spec fn obeys_try_from_spec() -> bool {
        false
    }

    open spec fn try_from_spec(value: String) -> Result<Environment, String> {
        Err(value)
    }
}

} // verus!
