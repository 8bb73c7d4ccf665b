use vstd::prelude::*;
use vstd::string::*;

use crate::domain::{invalid_email_message, is_valid_email, SubscriberEmail};

verus! {

/// Everything the service reads from its configuration.
pub struct Settings {
    pub database: DatabaseSettings,
    pub application: ApplicationSettings,
    pub email_client: EmailClientSettings,
}

/// Where the mail gateway is and how to talk to it.
pub struct EmailClientSettings {
    pub base_url: String,
    pub sender_email: String,
    pub authorization_token: String,
    /// Request timeout, in milliseconds.
    pub timeout: u64,
}

/// Where the service listens, and the base URL it is reached at from outside.
pub struct ApplicationSettings {
    pub port: u16,
    pub host: String,
    pub base_url: String,
}

/// How to reach the database.
pub struct DatabaseSettings {
    pub username: String,
    pub password: String,
    pub port: u16,
    pub host: String,
    pub database_name: String,
}

/// Relies on `Duration::from_millis` to build the gateway timeout; nothing is
/// claimed of the value, which only the HTTP client reads.
pub assume_specification[ core::time::Duration::from_millis ](millis: u64) -> core::time::Duration;

impl EmailClientSettings {
    /// The configured sender address, validated.
    pub fn sender(&self) -> (r: Result<SubscriberEmail, String>)
        ensures
            r is Ok <==> is_valid_email(self.sender_email@),
            r matches Ok(e) ==> e@ == self.sender_email@,
            r matches Err(m) ==> m@ == invalid_email_message(self.sender_email@),
    {
        SubscriberEmail::parse(self.sender_email.clone())
    }

    /// The configured timeout of a request to the gateway.
    pub fn timeout(&self) -> core::time::Duration {
        core::time::Duration::from_millis(self.timeout)
    }
}

pub open spec fn digit_char(d: nat) -> char {
    if d == 0 { '0' } else if d == 1 { '1' } else if d == 2 { '2' } else if d == 3 { '3' }
    else if d == 4 { '4' } else if d == 5 { '5' } else if d == 6 { '6' } else if d == 7 { '7' }
    else if d == 8 { '8' } else { '9' }
}

/// The decimal digits of `n`, most significant first, with no leading zero.
pub open spec fn decimal_of(n: nat) -> Seq<char>
    decreases n,
{
    if n < 10 {
        seq![digit_char(n)]
    } else {
        decimal_of(n / 10).push(digit_char(n % 10))
    }
}

fn digit_str(d: u64) -> (r: &'static str)
    requires
        d < 10,
    ensures
        r@ == seq![digit_char(d as nat)],
{
    proof {
        reveal_strlit("0");
        reveal_strlit("1");
        reveal_strlit("2");
        reveal_strlit("3");
        reveal_strlit("4");
        reveal_strlit("5");
        reveal_strlit("6");
        reveal_strlit("7");
        reveal_strlit("8");
        reveal_strlit("9");
    }
    let r = if d == 0 { "0" } else if d == 1 { "1" } else if d == 2 { "2" } else if d == 3 { "3" }
    else if d == 4 { "4" } else if d == 5 { "5" } else if d == 6 { "6" } else if d == 7 { "7" }
    else if d == 8 { "8" } else { "9" };
    assert(r@ =~= seq![digit_char(d as nat)]);
    r
}

/// `n` written in decimal.
pub fn decimal(n: u64) -> (r: String)
    ensures
        r@ == decimal_of(n as nat),
    decreases n,
{
    if n < 10 {
        String::from_str(digit_str(n))
    } else {
        let r = decimal(n / 10).concat(digit_str(n % 10));
        assert(r@ =~= decimal_of(n as nat));
        r
    }
}

/// `postgres://<username>:<password>@<host>:<port>`.
pub open spec fn server_url_of(d: DatabaseSettings) -> Seq<char> {
    "postgres://"@ + d.username@ + ":"@ + d.password@ + "@"@ + d.host@ + ":"@ + decimal_of(
        d.port as nat,
    )
}

impl DatabaseSettings {
    /// URL of the configured database.
    pub fn connection_string(&self) -> (r: String)
        ensures
            r@ == server_url_of(*self) + "/"@ + self.database_name@,
    {
        self.connection_string_without_db().concat("/").concat(self.database_name.as_str())
    }

    /// URL of the database server, naming no database.
    pub fn connection_string_without_db(&self) -> (r: String)
        ensures
            r@ == server_url_of(*self),
    {
        let port = decimal(self.port as u64);
        String::from_str("postgres://").concat(self.username.as_str()).concat(":").concat(
            self.password.as_str(),
        ).concat("@").concat(self.host.as_str()).concat(":").concat(port.as_str())
    }
}

/// The deployment the service runs in; it picks the configuration file.
#[derive(PartialEq, Eq, Structural, Clone, Copy, Debug)]
pub enum Environment {
    Local,
    Production,
}

/// `s` in lower case, as `str::to_lowercase` gives it.
pub uninterp spec fn lower_of(s: Seq<char>) -> Seq<char>;

/// Relies on `str::to_lowercase`: the lowercase mapping of each character,
/// which depends on the characters alone.
#[verifier::external_body]
fn lowercase(s: &str) -> (r: String)
    ensures
        r@ == lower_of(s@),
{
    s.to_lowercase()
}

pub open spec fn unsupported_message(name: Seq<char>) -> Seq<char> {
    name + " is not a supported environment. Use either 'local' or 'production'."@
}

impl Environment {
    pub open spec fn name_of(e: Environment) -> Seq<char> {
        match e {
            Environment::Local => "local"@,
            Environment::Production => "production"@,
        }
    }

    /// The environment's name, which is also its configuration file's name.
    pub fn as_str(&self) -> (r: &'static str)
        ensures
            r@ == Self::name_of(*self),
    {
        match self {
            Environment::Local => "local",
            Environment::Production => "production",
        }
    }

    /// The environment named exactly `name` (lower case), or a message saying
    /// that there is none.
    pub fn from_lowercase(name: &str) -> (r: Result<Environment, String>)
        ensures
            name@ == "local"@ <==> r == Ok::<Environment, String>(Environment::Local),
            name@ == "production"@ <==> r == Ok::<Environment, String>(Environment::Production),
            r matches Err(m) ==> m@ == unsupported_message(name@),
    {
        proof {
            reveal_strlit("local");
            reveal_strlit("production");
            assert("local"@.len() != "production"@.len());
        }
        let n = String::from_str(name);
        if n == String::from_str("local") {
            Ok(Environment::Local)
        } else if n == String::from_str("production") {
            Ok(Environment::Production)
        } else {
            Err(n.concat(" is not a supported environment. Use either 'local' or 'production'."))
        }
    }

    /// The environment named by `value`, in any case.
    pub fn try_from(value: String) -> (r: Result<Environment, String>)
        ensures
            lower_of(value@) == "local"@ <==> r == Ok::<Environment, String>(Environment::Local),
            lower_of(value@) == "production"@ <==> r == Ok::<Environment, String>(
                Environment::Production,
            ),
            r matches Err(m) ==> m@ == unsupported_message(lower_of(value@)),
    {
        let lower = lowercase(value.as_str());
        Environment::from_lowercase(lower.as_str())
    }
}

} // verus!
