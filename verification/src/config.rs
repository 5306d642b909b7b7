//! The settings of the bridge, and how they are read from the environment's
//! variables.

use crate::decimal::{append_decimal, decimal_repr, parse_i16, parse_i16_spec};
use vstd::prelude::*;
use vstd::string::*;

verus! {

/// Where the media server is and how to sign in.
#[derive(Debug, Clone, PartialEq, Eq)]
pub struct Icecast {
    pub user: String,
    pub password: String,
    pub host: String,
    pub port: i16,
}

/// Where the metrics store is and how to sign in. `host` is the store's whole
/// base address, scheme and port included.
#[derive(Debug, Clone, PartialEq, Eq)]
pub struct Influx {
    pub user: String,
    pub password: String,
    pub host: String,
    pub database: String,
}

/// Everything the bridge is told at startup.
#[derive(Debug, Clone, PartialEq, Eq)]
pub struct Config {
    pub icecast: Icecast,
    pub influxdb: Influx,
}

/// The variables that the configuration is read from.
#[derive(Debug, Clone, Copy, PartialEq, Eq)]
pub enum Variable {
    IcecastUser,
    IcecastPassword,
    IcecastHost,
    IcecastPort,
    InfluxUser,
    InfluxPassword,
    InfluxHost,
    InfluxPort,
    InfluxDatabase,
}

/// What the environment holds for each variable: `None` where it is not set.
#[derive(Debug, Clone, PartialEq, Eq)]
pub struct Environment {
    pub icecast_user: Option<String>,
    pub icecast_password: Option<String>,
    pub icecast_host: Option<String>,
    pub icecast_port: Option<String>,
    pub influx_user: Option<String>,
    pub influx_password: Option<String>,
    pub influx_host: Option<String>,
    pub influx_port: Option<String>,
    pub influx_database: Option<String>,
}

/// Why the environment gives no configuration.
#[derive(Debug, Clone, Copy, PartialEq, Eq)]
pub enum ConfigError {
    /// The variable is not set.
    Missing(Variable),
    /// The variable is set to the empty text, where the media server's host,
    /// user or password is needed.
    Empty(Variable),
    /// The variable is set, but its value is no port number.
    InvalidPort(Variable),
}

/// The base address of the metrics store.
pub open spec fn influx_address(host: Seq<char>, port: int) -> Seq<char> {
    "http://"@ + host + ":"@ + decimal_repr(port)
}

/// The address of a resource of the media server.
pub open spec fn icecast_address(host: Seq<char>, port: int, endpoint: Seq<char>) -> Seq<char> {
    "http://"@ + host + ":"@ + decimal_repr(port) + "/"@ + endpoint
}

impl Variable {
    /// The name of the variable in the environment.
    pub open spec fn spec_name(self) -> Seq<char> {
        match self {
            Variable::IcecastUser => "ICECAST_USER"@,
            Variable::IcecastPassword => "ICECAST_PASSWORD"@,
            Variable::IcecastHost => "ICECAST_HOST"@,
            Variable::IcecastPort => "ICECAST_PORT"@,
            Variable::InfluxUser => "INFLUX_USER"@,
            Variable::InfluxPassword => "INFLUX_PASSWORD"@,
            Variable::InfluxHost => "INFLUX_HOST"@,
            Variable::InfluxPort => "INFLUX_PORT"@,
            Variable::InfluxDatabase => "INFLUX_DATABASE"@,
        }
    }

    /// The name of the variable in the environment.
    pub fn name(self) -> (name: &'static str)
        ensures
            name@ == self.spec_name(),
    {
        match self {
            Variable::IcecastUser => "ICECAST_USER",
            Variable::IcecastPassword => "ICECAST_PASSWORD",
            Variable::IcecastHost => "ICECAST_HOST",
            Variable::IcecastPort => "ICECAST_PORT",
            Variable::InfluxUser => "INFLUX_USER",
            Variable::InfluxPassword => "INFLUX_PASSWORD",
            Variable::InfluxHost => "INFLUX_HOST",
            Variable::InfluxPort => "INFLUX_PORT",
            Variable::InfluxDatabase => "INFLUX_DATABASE",
        }
    }
}

impl Environment {
    /// The first thing that is wrong with the environment, if anything is.
    /// The variables are looked at one after the other, the media server's
    /// first, and each is judged as soon as it is found.
    pub open spec fn first_error(self) -> Option<ConfigError> {
        if self.icecast_user is None {
            Some(ConfigError::Missing(Variable::IcecastUser))
        } else if self.icecast_user->0@.len() == 0 {
            Some(ConfigError::Empty(Variable::IcecastUser))
        } else if self.icecast_password is None {
            Some(ConfigError::Missing(Variable::IcecastPassword))
        } else if self.icecast_password->0@.len() == 0 {
            Some(ConfigError::Empty(Variable::IcecastPassword))
        } else if self.icecast_host is None {
            Some(ConfigError::Missing(Variable::IcecastHost))
        } else if self.icecast_host->0@.len() == 0 {
            Some(ConfigError::Empty(Variable::IcecastHost))
        } else if self.icecast_port is None {
            Some(ConfigError::Missing(Variable::IcecastPort))
        } else if parse_i16_spec(self.icecast_port->0@) is None {
            Some(ConfigError::InvalidPort(Variable::IcecastPort))
        } else if self.influx_user is None {
            Some(ConfigError::Missing(Variable::InfluxUser))
        } else if self.influx_password is None {
            Some(ConfigError::Missing(Variable::InfluxPassword))
        } else if self.influx_host is None {
            Some(ConfigError::Missing(Variable::InfluxHost))
        } else if self.influx_port is None {
            Some(ConfigError::Missing(Variable::InfluxPort))
        } else if parse_i16_spec(self.influx_port->0@) is None {
            Some(ConfigError::InvalidPort(Variable::InfluxPort))
        } else if self.influx_database is None {
            Some(ConfigError::Missing(Variable::InfluxDatabase))
        } else {
            None
        }
    }
}

/// Takes the value of a variable that must be set.
fn required(value: Option<String>, variable: Variable) -> (result: Result<String, ConfigError>)
    ensures
        match value {
            Some(text) => result == Ok::<String, ConfigError>(text),
            None => result == Err::<String, ConfigError>(ConfigError::Missing(variable)),
        },
{
    match value {
        Some(text) => Ok(text),
        None => Err(ConfigError::Missing(variable)),
    }
}

/// Takes the value of a variable that must be set and must not be empty.
fn required_text(value: Option<String>, variable: Variable) -> (result: Result<
    String,
    ConfigError,
>)
    ensures
        match value {
            Some(text) => if text@.len() == 0 {
                result == Err::<String, ConfigError>(ConfigError::Empty(variable))
            } else {
                result == Ok::<String, ConfigError>(text)
            },
            None => result == Err::<String, ConfigError>(ConfigError::Missing(variable)),
        },
{
    match value {
        Some(text) => if text.as_str().is_empty() {
            Err(ConfigError::Empty(variable))
        } else {
            Ok(text)
        },
        None => Err(ConfigError::Missing(variable)),
    }
}

/// Takes the value of a variable that must be set to a port number.
fn required_port(value: Option<String>, variable: Variable) -> (result: Result<i16, ConfigError>)
    ensures
        match value {
            Some(text) => match parse_i16_spec(text@) {
                Some(port) => result == Ok::<i16, ConfigError>(port),
                None => result == Err::<i16, ConfigError>(ConfigError::InvalidPort(variable)),
            },
            None => result == Err::<i16, ConfigError>(ConfigError::Missing(variable)),
        },
{
    match value {
        Some(text) => match parse_i16(text.as_str()) {
            Some(port) => Ok(port),
            None => Err(ConfigError::InvalidPort(variable)),
        },
        None => Err(ConfigError::Missing(variable)),
    }
}

impl Config {
    /// The configuration that an environment describes. Every variable is
    /// required. The media server's user, password and host must not be
    /// empty, and both ports must be numbers. The store's host and port are
    /// joined into its base address.
    pub fn new(env: Environment) -> (result: Result<Config, ConfigError>)
        ensures
            match result {
                Ok(config) => {
                    &&& env.first_error() is None
                    &&& config.icecast.well_formed()
                    &&& config.icecast.user == env.icecast_user->0
                    &&& config.icecast.password == env.icecast_password->0
                    &&& config.icecast.host == env.icecast_host->0
                    &&& Some(config.icecast.port) == parse_i16_spec(env.icecast_port->0@)
                    &&& config.influxdb.user == env.influx_user->0
                    &&& config.influxdb.password == env.influx_password->0
                    &&& config.influxdb.host@ == influx_address(
                        env.influx_host->0@,
                        parse_i16_spec(env.influx_port->0@)->0 as int,
                    )
                    &&& config.influxdb.database == env.influx_database->0
                },
                Err(error) => env.first_error() == Some(error),
            },
    {
        let Environment {
            icecast_user,
            icecast_password,
            icecast_host,
            icecast_port,
            influx_user,
            influx_password,
            influx_host,
            influx_port,
            influx_database,
        } = env;
        let user = match required_text(icecast_user, Variable::IcecastUser) {
            Ok(text) => text,
            Err(error) => {
                return Err(error);
            },
        };
        let password = match required_text(icecast_password, Variable::IcecastPassword) {
            Ok(text) => text,
            Err(error) => {
                return Err(error);
            },
        };
        let host = match required_text(icecast_host, Variable::IcecastHost) {
            Ok(text) => text,
            Err(error) => {
                return Err(error);
            },
        };
        let port = match required_port(icecast_port, Variable::IcecastPort) {
            Ok(port) => port,
            Err(error) => {
                return Err(error);
            },
        };
        let icecast = Icecast { user, password, host, port };
        let user = match required(influx_user, Variable::InfluxUser) {
            Ok(text) => text,
            Err(error) => {
                return Err(error);
            },
        };
        let password = match required(influx_password, Variable::InfluxPassword) {
            Ok(text) => text,
            Err(error) => {
                return Err(error);
            },
        };
        let store_host = match required(influx_host, Variable::InfluxHost) {
            Ok(text) => text,
            Err(error) => {
                return Err(error);
            },
        };
        let store_port = match required_port(influx_port, Variable::InfluxPort) {
            Ok(port) => port,
            Err(error) => {
                return Err(error);
            },
        };
        let database = match required(influx_database, Variable::InfluxDatabase) {
            Ok(text) => text,
            Err(error) => {
                return Err(error);
            },
        };
        let mut host = String::from_str("http://");
        host.append(store_host.as_str());
        host.append(":");
        append_decimal(&mut host, store_port);
        let influxdb = Influx { user, password, host, database };
        Ok(Config { icecast, influxdb })
    }
}

impl Icecast {
    /// The media server can be asked: its host, its user and its password
    /// are not empty.
    pub open spec fn well_formed(&self) -> bool {
        &&& self.user@.len() > 0
        &&& self.password@.len() > 0
        &&& self.host@.len() > 0
    }

    /// The address of a resource of the media server: the host, the port and
    /// the resource's path, which is given without a leading slash.
    pub fn url(&self, endpoint: &str) -> (url: String)
        ensures
            url@ == icecast_address(self.host@, self.port as int, endpoint@),
    {
        let mut url = String::from_str("http://");
        url.append(self.host.as_str());
        url.append(":");
        append_decimal(&mut url, self.port);
        url.append("/");
        url.append(endpoint);
        url
    }
}

} // verus!
