//! Error types raised by the core. Each operation's contract states exactly
//! which variant it returns and on which inputs.

use vstd::prelude::*;
use vstd::string::StringExecFns;

verus! {

/// Container-runtime errors.
#[derive(Debug, Clone, PartialEq)]
pub enum DockerError {
    /// The runtime connection could not be opened.
    ConnectionFailed(String),
    /// The runtime knows no container with this id.
    ContainerNotFound { container_id: String },
    /// Any other runtime-API failure.
    ApiError(String),
}

/// Network and namespace operation errors.
#[derive(Debug, Clone, PartialEq)]
pub enum NetworkError {
    /// The namespace path exists but could not be used.
    NamespaceAccess(String),
    /// The container has no attached network to resolve against.
    NetworkNotFound { container_id: String },
    /// The container has several networks and no usable preference.
    MultipleNetworksExist { container_id: String },
    /// The container has several networks and no preference label is set.
    NoPreference { container_id: String },
    /// The preference label names a network that is not attached.
    PreferredNetworkMissing { container_id: String },
    /// Namespace entry or the transport was refused for lack of privileges.
    InsufficientPrivileges,
    /// Any other network operation failure.
    OperationFailed(String),
}

/// Route management errors.
#[derive(Debug, Clone, PartialEq)]
pub enum RouteError {
    /// A route could not be installed.
    AddRoute(String),
    /// A route could not be removed.
    RemoveRoute(String),
    /// The route already exists.
    RouteExists(String),
    /// The route or rule set is invalid.
    InvalidRoute(String),
    /// Two rules name one destination with different gateways.
    RouteConflict(String),
    /// The namespace path exists but could not be used for the operation.
    NamespaceAccess(String),
    /// The namespace or the transport was refused for lack of privileges.
    InsufficientPrivileges,
}

/// Configuration errors.
#[derive(Debug, Clone, PartialEq)]
pub enum ConfigError {
    /// The configuration file does not exist.
    FileNotFound { path: String },
    /// The configuration text could not be parsed.
    InvalidFormat(String),
    /// A required option is missing.
    MissingRequired { field: String },
    /// An option holds a value outside its domain.
    ValidationError(String),
}

/// Event monitoring errors.
#[derive(Debug, Clone, PartialEq)]
pub enum EventError {
    /// Monitoring could not be started.
    StartFailed(String),
    /// The event stream broke.
    StreamError(String),
    /// One event could not be processed.
    ProcessingFailed(String),
}

/// Event handler errors.
#[derive(Debug, Clone, PartialEq)]
pub enum HandlerError {
    /// The handler itself failed.
    ExecutionFailed(String),
    /// The handler was configured wrongly.
    ConfigurationError(String),
}

/// Top-level error type, one variant per component.
#[derive(Debug, Clone, PartialEq)]
pub enum AppError {
    Docker(DockerError),
    Network(NetworkError),
    Route(RouteError),
    Config(ConfigError),
    Event(EventError),
}

impl RouteError {
    /// A readable rendering of the error, kind first.
    pub fn message(&self) -> (r: String) {
        match self {
            RouteError::AddRoute(m) => String::from_str("Failed to add route: ").concat(
                m.as_str(),
            ),
            RouteError::RemoveRoute(m) => String::from_str("Failed to remove route: ").concat(
                m.as_str(),
            ),
            RouteError::RouteExists(m) => String::from_str("Route already exists: ").concat(
                m.as_str(),
            ),
            RouteError::InvalidRoute(m) => String::from_str(
                "Invalid route configuration: ",
            ).concat(m.as_str()),
            RouteError::RouteConflict(m) => String::from_str("Route conflict detected: ").concat(
                m.as_str(),
            ),
            RouteError::NamespaceAccess(m) => String::from_str(
                "Failed to access network namespace: ",
            ).concat(m.as_str()),
            RouteError::InsufficientPrivileges => String::from_str(
                "Insufficient privileges for route operation",
            ),
        }
    }
}

impl NetworkError {
    /// A readable rendering of the error, kind first.
    pub fn message(&self) -> (r: String) {
        match self {
            NetworkError::NamespaceAccess(m) => String::from_str(
                "Failed to access network namespace: ",
            ).concat(m.as_str()),
            NetworkError::NetworkNotFound { container_id } => String::from_str(
                "Container network not found: ",
            ).concat(container_id.as_str()),
            NetworkError::MultipleNetworksExist { container_id } => String::from_str(
                "Container has multiple networks: ",
            ).concat(container_id.as_str()),
            NetworkError::NoPreference { container_id } => String::from_str(
                "Container has multiple networks but no network preference label: ",
            ).concat(container_id.as_str()),
            NetworkError::PreferredNetworkMissing { container_id } => String::from_str(
                "Preferred network not found for container: ",
            ).concat(container_id.as_str()),
            NetworkError::InsufficientPrivileges => String::from_str(
                "Insufficient privileges for network operation",
            ),
            NetworkError::OperationFailed(m) => String::from_str(
                "Network operation failed: ",
            ).concat(m.as_str()),
        }
    }
}

impl ConfigError {
    /// A readable rendering of the error, kind first.
    pub fn message(&self) -> (r: String) {
        match self {
            ConfigError::FileNotFound { path } => String::from_str(
                "Configuration file not found: ",
            ).concat(path.as_str()),
            ConfigError::InvalidFormat(m) => String::from_str(
                "Invalid configuration format: ",
            ).concat(m.as_str()),
            ConfigError::MissingRequired { field } => String::from_str(
                "Missing required configuration: ",
            ).concat(field.as_str()),
            ConfigError::ValidationError(m) => String::from_str(
                "Configuration validation error: ",
            ).concat(m.as_str()),
        }
    }
}

} // verus!

verus! {

/// Map a network-level failure to the error an install operation raises.
/// Privilege and namespace failures keep their own kinds; everything else is
/// an add-route failure.
pub fn map_add_route_error(e: NetworkError) -> (r: RouteError)
    ensures
        match e {
            NetworkError::InsufficientPrivileges => r == RouteError::InsufficientPrivileges,
            NetworkError::NamespaceAccess(m) => r matches RouteError::NamespaceAccess(s) && s@
                == m@,
            NetworkError::OperationFailed(m) => r matches RouteError::AddRoute(s) && s@ == m@,
            _ => r matches RouteError::AddRoute(_),
        },
{
    match e {
        NetworkError::InsufficientPrivileges => RouteError::InsufficientPrivileges,
        NetworkError::NamespaceAccess(msg) => RouteError::NamespaceAccess(msg),
        NetworkError::OperationFailed(msg) => RouteError::AddRoute(msg),
        other => RouteError::AddRoute(
            String::from_str("Network operation failed: ").concat(other.message().as_str()),
        ),
    }
}

/// Map a network-level failure to the error a removal operation raises,
/// privilege and namespace failures kept apart as in `map_add_route_error`.
pub fn map_remove_route_error(e: NetworkError) -> (r: RouteError)
    ensures
        match e {
            NetworkError::InsufficientPrivileges => r == RouteError::InsufficientPrivileges,
            NetworkError::NamespaceAccess(m) => r matches RouteError::NamespaceAccess(s) && s@
                == m@,
            NetworkError::OperationFailed(m) => r matches RouteError::RemoveRoute(s) && s@ == m@,
            _ => r matches RouteError::RemoveRoute(_),
        },
{
    match e {
        NetworkError::InsufficientPrivileges => RouteError::InsufficientPrivileges,
        NetworkError::NamespaceAccess(msg) => RouteError::NamespaceAccess(msg),
        NetworkError::OperationFailed(msg) => RouteError::RemoveRoute(msg),
        other => RouteError::RemoveRoute(
            String::from_str("Network operation failed: ").concat(other.message().as_str()),
        ),
    }
}

/// Map a network-level failure to the error a listing operation raises,
/// privilege and namespace failures kept apart as in `map_add_route_error`.
pub fn map_list_route_error(e: NetworkError) -> (r: RouteError)
    ensures
        match e {
            NetworkError::InsufficientPrivileges => r == RouteError::InsufficientPrivileges,
            NetworkError::NamespaceAccess(m) => r matches RouteError::NamespaceAccess(s) && s@
                == m@,
            NetworkError::OperationFailed(m) => r matches RouteError::InvalidRoute(s) && s@ == m@,
            _ => r matches RouteError::InvalidRoute(_),
        },
{
    match e {
        NetworkError::InsufficientPrivileges => RouteError::InsufficientPrivileges,
        NetworkError::NamespaceAccess(msg) => RouteError::NamespaceAccess(msg),
        NetworkError::OperationFailed(msg) => RouteError::InvalidRoute(msg),
        other => RouteError::InvalidRoute(
            String::from_str("Network operation failed: ").concat(other.message().as_str()),
        ),
    }
}

} // verus!
