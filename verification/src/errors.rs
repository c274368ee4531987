//! The errors of a run, by where they come from.

use crate::aws::AwsError;
use crate::config::ConfigurationError;
use crate::kubernetes::KubernetesError;
use vstd::prelude::*;

verus! {

/// Why a run or one of its cycles failed.
#[derive(Debug)]
#[allow(inconsistent_fields)]
pub enum Error {
    InitializationErrorCannotSetupTracing { underlying_error: String },
    Configuration { underlying_error: ConfigurationError },
    Aws { underlying_error: AwsError },
    Kubernetes { underlying_error: KubernetesError },
}

impl Error {
    /// The message of the error.
    pub open spec fn message(&self) -> Seq<char> {
        match self {
            Error::InitializationErrorCannotSetupTracing { underlying_error } =>
                "Initialization error, cannot setup tracing: "@ + underlying_error@,
            Error::Configuration { underlying_error } => "Configuration error: "@
                + underlying_error.message(),
            Error::Aws { underlying_error } => "Aws error: "@ + underlying_error.message(),
            Error::Kubernetes { underlying_error } => "Kubernetes error: "@
                + underlying_error.message(),
        }
    }

    /// Writes the error out as its message.
    pub fn to_string(&self) -> (s: String)
        ensures
            s@ == self.message(),
    {
        match self {
            Error::InitializationErrorCannotSetupTracing { underlying_error } => String::from_str(
                "Initialization error, cannot setup tracing: ",
            ).concat(underlying_error.as_str()),
            Error::Configuration { underlying_error } => {
                let inner = underlying_error.to_string();
                String::from_str("Configuration error: ").concat(inner.as_str())
            },
            Error::Aws { underlying_error } => {
                let inner = underlying_error.to_string();
                String::from_str("Aws error: ").concat(inner.as_str())
            },
            Error::Kubernetes { underlying_error } => {
                let inner = underlying_error.to_string();
                String::from_str("Kubernetes error: ").concat(inner.as_str())
            },
        }
    }

    /// Whether the error ends the run. An error of the configuration or of
    /// the start-up does; an error of the identity source or of the document
    /// fails the cycle it came up in, and the next cycle tries again.
    pub open spec fn is_fatal(&self) -> bool {
        *self is Configuration || *self is InitializationErrorCannotSetupTracing
    }

    /// Tells whether the error ends the run.
    pub fn ends_run(&self) -> (b: bool)
        ensures
            b == self.is_fatal(),
    {
        match self {
            Error::InitializationErrorCannotSetupTracing { .. } => true,
            Error::Configuration { .. } => true,
            Error::Aws { .. } => false,
            Error::Kubernetes { .. } => false,
        }
    }
}

} // verus!
