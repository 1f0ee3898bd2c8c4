//! The error taxonomy of a build session: configuration, cache, network,
//! build and validation failures. None is retried automatically; each
//! carries what a caller needs to report it.

use vstd::prelude::*;

verus! {

/// The build description could not be read or used.
#[derive(Debug, Clone)]
pub enum ConfigError {
    /// The description names a dockerfile by path, but no content for that
    /// path was supplied.
    MissingDockerfile { path: String },
}

/// A cache operation failed.
#[derive(Debug, Clone)]
pub enum CacheError {
    /// Cloning a fresh entry failed.
    Init { url: String, dir: String },
    /// Refreshing an existing entry failed.
    Refresh { url: String, dir: String },
    /// Producing an archive of a commit failed.
    Archive { url: String },
    /// The commit or file does not exist in the repository.
    NotFound { url: String },
    /// A subprocess pipe could not be taken.
    MissingPipe { url: String },
    /// Subprocess output was not valid text.
    BadEncoding { url: String },
    /// Compressing subprocess output failed.
    Compress { url: String },
    /// A ref could not be resolved to a commit hash.
    Normalize { url: String, reference: String },
}

/// The proxy could not bind or serve its socket.
#[derive(Debug, Clone)]
pub enum NetworkError {
    Bind { address: String },
}

/// The image-build subprocess exited with a non-zero status.
#[derive(Debug, Clone)]
pub struct BuildError {
    pub exit_code: i32,
}

/// The session's ledger does not match the prior bill of materials.
#[derive(Debug, Clone)]
pub struct ValidationError {}

impl CacheError {
    /// The remote URL the failure concerns.
    pub open spec fn spec_url(&self) -> Seq<char> {
        match self {
            CacheError::Init { url, .. } => url@,
            CacheError::Refresh { url, .. } => url@,
            CacheError::Archive { url } => url@,
            CacheError::NotFound { url } => url@,
            CacheError::MissingPipe { url } => url@,
            CacheError::BadEncoding { url } => url@,
            CacheError::Compress { url } => url@,
            CacheError::Normalize { url, .. } => url@,
        }
    }

    /// The label of the failure, one per variant.
    pub open spec fn spec_label(&self) -> Seq<char> {
        match self {
            CacheError::Init { .. } => "git clone process failed"@,
            CacheError::Refresh { .. } => "git pull process failed"@,
            CacheError::Archive { .. } => "git-archive process failed"@,
            CacheError::NotFound { .. } => "git-show process failed (usually it's because file doesn't exist)"@,
            CacheError::MissingPipe { .. } => "unable to take subprocess pipe"@,
            CacheError::BadEncoding { .. } => "subprocess output is not text"@,
            CacheError::Compress { .. } => "compressing subprocess output failed"@,
            CacheError::Normalize { .. } => "can't normalize ref to commit hash"@,
        }
    }

    /// The one-line description of the failure: its label, then the remote
    /// URL it concerns.
    pub open spec fn spec_message(&self) -> Seq<char> {
        self.spec_label() + ": url="@ + self.spec_url()
    }

    /// A one-line description, for logs.
    pub fn message(&self) -> (r: String)
        ensures
            r@ == self.spec_message(),
    {
        match self {
            CacheError::Init { url, .. } => compose("git clone process failed", url),
            CacheError::Refresh { url, .. } => compose("git pull process failed", url),
            CacheError::Archive { url } => compose("git-archive process failed", url),
            CacheError::NotFound { url } => compose(
                "git-show process failed (usually it's because file doesn't exist)",
                url,
            ),
            CacheError::MissingPipe { url } => compose("unable to take subprocess pipe", url),
            CacheError::BadEncoding { url } => compose("subprocess output is not text", url),
            CacheError::Compress { url } => compose("compressing subprocess output failed", url),
            CacheError::Normalize { url, .. } => compose("can't normalize ref to commit hash", url),
        }
    }
}

/// A label followed by the remote URL it concerns.
fn compose(label: &str, url: &String) -> (r: String)
    ensures
        r@ == label@ + ": url="@ + url@,
{
    let mut r = String::from_str(label);
    r.append(": url=");
    r.append(url.as_str());
    r
}

impl BuildError {
    /// The one-line description of the failure.
    pub open spec fn spec_message(&self) -> Seq<char> {
        "docker build failed with a non-zero exit code"@
    }

    /// A one-line description, for logs.
    pub fn message(&self) -> (r: String)
        ensures
            r@ == self.spec_message(),
    {
        String::from_str("docker build failed with a non-zero exit code")
    }
}

} // verus!
