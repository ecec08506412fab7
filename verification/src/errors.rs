//! The structured errors that the install engine returns.

use vstd::prelude::*;

verus! {

/// The kind of an [`InstallError`], without its details.
#[derive(Clone, Copy, Debug, PartialEq, Eq, Structural)]
pub enum ErrorKind {
    Network,
    Registry,
    Integrity,
    Decompress,
    Tar,
    Filesystem,
    LinkConflict,
    Cas,
}

/// An error met while installing one package.
#[derive(Debug, PartialEq, Eq)]
pub enum InstallError {
    /// The transport failed before a response arrived.
    Network,
    /// The registry answered with a status outside 200..=299.
    Registry { status: u16 },
    /// The tarball's digest is not the one the package declares.
    Integrity { expected: String, actual: String },
    /// The gzip stream is invalid.
    Decompress,
    /// The tar stream is malformed or holds an entry that is not safe to write.
    Tar,
    /// Input or output failed at `path` while materializing or linking.
    Filesystem { path: String, cause: String },
    /// A link already exists at `path` and points at `actual`, not `expected`.
    LinkConflict { path: String, expected: String, actual: String },
    /// The content-addressed store holds an entry that cannot be read back.
    Cas,
}

/// The mathematical value of an [`InstallError`].
pub enum ErrorModel {
    Network,
    Registry { status: u16 },
    Integrity { expected: Seq<char>, actual: Seq<char> },
    Decompress,
    Tar,
    Filesystem { path: Seq<char>, cause: Seq<char> },
    LinkConflict { path: Seq<char>, expected: Seq<char>, actual: Seq<char> },
    Cas,
}

impl ErrorModel {
    /// The kind of the error.
    pub open spec fn kind(self) -> ErrorKind {
        match self {
            ErrorModel::Network => ErrorKind::Network,
            ErrorModel::Registry { .. } => ErrorKind::Registry,
            ErrorModel::Integrity { .. } => ErrorKind::Integrity,
            ErrorModel::Decompress => ErrorKind::Decompress,
            ErrorModel::Tar => ErrorKind::Tar,
            ErrorModel::Filesystem { .. } => ErrorKind::Filesystem,
            ErrorModel::LinkConflict { .. } => ErrorKind::LinkConflict,
            ErrorModel::Cas => ErrorKind::Cas,
        }
    }

    /// A caller may try the same request again: after a transport failure,
    /// and after a registry answer in 500..=599.
    pub open spec fn retryable(self) -> bool {
        match self {
            ErrorModel::Network => true,
            ErrorModel::Registry { status } => 500 <= status <= 599,
            _ => false,
        }
    }

    /// The error ends the whole install, not only one package.
    pub open spec fn aborts_install(self) -> bool {
        self is Cas
    }
}

/// The stable tag of each kind of error.
pub open spec fn tag_of(kind: ErrorKind) -> Seq<char> {
    match kind {
        ErrorKind::Network => "NetworkError"@,
        ErrorKind::Registry => "RegistryError"@,
        ErrorKind::Integrity => "IntegrityError"@,
        ErrorKind::Decompress => "DecompressError"@,
        ErrorKind::Tar => "TarError"@,
        ErrorKind::Filesystem => "FilesystemError"@,
        ErrorKind::LinkConflict => "LinkConflict"@,
        ErrorKind::Cas => "CasError"@,
    }
}

impl View for InstallError {
    type V = ErrorModel;

    open spec fn view(&self) -> ErrorModel {
        match self {
            InstallError::Network => ErrorModel::Network,
            InstallError::Registry { status } => ErrorModel::Registry { status: *status },
            InstallError::Integrity { expected, actual } => ErrorModel::Integrity {
                expected: expected@,
                actual: actual@,
            },
            InstallError::Decompress => ErrorModel::Decompress,
            InstallError::Tar => ErrorModel::Tar,
            InstallError::Filesystem { path, cause } => ErrorModel::Filesystem {
                path: path@,
                cause: cause@,
            },
            InstallError::LinkConflict { path, expected, actual } => ErrorModel::LinkConflict {
                path: path@,
                expected: expected@,
                actual: actual@,
            },
            InstallError::Cas => ErrorModel::Cas,
        }
    }
}

impl InstallError {
    /// The kind of this error.
    pub fn kind(&self) -> (k: ErrorKind)
        ensures
            k == self@.kind(),
    {
        match self {
            InstallError::Network => ErrorKind::Network,
            InstallError::Registry { .. } => ErrorKind::Registry,
            InstallError::Integrity { .. } => ErrorKind::Integrity,
            InstallError::Decompress => ErrorKind::Decompress,
            InstallError::Tar => ErrorKind::Tar,
            InstallError::Filesystem { .. } => ErrorKind::Filesystem,
            InstallError::LinkConflict { .. } => ErrorKind::LinkConflict,
            InstallError::Cas => ErrorKind::Cas,
        }
    }

    /// The stable tag by which callers tell the kinds apart.
    pub fn tag(&self) -> (t: &'static str)
        ensures
            t@ == tag_of(self@.kind()),
    {
        match self {
            InstallError::Network => "NetworkError",
            InstallError::Registry { .. } => "RegistryError",
            InstallError::Integrity { .. } => "IntegrityError",
            InstallError::Decompress => "DecompressError",
            InstallError::Tar => "TarError",
            InstallError::Filesystem { .. } => "FilesystemError",
            InstallError::LinkConflict { .. } => "LinkConflict",
            InstallError::Cas => "CasError",
        }
    }

    /// Whether the caller may try the failed request again.
    pub fn is_retryable(&self) -> (r: bool)
        ensures
            r == self@.retryable(),
    {
        match self {
            InstallError::Network => true,
            InstallError::Registry { status } => 500 <= *status && *status <= 599,
            _ => false,
        }
    }

    /// Whether the error ends the whole install.
    pub fn aborts_install(&self) -> (r: bool)
        ensures
            r == self@.aborts_install(),
    {
        match self {
            InstallError::Cas => true,
            _ => false,
        }
    }

    /// An independent copy of this error.
    pub fn duplicate(&self) -> (e: InstallError)
        ensures
            e@ == self@,
    {
        match self {
            InstallError::Network => InstallError::Network,
            InstallError::Registry { status } => InstallError::Registry { status: *status },
            InstallError::Integrity { expected, actual } => InstallError::Integrity {
                expected: expected.clone(),
                actual: actual.clone(),
            },
            InstallError::Decompress => InstallError::Decompress,
            InstallError::Tar => InstallError::Tar,
            InstallError::Filesystem { path, cause } => InstallError::Filesystem {
                path: path.clone(),
                cause: cause.clone(),
            },
            InstallError::LinkConflict { path, expected, actual } => InstallError::LinkConflict {
                path: path.clone(),
                expected: expected.clone(),
                actual: actual.clone(),
            },
            InstallError::Cas => InstallError::Cas,
        }
    }
}

/// Two errors of different kinds never carry the same tag.
pub proof fn tags_tell_kinds_apart(a: ErrorKind, b: ErrorKind)
    ensures
        tag_of(a) == tag_of(b) <==> a == b,
{
    reveal_strlit("NetworkError");
    reveal_strlit("RegistryError");
    reveal_strlit("IntegrityError");
    reveal_strlit("DecompressError");
    reveal_strlit("TarError");
    reveal_strlit("FilesystemError");
    reveal_strlit("LinkConflict");
    reveal_strlit("CasError");
    if a != b && tag_of(a) == tag_of(b) {
        assert(tag_of(a).len() == tag_of(b).len());
        assert(tag_of(a)[0] == tag_of(b)[0]);
    }
}

} // verus!
