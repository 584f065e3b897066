//! Where the backend keeps its data, configuration, cache and resources.
use crate::error::{BackendError, BackendErrorCode};
use std::path::PathBuf;
use vstd::prelude::*;

verus! {

#[verifier::external_type_specification]
#[verifier::external_body]
pub struct ExPathBuf(PathBuf);

/// `PathBuf::clone`: an equal path.
pub assume_specification[ <PathBuf as Clone>::clone ](p: &PathBuf) -> (r: PathBuf)
    ensures
        r == *p,
;

/// What `Path::join` gives for `base` and `component`.
pub uninterp spec fn joined_path(base: PathBuf, component: Seq<char>) -> PathBuf;

/// `Path::join`: the path with `component` appended. Claimed: the result
/// depends on the two arguments alone (named `joined_path`).
#[verifier::external_body]
fn join_path(base: &PathBuf, component: &str) -> (r: PathBuf)
    ensures
        r == joined_path(*base, component@),
{
    base.join(component)
}

/// `dirs::data_dir`: the system data directory, if the system has one.
#[verifier::external_body]
fn system_data_dir() -> (r: Option<PathBuf>) {
    dirs::data_dir()
}

/// `dirs::config_dir`: the system configuration directory, if any.
#[verifier::external_body]
fn system_config_dir() -> (r: Option<PathBuf>) {
    dirs::config_dir()
}

/// `dirs::cache_dir`: the system cache directory, if any.
#[verifier::external_body]
fn system_cache_dir() -> (r: Option<PathBuf>) {
    dirs::cache_dir()
}

/// The directories of the backend.
pub trait AppPaths {
    fn data_dir(&self) -> Result<PathBuf, BackendError>;

    fn config_dir(&self) -> Result<PathBuf, BackendError>;

    fn cache_dir(&self) -> Result<PathBuf, BackendError>;

    fn resource_dir(&self) -> Result<PathBuf, BackendError>;
}

/// Directories fixed in advance.
#[derive(Clone, Debug)]
pub struct ResolvedAppPaths {
    data_dir: PathBuf,
    config_dir: PathBuf,
    cache_dir: PathBuf,
    resource_dir: PathBuf,
}

impl ResolvedAppPaths {
    /// The data directory.
    pub closed spec fn data(&self) -> PathBuf {
        self.data_dir
    }

    /// The configuration directory.
    pub closed spec fn config(&self) -> PathBuf {
        self.config_dir
    }

    /// The cache directory.
    pub closed spec fn cache(&self) -> PathBuf {
        self.cache_dir
    }

    /// The resource directory.
    pub closed spec fn resource(&self) -> PathBuf {
        self.resource_dir
    }

    /// The given directories.
    pub fn new(data_dir: PathBuf, config_dir: PathBuf, cache_dir: PathBuf, resource_dir: PathBuf) -> (r:
        Self)
        ensures
            r.data() == data_dir,
            r.config() == config_dir,
            r.cache() == cache_dir,
            r.resource() == resource_dir,
    {
        ResolvedAppPaths { data_dir, config_dir, cache_dir, resource_dir }
    }
}

impl AppPaths for ResolvedAppPaths {
    fn data_dir(&self) -> (r: Result<PathBuf, BackendError>)
        ensures
            r == Ok::<PathBuf, BackendError>(self.data()),
    {
        Ok(self.data_dir.clone())
    }

    fn config_dir(&self) -> (r: Result<PathBuf, BackendError>)
        ensures
            r == Ok::<PathBuf, BackendError>(self.config()),
    {
        Ok(self.config_dir.clone())
    }

    fn cache_dir(&self) -> (r: Result<PathBuf, BackendError>)
        ensures
            r == Ok::<PathBuf, BackendError>(self.cache()),
    {
        Ok(self.cache_dir.clone())
    }

    fn resource_dir(&self) -> (r: Result<PathBuf, BackendError>)
        ensures
            r == Ok::<PathBuf, BackendError>(self.resource()),
    {
        Ok(self.resource_dir.clone())
    }
}

/// The directories of the headless server: the system's data, configuration
/// and cache directories, each under the application's identifier.
#[derive(Clone, Debug)]
pub struct HeadlessAppPaths {
    resolved: ResolvedAppPaths,
}

/// The error for a system directory that cannot be found.
pub open spec fn missing_message(kind: Seq<char>) -> Seq<char> {
    "Unable to resolve the system "@ + kind + " directory"@
}

fn missing(kind: &str) -> (e: BackendError)
    ensures
        e.code == BackendErrorCode::NotReady,
        e.message@ == missing_message(kind@),
{
    BackendError::with_message(
        BackendErrorCode::NotReady,
        crate::process::cat3("Unable to resolve the system ", kind, " directory"),
    )
}

/// The directory whose lookup failed first, if one did: the data
/// directory's (needed only without an explicit one), then the
/// configuration's, then the cache's.
pub open spec fn first_missing(
    data: Option<PathBuf>,
    config: Option<PathBuf>,
    cache: Option<PathBuf>,
    data_dir_override: Option<PathBuf>,
) -> Option<Seq<char>> {
    if data_dir_override is None && data is None {
        Some("data"@)
    } else if config is None {
        Some("config"@)
    } else if cache is None {
        Some("cache"@)
    } else {
        None
    }
}

/// The directories (data, configuration, cache, resources) resolved from the
/// system's data, configuration and cache directories (each `None` when the
/// system has none): each of them joined
/// with the application's identifier, the data directory replaced by an
/// explicit one when given; or the error naming the first one missing.
pub open spec fn resolution(
    app_identifier: Seq<char>,
    data: Option<PathBuf>,
    config: Option<PathBuf>,
    cache: Option<PathBuf>,
    data_dir_override: Option<PathBuf>,
    resource_dir: PathBuf,
) -> Result<(PathBuf, PathBuf, PathBuf, PathBuf), (BackendErrorCode, Seq<char>)> {
    match first_missing(data, config, cache, data_dir_override) {
        Some(kind) => Err((BackendErrorCode::NotReady, missing_message(kind))),
        None => Ok(
            (
                match data_dir_override {
                    Some(d) => d,
                    None => joined_path(data->0, app_identifier),
                },
                joined_path(config->0, app_identifier),
                joined_path(cache->0, app_identifier),
                resource_dir,
            ),
        ),
    }
}

/// A resolution in mathematical form: data, configuration, cache and
/// resource directories, or the error's code and message.
pub open spec fn resolved(r: Result<HeadlessAppPaths, BackendError>) -> Result<
    (PathBuf, PathBuf, PathBuf, PathBuf),
    (BackendErrorCode, Seq<char>),
> {
    match r {
        Ok(p) => Ok((p.dirs().data(), p.dirs().config(), p.dirs().cache(), p.dirs().resource())),
        Err(e) => Err((e.code, e.message@)),
    }
}

impl HeadlessAppPaths {
    /// The directories.
    pub closed spec fn dirs(&self) -> ResolvedAppPaths {
        self.resolved
    }

    /// The directories under the given system directories (see [`resolution`]).
    pub fn resolve_from(
        app_identifier: &str,
        data: Option<PathBuf>,
        config: Option<PathBuf>,
        cache: Option<PathBuf>,
        data_dir_override: Option<PathBuf>,
        resource_dir: PathBuf,
    ) -> (r: Result<Self, BackendError>)
        ensures
            resolved(r) == resolution(
                app_identifier@,
                data,
                config,
                cache,
                data_dir_override,
                resource_dir,
            ),
    {
        proof {
            reveal_strlit("data");
            reveal_strlit("config");
            reveal_strlit("cache");
        }
        let data_dir = match data_dir_override {
            Some(path) => path,
            None => match &data {
                Some(base) => join_path(base, app_identifier),
                None => {
                    return Err(missing("data"));
                },
            },
        };
        let config_dir = match &config {
            Some(base) => join_path(base, app_identifier),
            None => {
                return Err(missing("config"));
            },
        };
        let cache_dir = match &cache {
            Some(base) => join_path(base, app_identifier),
            None => {
                return Err(missing("cache"));
            },
        };
        Ok(
            HeadlessAppPaths {
                resolved: ResolvedAppPaths::new(data_dir, config_dir, cache_dir, resource_dir),
            },
        )
    }

    /// The directories under the system's ones; `resource_dir` is the
    /// directory of the running executable (or `.`).
    pub fn resolve(app_identifier: &str, resource_dir: PathBuf) -> (r: Result<Self, BackendError>)
        ensures
            exists|data: Option<PathBuf>, config: Option<PathBuf>, cache: Option<PathBuf>|
                resolved(r) == resolution(app_identifier@, data, config, cache, None, resource_dir),
    {
        Self::resolve_with_data_dir(app_identifier, None, resource_dir)
    }

    /// The directories, with the data directory given or else under the
    /// system's (see [`resolution`]); the system's directories are whatever
    /// the system reports.
    pub fn resolve_with_data_dir(
        app_identifier: &str,
        data_dir_override: Option<PathBuf>,
        resource_dir: PathBuf,
    ) -> (r: Result<Self, BackendError>)
        ensures
            exists|data: Option<PathBuf>, config: Option<PathBuf>, cache: Option<PathBuf>|
                resolved(r) == resolution(
                    app_identifier@,
                    data,
                    config,
                    cache,
                    data_dir_override,
                    resource_dir,
                ),
    {
        let data = match data_dir_override {
            Some(_) => None,
            None => system_data_dir(),
        };
        let config = system_config_dir();
        let cache = system_cache_dir();
        Self::resolve_from(app_identifier, data, config, cache, data_dir_override, resource_dir)
    }
}

impl AppPaths for HeadlessAppPaths {
    fn data_dir(&self) -> (r: Result<PathBuf, BackendError>)
        ensures
            r == Ok::<PathBuf, BackendError>(self.dirs().data()),
    {
        self.resolved.data_dir()
    }

    fn config_dir(&self) -> (r: Result<PathBuf, BackendError>)
        ensures
            r == Ok::<PathBuf, BackendError>(self.dirs().config()),
    {
        self.resolved.config_dir()
    }

    fn cache_dir(&self) -> (r: Result<PathBuf, BackendError>)
        ensures
            r == Ok::<PathBuf, BackendError>(self.dirs().cache()),
    {
        self.resolved.cache_dir()
    }

    fn resource_dir(&self) -> (r: Result<PathBuf, BackendError>)
        ensures
            r == Ok::<PathBuf, BackendError>(self.dirs().resource()),
    {
        self.resolved.resource_dir()
    }
}

} // verus!
