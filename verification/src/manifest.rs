//! A plugin's manifest and what its capability section grants: the
//! directories it may read and write, the commands it may run, the hosts and
//! HTTP requests it may make, and its storage, clipboard and exit rights.

use std::collections::HashMap;

use vstd::prelude::*;

use crate::audio::string_views;
use crate::text::{lowered, replace_all, replace_all_spec, to_lowercase};

verus! {

/// A plugin's manifest as its file spells it.
pub struct ManifestFile {
    /// Reverse-DNS identity, e.g. `com.example.inbox`.
    pub id: String,
    /// Human-readable name.
    pub name: String,
    /// Optional plugin semantic version.
    pub version: Option<String>,
    pub views: HashMap<String, String>,
    pub capabilities: CapabilitiesFile,
}

/// The capability section of a manifest.
pub struct CapabilitiesFile {
    /// Filesystem and subprocess access.
    pub fs: Option<FsGrantFile>,
    /// Outbound network access, by host.
    pub network: Option<NetworkGrantFile>,
    /// Whether `localStorage` is available; given unless the file says no.
    pub storage: bool,
    /// Clipboard access.
    pub clipboard: Option<ClipboardGrantFile>,
    /// Process-level host requests.
    pub process: Option<ProcessGrantFile>,
}

/// Filesystem and subprocess access as the file spells it.
pub struct FsGrantFile {
    /// Directories that may be read.
    pub read: Vec<String>,
    /// Directories that may be written.
    pub write: Vec<String>,
    /// Commands that may be started: a list, or a string for any.
    pub execute: Option<ExecuteFile>,
}

/// The commands a plugin may start, as the file spells them.
pub enum ExecuteFile {
    Allowed(Vec<String>),
    Unrestricted(String),
}

/// Network access as the file spells it.
pub struct NetworkGrantFile {
    pub hosts: Vec<String>,
    pub http: Vec<HttpRequestGrantFile>,
}

/// One kind of HTTP request a plugin may make.
pub struct HttpRequestGrantFile {
    pub scheme: String,
    pub host: String,
    pub port: Option<u16>,
    pub methods: Vec<String>,
    pub paths: Vec<String>,
    pub path_prefixes: Vec<String>,
}

/// Clipboard access as the file spells it.
pub struct ClipboardGrantFile {
    pub read: bool,
    pub write: bool,
}

/// Process-level rights as the file spells them.
pub struct ProcessGrantFile {
    pub exit: bool,
}

/// Which commands a plugin may start.
pub enum ExecuteGrant {
    Denied,
    Unrestricted,
    Allowed(Vec<String>),
}

/// One kind of HTTP request a plugin may make.
pub struct HttpRequestGrant {
    pub scheme: String,
    pub host: String,
    pub port: Option<u16>,
    pub methods: Vec<String>,
    pub paths: Vec<String>,
    pub path_prefixes: Vec<String>,
}

/// What a plugin is granted.
pub struct Capabilities {
    pub read_roots: Vec<String>,
    pub write_roots: Vec<String>,
    pub execute: ExecuteGrant,
    pub network_hosts: Vec<String>,
    pub http_requests: Vec<HttpRequestGrant>,
    pub storage: bool,
    pub clipboard_read: bool,
    pub clipboard_write: bool,
    pub exit: bool,
}

/// The scheme an HTTP grant has when the file names none.
pub fn default_https_scheme() -> (r: String)
    ensures
        r@ == "https"@,
{
    String::from_str("https")
}

/// Whether storage is granted when the file does not say.
pub fn granted() -> (r: bool)
    ensures
        r,
{
    true
}

/// A path that starts at the root.
pub open spec fn is_absolute(p: Seq<char>) -> bool {
    p.len() > 0 && p[0] == '/'
}

/// `path` under `base`, as `Path::join` puts it on Unix: an absolute `path`
/// replaces `base`; otherwise a `/` goes between them unless `base` is empty
/// or already ends in one.
pub open spec fn joined(base: Seq<char>, path: Seq<char>) -> Seq<char> {
    if is_absolute(path) {
        path
    } else if base.len() == 0 || base.last() == '/' {
        base + path
    } else {
        base + seq!['/'] + path
    }
}

/// `raw` with its placeholders `${pluginDir}` and `${dataDir}` filled in, under the plugin's directory when
/// it is not absolute.
pub open spec fn expanded(raw: Seq<char>, plugin_dir: Seq<char>, data_dir: Seq<char>) -> Seq<char> {
    let filled = replace_all_spec(
        replace_all_spec(raw, "${pluginDir}"@, plugin_dir),
        "${dataDir}"@,
        data_dir,
    );
    if is_absolute(filled) {
        filled
    } else {
        joined(plugin_dir, filled)
    }
}

/// `path` under `base`, as `Path::join` puts it on Unix.
pub fn join_path(base: &str, path: &str) -> (r: String)
    ensures
        r@ == joined(base@, path@),
{
    let n = base.unicode_len();
    if path.unicode_len() > 0 && path.get_char(0) == '/' {
        String::from_str(path)
    } else if n == 0 || base.get_char(n - 1) == '/' {
        let mut out = String::from_str(base);
        out.append(path);
        out
    } else {
        let mut out = String::from_str(base);
        out.append("/");
        out.append(path);
        proof {
            reveal_strlit("/");
        }
        out
    }
}

/// `raw` with `${pluginDir}` and `${dataDir}` filled in, under the plugin's
/// directory when it is not absolute.
pub fn expand(raw: &str, plugin_dir: &str, data_dir: &str) -> (r: String)
    ensures
        r@ == expanded(raw@, plugin_dir@, data_dir@),
{
    proof {
        reveal_strlit("${pluginDir}");
        reveal_strlit("${dataDir}");
    }
    let with_plugin = replace_all(raw, "${pluginDir}", plugin_dir);
    let filled = replace_all(with_plugin.as_str(), "${dataDir}", data_dir);
    if filled.as_str().unicode_len() > 0 && filled.as_str().get_char(0) == '/' {
        filled
    } else {
        join_path(plugin_dir, filled.as_str())
    }
}

/// Each of `paths`, expanded.
pub fn expand_all(paths: &Vec<String>, plugin_dir: &str, data_dir: &str) -> (r: Vec<String>)
    ensures
        r@.len() == paths@.len(),
        forall|i: int|
            0 <= i < r@.len() ==> r@[i]@ == expanded(paths@[i]@, plugin_dir@, data_dir@),
{
    let mut out: Vec<String> = Vec::new();
    let mut i: usize = 0;
    while i < paths.len()
        invariant
            i <= paths@.len(),
            out@.len() == i,
            forall|j: int|
                0 <= j < i ==> out@[j]@ == expanded(paths@[j]@, plugin_dir@, data_dir@),
        decreases paths@.len() - i,
    {
        out.push(expand(paths[i].as_str(), plugin_dir, data_dir));
        i = i + 1;
    }
    out
}

fn copy_strings(v: &Vec<String>) -> (r: Vec<String>)
    ensures
        string_views(r@) == string_views(v@),
{
    let r = v.clone();
    assert(string_views(r@) =~= string_views(v@));
    r
}

fn lowercase_all(v: &Vec<String>) -> (r: Vec<String>)
    ensures
        r@.len() == v@.len(),
        forall|i: int| 0 <= i < r@.len() ==> r@[i]@ == lowered(v@[i]@),
{
    let mut out: Vec<String> = Vec::new();
    let mut i: usize = 0;
    while i < v.len()
        invariant
            i <= v@.len(),
            out@.len() == i,
            forall|j: int| 0 <= j < i ==> out@[j]@ == lowered(v@[j]@),
        decreases v@.len() - i,
    {
        out.push(to_lowercase(v[i].as_str()));
        i = i + 1;
    }
    out
}

/// `g` grants the request `f` describes.
pub open spec fn http_granted(f: HttpRequestGrantFile, g: HttpRequestGrant) -> bool {
    &&& g.scheme@ == f.scheme@
    &&& g.host@ == f.host@
    &&& g.port == f.port
    &&& string_views(g.methods@) == string_views(f.methods@)
    &&& string_views(g.paths@) == string_views(f.paths@)
    &&& string_views(g.path_prefixes@) == string_views(f.path_prefixes@)
}

fn grant_http(f: &HttpRequestGrantFile) -> (r: HttpRequestGrant)
    ensures
        http_granted(*f, r),
{
    HttpRequestGrant {
        scheme: f.scheme.clone(),
        host: f.host.clone(),
        port: f.port,
        methods: copy_strings(&f.methods),
        paths: copy_strings(&f.paths),
        path_prefixes: copy_strings(&f.path_prefixes),
    }
}

/// The directories a section lets be read; none without an `fs` part.
pub open spec fn read_paths(c: CapabilitiesFile) -> Seq<String> {
    match c.fs {
        Some(fs) => fs.read@,
        None => Seq::empty(),
    }
}

/// The directories a section lets be written; none without an `fs` part.
pub open spec fn write_paths(c: CapabilitiesFile) -> Seq<String> {
    match c.fs {
        Some(fs) => fs.write@,
        None => Seq::empty(),
    }
}

/// `g` is what the `execute` part of a section grants: nothing when it is
/// missing, any command for a string, and the listed ones for a list.
pub open spec fn execute_granted(c: CapabilitiesFile, g: ExecuteGrant) -> bool {
    match c.fs {
        Some(fs) => match fs.execute {
            None => g is Denied,
            Some(ExecuteFile::Unrestricted(_)) => g is Unrestricted,
            Some(ExecuteFile::Allowed(commands)) => match g {
                ExecuteGrant::Allowed(granted) => string_views(granted@) == string_views(commands@),
                _ => false,
            },
        },
        None => g is Denied,
    }
}

/// The hosts a section names; none without a `network` part.
pub open spec fn hosts(c: CapabilitiesFile) -> Seq<String> {
    match c.network {
        Some(n) => n.hosts@,
        None => Seq::empty(),
    }
}

/// The HTTP requests a section describes; none without a `network` part.
pub open spec fn http_requests(c: CapabilitiesFile) -> Seq<HttpRequestGrantFile> {
    match c.network {
        Some(n) => n.http@,
        None => Seq::empty(),
    }
}

impl CapabilitiesFile {
    /// What this section grants a plugin living in `plugin_dir` with its
    /// storage in `data_dir`: paths expanded, hosts lowercased, and every
    /// part the file leaves out granting nothing, storage aside.
    pub fn grant(&self, plugin_dir: &str, data_dir: &str) -> (r: Capabilities)
        ensures
            r.read_roots@.len() == read_paths(*self).len(),
            forall|i: int|
                0 <= i < r.read_roots@.len() ==> r.read_roots@[i]@ == expanded(
                    read_paths(*self)[i]@,
                    plugin_dir@,
                    data_dir@,
                ),
            r.write_roots@.len() == write_paths(*self).len(),
            forall|i: int|
                0 <= i < r.write_roots@.len() ==> r.write_roots@[i]@ == expanded(
                    write_paths(*self)[i]@,
                    plugin_dir@,
                    data_dir@,
                ),
            execute_granted(*self, r.execute),
            r.network_hosts@.len() == hosts(*self).len(),
            forall|i: int|
                0 <= i < r.network_hosts@.len() ==> r.network_hosts@[i]@ == lowered(
                    hosts(*self)[i]@,
                ),
            r.http_requests@.len() == http_requests(*self).len(),
            forall|i: int|
                0 <= i < r.http_requests@.len() ==> http_granted(
                    http_requests(*self)[i],
                    r.http_requests@[i],
                ),
            r.storage == self.storage,
            r.clipboard_read == match self.clipboard {
                Some(c) => c.read,
                None => false,
            },
            r.clipboard_write == match self.clipboard {
                Some(c) => c.write,
                None => false,
            },
            r.exit == match self.process {
                Some(p) => p.exit,
                None => false,
            },
    {
        let empty: Vec<String> = Vec::new();
        let (read_roots, write_roots, execute) = match &self.fs {
            Some(fs) => {
                let execute = match &fs.execute {
                    None => ExecuteGrant::Denied,
                    Some(ExecuteFile::Unrestricted(_)) => ExecuteGrant::Unrestricted,
                    Some(ExecuteFile::Allowed(commands)) => ExecuteGrant::Allowed(
                        copy_strings(commands),
                    ),
                };
                (
                    expand_all(&fs.read, plugin_dir, data_dir),
                    expand_all(&fs.write, plugin_dir, data_dir),
                    execute,
                )
            },
            None => (
                expand_all(&empty, plugin_dir, data_dir),
                expand_all(&empty, plugin_dir, data_dir),
                ExecuteGrant::Denied,
            ),
        };
        let (network_hosts, http_requests) = match &self.network {
            Some(network) => {
                let mut http: Vec<HttpRequestGrant> = Vec::new();
                let mut i: usize = 0;
                while i < network.http.len()
                    invariant
                        i <= network.http@.len(),
                        http@.len() == i,
                        forall|j: int| 0 <= j < i ==> http_granted(network.http@[j], #[trigger] http@[j]),
                    decreases network.http@.len() - i,
                {
                    http.push(grant_http(&network.http[i]));
                    i = i + 1;
                }
                (lowercase_all(&network.hosts), http)
            },
            None => (Vec::new(), Vec::new()),
        };
        let (clipboard_read, clipboard_write) = match &self.clipboard {
            Some(c) => (c.read, c.write),
            None => (false, false),
        };
        let exit = match &self.process {
            Some(p) => p.exit,
            None => false,
        };
        Capabilities {
            read_roots,
            write_roots,
            execute,
            network_hosts,
            http_requests,
            storage: self.storage,
            clipboard_read,
            clipboard_write,
            exit,
        }
    }
}

} // verus!
