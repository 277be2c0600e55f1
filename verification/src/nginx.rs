//! The virtual-host configuration manager: the proxy's global configuration,
//! the configuration of one site per project, and the file operations that
//! put them in place.
//!
//! Nothing here touches a file. The functions say which files to write or
//! remove, and with what text; the caller does it, and reloads the proxy
//! afterwards.

use vstd::prelude::*;
use crate::hosts::{domain_chars, host_domain};
use crate::path::{file_name, file_name_of, join, join_path};
use crate::text::{from_chars, push_all, push_str, replace_char, replace_char_chars, to_chars};

verus! {

/// The global configuration up to the directory of the enabled sites.
pub const GLOBAL_CONFIG_HEAD: &'static str = r#"worker_processes  1;

events {
    worker_connections  1024;
}

http {
    include       mime.types;
    default_type  application/octet-stream;

    log_format  main  '$remote_addr - $remote_user [$time_local] "$request" '
                      '$status $body_bytes_sent "$http_referer" '
                      '"$http_user_agent" "$http_x_forwarded_for"';

    access_log  logs/access.log  main;

    sendfile        on;
    #tcp_nopush     on;

    keepalive_timeout  65;

    #gzip  on;

    include ""#;

/// The global configuration after the directory of the enabled sites.
pub const GLOBAL_CONFIG_TAIL: &'static str = r#"/*.conf";

    server {
        listen       80;
        server_name  localhost;

        location / {
            root   html;
            index  index.html index.htm;
        }

        error_page   500 502 503 504  /50x.html;
        location = /50x.html {
            root   html;
        }
    }
}
pid        logs/nginx.pid;
"#;

/// The configuration of a site up to the project's domain.
pub const SITE_CONFIG_HEAD: &'static str = r#"
       

server {
    listen       80;
    server_name  "#;

/// The configuration of a site between the project's domain and the
/// document root of its pages.
pub const SITE_CONFIG_PAGES: &'static str = r#";

    location / {
        root   ""#;

/// The configuration of a site between the document root of its pages and
/// that of its scripts.
pub const SITE_CONFIG_SCRIPTS: &'static str = r#"";
        index  index.php index.html index.htm;
        try_files $uri $uri/ /index.php?$query_string;
    }

    location ~ \.php$ {
        root           ""#;

/// The configuration of a site after the document root of its scripts.
pub const SITE_CONFIG_TAIL: &'static str = r#"";
        fastcgi_pass   127.0.0.1:9000;
        fastcgi_index  index.php;
        fastcgi_param  SCRIPT_FILENAME $document_root$fastcgi_script_name;
        include        fastcgi_params;
    }

    location ~ /\.ht {
        deny all;
    }
}

"#;

/// A path as the proxy reads it: with `/` in place of every `\`.
pub open spec fn proxy_path(path: Seq<char>) -> Seq<char> {
    replace_char(path, '\\', '/')
}

/// The text of the global configuration that takes in every site file of
/// the directory `sites_dir`.
pub open spec fn global_config(sites_dir: Seq<char>) -> Seq<char> {
    GLOBAL_CONFIG_HEAD@ + proxy_path(sites_dir) + GLOBAL_CONFIG_TAIL@
}

/// The text of the global configuration that takes in every site file of
/// the directory `sites_dir`.
pub fn generate_nginx_global_config(sites_dir: &str) -> (config: String)
    ensures
        config@ == global_config(sites_dir@),
{
    let mut out = to_chars(GLOBAL_CONFIG_HEAD);
    let dir = to_chars(sites_dir);
    let dir = replace_char_chars(&dir, '\\', '/');
    push_all(&mut out, &dir);
    push_str(&mut out, GLOBAL_CONFIG_TAIL);
    from_chars(&out)
}

/// The names under which the page that opens a site is looked for.
pub fn index_file_names() -> (names: Vec<String>)
    ensures
        names@.len() == 3,
        names@[0]@ == "index.php"@,
        names@[1]@ == "index.html"@,
        names@[2]@ == "index.htm"@,
{
    let mut names: Vec<String> = Vec::new();
    names.push(String::from_str("index.php"));
    names.push(String::from_str("index.html"));
    names.push(String::from_str("index.htm"));
    names
}

/// Where the index files of a project were found.
#[derive(Debug, Clone, Copy, PartialEq, Eq, Structural)]
pub struct IndexProbe {
    /// An index file lies in the project's directory itself.
    pub in_project: bool,
    /// An index file lies in the project's `public` directory.
    pub in_public: bool,
}

/// The directory that the proxy serves for the project at `path`: the
/// project's directory where it holds an index file, else its `public`
/// directory where that holds one, else the project's directory.
pub open spec fn document_root(path: Seq<char>, probe: IndexProbe) -> Seq<char> {
    if !probe.in_project && probe.in_public {
        join(path, "public"@)
    } else {
        path
    }
}

/// The text of the site configuration that serves `root` under the domain
/// of the project `name`.
pub open spec fn site_config(name: Seq<char>, root: Seq<char>) -> Seq<char> {
    SITE_CONFIG_HEAD@ + host_domain(name) + SITE_CONFIG_PAGES@ + proxy_path(root)
        + SITE_CONFIG_SCRIPTS@ + proxy_path(root) + SITE_CONFIG_TAIL@
}

/// The file name of the site configuration of the project `name`.
pub open spec fn site_file_name(name: Seq<char>) -> Seq<char> {
    name + ".conf"@
}

/// The directory of the enabled sites below the proxy's directory.
pub open spec fn sites_dir(nginx_path: Seq<char>) -> Seq<char> {
    join(nginx_path, "sites-enabled"@)
}

/// The place of the global configuration below the proxy's directory.
pub open spec fn global_config_path(nginx_path: Seq<char>) -> Seq<char> {
    join(nginx_path, "conf/nginx.conf"@)
}

/// The place of the site configuration of the project `name`.
pub open spec fn site_config_path(nginx_path: Seq<char>, name: Seq<char>) -> Seq<char> {
    join(sites_dir(nginx_path), site_file_name(name))
}

/// One operation on the proxy's configuration files, as text: the model of
/// a `FileStep`.
pub enum FileChange {
    /// The directory is created.
    CreateDir(Seq<char>),
    /// The file holds the text afterwards, and nothing else.
    Write(Seq<char>, Seq<char>),
    /// The file is gone afterwards; it need not have been there.
    Remove(Seq<char>),
}

/// One operation on the proxy's configuration files.
#[derive(Debug, Clone, PartialEq, Eq)]
pub enum FileStep {
    /// Create the directory.
    CreateDir(String),
    /// Put the text in the file, in place of whatever it held.
    Write { path: String, contents: String },
    /// Remove the file. That there is none is no error.
    Remove(String),
}

impl View for FileStep {
    type V = FileChange;

    open spec fn view(&self) -> FileChange {
        match self {
            FileStep::CreateDir(path) => FileChange::CreateDir(path@),
            FileStep::Write { path, contents } => FileChange::Write(path@, contents@),
            FileStep::Remove(path) => FileChange::Remove(path@),
        }
    }
}

/// The models of a list of file operations.
pub open spec fn file_changes(steps: Seq<FileStep>) -> Seq<FileChange> {
    steps.map_values(|step: FileStep| step@)
}

/// Why no site configuration could be named.
#[derive(Debug, Clone, Copy, PartialEq, Eq, Structural)]
pub enum SiteError {
    /// The project's path ends in no name.
    NoSiteName,
}

/// The document root of the project at `path`.
pub fn resolve_document_root(path: &str, probe: IndexProbe) -> (root: String)
    ensures
        root@ == document_root(path@, probe),
{
    if !probe.in_project && probe.in_public {
        join_path(path, "public")
    } else {
        let chars = to_chars(path);
        from_chars(&chars)
    }
}

/// The text of the site configuration of the project at `path`, served
/// under the domain of `server_name`.
pub fn generate_nginx_site_config(path: &str, server_name: &str, probe: IndexProbe) -> (config:
    String)
    ensures
        config@ == site_config(server_name@, document_root(path@, probe)),
{
    let root = resolve_document_root(path, probe);
    let root = to_chars(root.as_str());
    let root = replace_char_chars(&root, '\\', '/');
    let mut out = to_chars(SITE_CONFIG_HEAD);
    let domain = domain_chars(server_name);
    push_all(&mut out, &domain);
    push_str(&mut out, SITE_CONFIG_PAGES);
    push_all(&mut out, &root);
    push_str(&mut out, SITE_CONFIG_SCRIPTS);
    push_all(&mut out, &root);
    push_str(&mut out, SITE_CONFIG_TAIL);
    from_chars(&out)
}

/// What to do so that the global configuration exists: nothing where it
/// exists already, whatever it holds; else it is written, taking in the
/// directory of the enabled sites.
pub fn create_global_nginx_config(nginx_path: &str, exists: bool) -> (step: Option<FileStep>)
    ensures
        exists ==> step is None,
        !exists ==> (step matches Some(write) && write@ == FileChange::Write(
            global_config_path(nginx_path@),
            global_config(sites_dir(nginx_path@)),
        )),
{
    if exists {
        return None;
    }
    let path = join_path(nginx_path, "conf/nginx.conf");
    let sites = join_path(nginx_path, "sites-enabled");
    let contents = generate_nginx_global_config(sites.as_str());
    Some(FileStep::Write { path, contents })
}

/// The operations that put the site configuration of the project at `path`
/// in place.
///
/// The site is named after the name that `path` ends in; a path that ends in
/// none has no site. The directory of the enabled sites is created first
/// where it is absent. The site file is written whether or not there was
/// one.
pub fn create_nginx_config(
    nginx_path: &str,
    path: &str,
    sites_dir_exists: bool,
    probe: IndexProbe,
) -> (result: Result<Vec<FileStep>, SiteError>)
    ensures
        file_name(path@) is None ==> result == Err::<Vec<FileStep>, SiteError>(
            SiteError::NoSiteName,
        ),
        file_name(path@) matches Some(name) ==> (result matches Ok(steps) && file_changes(steps@)
            == if sites_dir_exists {
            seq![
                FileChange::Write(
                    site_config_path(nginx_path@, name),
                    site_config(name, document_root(path@, probe)),
                ),
            ]
        } else {
            seq![
                FileChange::CreateDir(sites_dir(nginx_path@)),
                FileChange::Write(
                    site_config_path(nginx_path@, name),
                    site_config(name, document_root(path@, probe)),
                ),
            ]
        }),
{
    let name = match file_name_of(path) {
        Some(name) => name,
        None => {
            return Err(SiteError::NoSiteName);
        },
    };
    let sites = join_path(nginx_path, "sites-enabled");
    let mut file = to_chars(name.as_str());
    push_str(&mut file, ".conf");
    let file = from_chars(&file);
    let target = join_path(sites.as_str(), file.as_str());
    let contents = generate_nginx_site_config(path, name.as_str(), probe);
    let mut steps: Vec<FileStep> = Vec::new();
    if !sites_dir_exists {
        steps.push(FileStep::CreateDir(sites));
    }
    steps.push(FileStep::Write { path: target, contents });
    proof {
        if sites_dir_exists {
            assert(file_changes(steps@) =~= seq![steps@[0]@]);
        } else {
            assert(file_changes(steps@) =~= seq![steps@[0]@, steps@[1]@]);
        }
    }
    Ok(steps)
}

/// What stands on disk before a site is published.
#[derive(Debug, Clone, Copy, PartialEq, Eq, Structural)]
pub struct SiteProbe {
    /// The global configuration exists.
    pub global_config_exists: bool,
    /// The directory of the enabled sites exists.
    pub sites_dir_exists: bool,
    /// Where the index files of the project were found.
    pub index: IndexProbe,
}

/// The operations that make the proxy serve the project at `path` once it
/// reloads: the global configuration is written where it is absent, so that
/// the site files are taken in, and the site configuration of the project is
/// put in place.
pub fn publish_site(nginx_path: &str, path: &str, probe: SiteProbe) -> (result: Result<
    Vec<FileStep>,
    SiteError,
>)
    ensures
        file_name(path@) is None ==> result == Err::<Vec<FileStep>, SiteError>(
            SiteError::NoSiteName,
        ),
        file_name(path@) matches Some(name) ==> (result matches Ok(steps) && file_changes(steps@)
            == published(nginx_path@, path@, name, probe)),
{
    let site = match create_nginx_config(nginx_path, path, probe.sites_dir_exists, probe.index) {
        Ok(site) => site,
        Err(error) => {
            return Err(error);
        },
    };
    let mut steps: Vec<FileStep> = Vec::new();
    match create_global_nginx_config(nginx_path, probe.global_config_exists) {
        Some(global) => {
            steps.push(global);
        },
        None => {},
    }
    let ghost head = file_changes(steps@);
    let ghost tail = file_changes(site@);
    let mut site = site;
    steps.append(&mut site);
    proof {
        assert(file_changes(steps@) =~= head + tail);
        if probe.global_config_exists {
            assert(head =~= Seq::<FileChange>::empty());
        } else {
            assert(head =~= seq![
                FileChange::Write(
                    global_config_path(nginx_path@),
                    global_config(sites_dir(nginx_path@)),
                ),
            ]);
        }
    }
    Ok(steps)
}

/// The changes that publish the site of the project `name` at `path`: the
/// global configuration first, where it is absent; then the directory of the
/// enabled sites, where it is absent; then the site file.
pub open spec fn published(
    nginx_path: Seq<char>,
    path: Seq<char>,
    name: Seq<char>,
    probe: SiteProbe,
) -> Seq<FileChange> {
    let global = if probe.global_config_exists {
        Seq::<FileChange>::empty()
    } else {
        seq![
            FileChange::Write(
                global_config_path(nginx_path),
                global_config(sites_dir(nginx_path)),
            ),
        ]
    };
    let dir = if probe.sites_dir_exists {
        Seq::<FileChange>::empty()
    } else {
        seq![FileChange::CreateDir(sites_dir(nginx_path))]
    };
    global + dir + seq![
        FileChange::Write(
            site_config_path(nginx_path, name),
            site_config(name, document_root(path, probe.index)),
        ),
    ]
}

/// The operation that takes the site configuration of the project at `path`
/// away: its site file is removed. A path that ends in no name has no site.
pub fn delete_nginx_config(nginx_path: &str, path: &str) -> (result: Result<FileStep, SiteError>)
    ensures
        file_name(path@) is None ==> result == Err::<FileStep, SiteError>(SiteError::NoSiteName),
        file_name(path@) matches Some(name) ==> (result matches Ok(step) && step@
            == FileChange::Remove(site_config_path(nginx_path@, name))),
{
    let name = match file_name_of(path) {
        Some(name) => name,
        None => {
            return Err(SiteError::NoSiteName);
        },
    };
    let sites = join_path(nginx_path, "sites-enabled");
    let mut file = to_chars(name.as_str());
    push_str(&mut file, ".conf");
    let file = from_chars(&file);
    Ok(FileStep::Remove(join_path(sites.as_str(), file.as_str())))
}

} // verus!
