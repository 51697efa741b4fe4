//! The configuration of the program and the definition of an uploader, as
//! plain records, and the decisions that loading them takes.

use crate::text::append;
use crate::text::chars_of;
use crate::text::part_of;
use crate::text::spells;
use crate::text::text_of;
use crate::trusted::is_absolute;
use crate::trusted::join;
use crate::trusted::joined_path;
use crate::trusted::path_is_absolute;
use vstd::prelude::*;

verus! {

/// Everything that is configured: where it was read from, the settings,
/// and the uploader in use.
#[derive(Debug)]
pub struct Config {
    pub config_path: String,
    pub data: ConfigData,
    pub uploader: UploaderData,
}

/// The settings of the program.
#[derive(Debug)]
pub struct ConfigData {
    pub default_uploader: String,
    pub notification: Notification,
    pub archive: Archive,
    pub clipboard: Clipboard,
}

/// Whether to notify, and for how many seconds.
#[derive(Debug)]
pub struct Notification {
    pub enabled: bool,
    pub timeout: u32,
}

/// Whether uploads are archived, where, and how many are kept.
#[derive(Debug)]
pub struct Archive {
    pub enabled: bool,
    pub path: String,
    pub max: u32,
}

/// Whether the clipboard is used, and whether only for reading.
#[derive(Debug)]
pub struct Clipboard {
    pub enabled: bool,
    pub read_only: bool,
}

/// The definition of one uploader.
#[derive(Debug)]
pub struct UploaderData {
    pub request: UploaderRequest,
    pub response: UploaderResponse,
}

/// How the request is made. The address and the values of the headers are
/// templates.
#[derive(Debug)]
pub struct UploaderRequest {
    pub url: String,
    pub method: String,
    pub headers: Vec<(String, String)>,
    pub body: Body,
}

/// How the file travels in the request.
#[derive(Debug)]
pub enum Body {
    /// The bytes of the file are the body.
    Raw,
    /// The file is one field of a multipart form.
    MultipartFormData { field: String },
}

/// Where in the response the addresses are found: each is a template.
#[derive(Debug)]
pub struct UploaderResponse {
    pub url: String,
    pub manage_url: Option<String>,
    pub thumbnail_url: Option<String>,
}

/// Where a given path leads, and whether the directory above it has to be
/// there already.
pub struct ResolvedPath {
    pub path: String,
    pub parent_must_exist: bool,
}

/// The directory of the configuration for the home directory `home`.
pub open spec fn default_config_path(home: Seq<char>) -> Seq<char> {
    joined_path(joined_path(home, ".config"@), "uploadr"@)
}

/// `s` without every leading repetition of `~/`.
pub open spec fn without_home_marks(s: Seq<char>) -> Seq<char>
    decreases s.len(),
{
    if starts_with_home_mark(s) {
        without_home_marks(s.skip(2))
    } else {
        s
    }
}

/// Whether `s` begins with `~/`.
pub open spec fn starts_with_home_mark(s: Seq<char>) -> bool {
    s.len() >= 2 && s[0] == '~' && s[1] == '/'
}

/// Where `path` leads: to itself where it is absolute; into `home` where
/// it begins with `~/`; else into the directory of the configuration, and
/// then the directory above it must exist.
pub open spec fn resolved(path: Seq<char>, home: Seq<char>) -> (Seq<char>, bool) {
    if path_is_absolute(path) {
        (path, false)
    } else if starts_with_home_mark(path) {
        (joined_path(home, without_home_marks(path)), false)
    } else {
        (joined_path(default_config_path(home), path), true)
    }
}

/// The name of the uploader to use: the requested one, else the default
/// of the settings.
pub open spec fn chosen_uploader(requested: Option<String>, default_uploader: Seq<char>) -> Seq<
    char,
> {
    match requested {
        Some(name) => name@,
        None => default_uploader,
    }
}

impl Config {
    /// The directory of the configuration for the home directory `home`.
    pub fn get_default_config_path(home: &str) -> (path: String)
        ensures
            path@ == default_config_path(home@),
    {
        let first = join(home, ".config");
        join(first.as_str(), "uploadr")
    }

    /// Resolves a path given by the user against `home`.
    pub fn resolve_path(path: &str, home: &str) -> (r: ResolvedPath)
        ensures
            (r.path@, r.parent_must_exist) == resolved(path@, home@),
    {
        if is_absolute(path) {
            return ResolvedPath { path: path.to_owned(), parent_must_exist: false };
        }
        let chars = chars_of(path);
        if chars.len() >= 2 && chars[0] == '~' && chars[1] == '/' {
            let mut from: usize = 0;
            assert(chars@.skip(0) == chars@);
            while chars.len() - from >= 2 && chars[from] == '~' && chars[from + 1] == '/'
                invariant
                    from <= chars.len(),
                    without_home_marks(chars@) == without_home_marks(chars@.skip(from as int)),
                decreases chars.len() - from,
            {
                assert(chars@.skip(from as int).skip(2) == chars@.skip(from + 2));
                from += 2;
            }
            let rest = part_of(&chars, from, chars.len());
            assert(chars@.subrange(from as int, chars.len() as int) == chars@.skip(from as int));
            let rest = text_of(&rest);
            return ResolvedPath { path: join(home, rest.as_str()), parent_must_exist: false };
        }
        let base = Config::get_default_config_path(home);
        ResolvedPath { path: join(base.as_str(), path), parent_must_exist: true }
    }

    /// The name of the uploader to load: `requested` where one is given,
    /// else the default of `data`.
    pub fn uploader_name(requested: Option<String>, data: &ConfigData) -> (name: String)
        ensures
            name@ == chosen_uploader(requested, data.default_uploader@),
    {
        match requested {
            Some(name) => name,
            None => data.default_uploader.clone(),
        }
    }

    /// Puts together what was loaded.
    pub fn new(config_path: String, data: ConfigData, uploader: UploaderData) -> (config: Self)
        ensures
            config.config_path == config_path,
            config.data == data,
            config.uploader == uploader,
    {
        Config { config_path, data, uploader }
    }
}

impl Notification {
    /// The time for which a notification stays, in milliseconds; none
    /// where that is more than an `i32` holds.
    pub fn timeout_ms(&self) -> (ms: Option<i32>)
        ensures
            ms == if self.timeout * 1000 <= i32::MAX {
                Some((self.timeout * 1000) as i32)
            } else {
                None::<i32>
            },
    {
        if self.timeout <= 2147483 {
            Some((self.timeout * 1000) as i32)
        } else {
            None
        }
    }
}

impl ConfigData {
    /// The name of the file that holds the settings.
    pub fn file_name() -> (name: String)
        ensures
            name@ == "config.json"@,
    {
        "config.json".to_owned()
    }

    /// The settings that a fresh installation starts with: the uploader
    /// `imgur`, notifications for 5 seconds, an archive of 100 uploads
    /// under `Pictures/uploadr` in `home`, and the clipboard in use.
    pub fn default(home: &str) -> (data: Self)
        ensures
            data.default_uploader@ == "imgur"@,
            data.notification.enabled && data.notification.timeout == 5,
            data.archive.enabled && data.archive.max == 100,
            data.archive.path@ == joined_path(joined_path(home@, "Pictures"@), "uploadr"@),
            data.clipboard.enabled && !data.clipboard.read_only,
    {
        let pictures = join(home, "Pictures");
        ConfigData {
            default_uploader: "imgur".to_owned(),
            notification: Notification { enabled: true, timeout: 5 },
            archive: Archive { enabled: true, path: join(pictures.as_str(), "uploadr"), max: 100 },
            clipboard: Clipboard { enabled: true, read_only: false },
        }
    }
}

impl UploaderData {
    /// The uploader that is built in: a multipart upload to Imgur, with
    /// the address of the image taken from the JSON response.
    pub fn default() -> (uploader: Self)
        ensures
            uploader.request.url@ == "https://api.imgur.com/3/image"@,
            uploader.request.method@ == "POST"@,
            uploader.request.headers@.len() == 1,
            uploader.request.headers@[0].0@ == "Authorization"@,
            uploader.request.headers@[0].1@ == "Client-ID eb13b71463957f7"@,
            uploader.request.body matches Body::MultipartFormData { field } && field@ == "image"@,
            uploader.response.url@ == "{json:$.data.link}"@,
            uploader.response.manage_url is None,
            uploader.response.thumbnail_url is None,
    {
        let mut headers: Vec<(String, String)> = Vec::new();
        headers.push(("Authorization".to_owned(), "Client-ID eb13b71463957f7".to_owned()));
        UploaderData {
            request: UploaderRequest {
                url: "https://api.imgur.com/3/image".to_owned(),
                method: "POST".to_owned(),
                headers,
                body: Body::MultipartFormData { field: "image".to_owned() },
            },
            response: UploaderResponse {
                url: "{json:$.data.link}".to_owned(),
                manage_url: None,
                thumbnail_url: None,
            },
        }
    }

    /// Whether a definition for `uploader` can be made up where none is
    /// on disk: only the built-in one can.
    pub fn is_builtin(uploader: &str) -> (builtin: bool)
        ensures
            builtin == (uploader@ == "imgur"@),
    {
        spells(&chars_of(uploader), "imgur")
    }

    /// The name of the file that defines `uploader`.
    pub fn file_name(uploader: &str) -> (name: String)
        ensures
            name@ == uploader@ + ".uploader"@,
    {
        let mut name = chars_of(uploader);
        append(&mut name, &chars_of(".uploader"));
        text_of(&name)
    }
}

} // verus!
