//! The server's settings and the rules that a usable configuration meets.

use crate::types::text_views;
use vstd::prelude::*;
use vstd::string::StrSliceExecFns;
use vstd::utf8::encode_utf8;

verus! {

/// All settings of the server.
#[derive(Debug)]
pub struct ServerConfig {
    pub server: ServerSettings,
    pub database: DatabaseSettings,
    pub filesystem: FilesystemSettings,
    pub auth: AuthSettings,
    pub mycloud: MyCloudSettings,
}

/// How the server listens.
#[derive(Debug)]
pub struct ServerSettings {
    pub host: String,
    pub port: u16,
    pub max_connections: usize,
    pub request_timeout_seconds: u64,
    pub max_request_size: usize,
}

/// How the metadata store is reached.
#[derive(Debug)]
pub struct DatabaseSettings {
    pub url: String,
    pub max_connections: u32,
    pub connection_timeout_seconds: u64,
}

/// Where files are kept and what may be stored.
#[derive(Debug)]
pub struct FilesystemSettings {
    pub base_path: String,
    pub max_file_size_mb: u64,
    pub allowed_extensions: Vec<String>,
    pub temp_directory: String,
}

/// How tokens and passwords are made.
#[derive(Debug)]
pub struct AuthSettings {
    pub jwt_secret: String,
    pub token_expiry_hours: i64,
    pub bcrypt_cost: u32,
}

/// How the MyCloud device is reached.
#[derive(Debug)]
pub struct MyCloudSettings {
    pub api_endpoint: String,
    pub admin_username: String,
    pub admin_password: String,
    pub verify_ssl: bool,
    pub sync_interval_seconds: u64,
}

/// The first rule that a configuration breaks.
#[derive(Clone, Copy, Debug, PartialEq, Eq, Structural)]
pub enum ConfigError {
    /// The server port is 0.
    PortZero,
    /// The token secret is shorter than 32 bytes.
    SecretTooShort,
    /// The storage root is not an absolute path.
    BasePathNotAbsolute,
    /// The MyCloud administrator has no name.
    AdminUsernameEmpty,
    /// The MyCloud administrator has no password.
    AdminPasswordEmpty,
}

impl ConfigError {
    /// The rule in words.
    pub fn message(&self) -> (text: &'static str)
        ensures
            text@ == match *self {
                ConfigError::PortZero => "Server port cannot be 0"@,
                ConfigError::SecretTooShort => "JWT secret must be at least 32 characters long"@,
                ConfigError::BasePathNotAbsolute => "Filesystem base path must be absolute"@,
                ConfigError::AdminUsernameEmpty => "MyCloud admin username cannot be empty"@,
                ConfigError::AdminPasswordEmpty => "MyCloud admin password cannot be empty"@,
            },
    {
        match self {
            ConfigError::PortZero => "Server port cannot be 0",
            ConfigError::SecretTooShort => "JWT secret must be at least 32 characters long",
            ConfigError::BasePathNotAbsolute => "Filesystem base path must be absolute",
            ConfigError::AdminUsernameEmpty => "MyCloud admin username cannot be empty",
            ConfigError::AdminPasswordEmpty => "MyCloud admin password cannot be empty",
        }
    }
}

/// The least length that a token secret may have, in bytes.
pub const MIN_SECRET_BYTES: usize = 32;

/// A path that begins at the root of the file system.
pub open spec fn is_absolute(path: Seq<char>) -> bool {
    path.len() > 0 && path[0] == '/'
}

/// The length of `text` in bytes, as UTF-8.
pub open spec fn byte_length(text: Seq<char>) -> nat {
    encode_utf8(text).len()
}

/// Whether `path` begins at the root of the file system.
pub fn is_absolute_path(path: &str) -> (yes: bool)
    ensures
        yes == is_absolute(path@),
{
    !path.is_empty() && path.get_char(0) == '/'
}

impl FilesystemSettings {
    /// The size limit in bytes, or `None` if that many bytes cannot be
    /// counted in 64 bits.
    pub fn max_file_size_bytes(&self) -> (limit: Option<u64>)
        ensures
            match limit {
                Some(bytes) => bytes == self.max_file_size_mb * 1024 * 1024,
                None => self.max_file_size_mb * 1024 * 1024 > u64::MAX,
            },
    {
        self.max_file_size_mb.checked_mul(1024 * 1024)
    }
}

impl ServerConfig {
    /// The first rule that the configuration breaks, in the order in which
    /// `validate` tests them, or `None` if it breaks none.
    pub open spec fn first_fault(&self) -> Option<ConfigError> {
        if self.server.port == 0 {
            Some(ConfigError::PortZero)
        } else if byte_length(self.auth.jwt_secret@) < 32 {
            Some(ConfigError::SecretTooShort)
        } else if !is_absolute(self.filesystem.base_path@) {
            Some(ConfigError::BasePathNotAbsolute)
        } else if self.mycloud.admin_username@.len() == 0 {
            Some(ConfigError::AdminUsernameEmpty)
        } else if self.mycloud.admin_password@.len() == 0 {
            Some(ConfigError::AdminPasswordEmpty)
        } else {
            None
        }
    }

    /// Accepts a configuration with a port other than 0, a token secret of
    /// at least 32 bytes, an absolute storage root and a MyCloud
    /// administrator with a name and a password. Any other is refused
    /// with the first of these rules that it breaks.
    pub fn validate(&self) -> (verdict: Result<(), ConfigError>)
        ensures
            match self.first_fault() {
                Some(fault) => verdict == Err::<(), ConfigError>(fault),
                None => verdict == Ok::<(), ConfigError>(()),
            },
    {
        if self.server.port == 0 {
            return Err(ConfigError::PortZero);
        }
        if self.auth.jwt_secret.as_str().as_bytes().len() < MIN_SECRET_BYTES {
            return Err(ConfigError::SecretTooShort);
        }
        if !is_absolute_path(self.filesystem.base_path.as_str()) {
            return Err(ConfigError::BasePathNotAbsolute);
        }
        if self.mycloud.admin_username.as_str().is_empty() {
            return Err(ConfigError::AdminUsernameEmpty);
        }
        if self.mycloud.admin_password.as_str().is_empty() {
            return Err(ConfigError::AdminPasswordEmpty);
        }
        Ok(())
    }
}

/// The extensions that the default configuration admits: documents,
/// images, videos, audio and archives.
pub open spec fn default_extensions() -> Seq<Seq<char>> {
    seq![
        "txt"@, "pdf"@, "doc"@, "docx"@, "xls"@, "xlsx"@,
        "ppt"@, "pptx"@, "jpg"@, "jpeg"@, "png"@, "gif"@,
        "bmp"@, "svg"@, "webp"@, "mp4"@, "avi"@, "mkv"@,
        "mov"@, "wmv"@, "flv"@, "webm"@, "mp3"@, "wav"@,
        "flac"@, "aac"@, "ogg"@, "wma"@, "zip"@, "rar"@,
        "7z"@, "tar"@, "gz"@, "bz2"@,
    ]
}

fn default_allowed_extensions() -> (extensions: Vec<String>)
    ensures
        text_views(extensions@) == default_extensions(),
{
    let extensions = vec![
        "txt".to_string(), "pdf".to_string(), "doc".to_string(), "docx".to_string(),
        "xls".to_string(), "xlsx".to_string(), "ppt".to_string(), "pptx".to_string(),
        "jpg".to_string(), "jpeg".to_string(), "png".to_string(), "gif".to_string(),
        "bmp".to_string(), "svg".to_string(), "webp".to_string(), "mp4".to_string(),
        "avi".to_string(), "mkv".to_string(), "mov".to_string(), "wmv".to_string(),
        "flv".to_string(), "webm".to_string(), "mp3".to_string(), "wav".to_string(),
        "flac".to_string(), "aac".to_string(), "ogg".to_string(), "wma".to_string(),
        "zip".to_string(), "rar".to_string(), "7z".to_string(), "tar".to_string(),
        "gz".to_string(), "bz2".to_string(),
    ];
    assert(text_views(extensions@) =~= default_extensions());
    extensions
}

/// What the default configuration says.
pub open spec fn is_default(config: ServerConfig) -> bool {
    &&& config.server.host@ == "0.0.0.0"@
    &&& config.server.port == 8080
    &&& config.server.max_connections == 1000
    &&& config.server.request_timeout_seconds == 30
    &&& config.server.max_request_size == 104_857_600
    &&& config.database.url@ == "sqlite:./synker.db"@
    &&& config.database.max_connections == 10
    &&& config.database.connection_timeout_seconds == 30
    &&& config.filesystem.base_path@ == "./storage"@
    &&& config.filesystem.max_file_size_mb == 1024
    &&& text_views(config.filesystem.allowed_extensions@) == default_extensions()
    &&& config.filesystem.temp_directory@ == "./temp"@
    &&& config.auth.jwt_secret@ == "your-super-secret-jwt-key-change-this-in-production"@
    &&& config.auth.token_expiry_hours == 24
    &&& config.auth.bcrypt_cost == 12
    &&& config.mycloud.api_endpoint@ == "http://192.168.1.100"@
    &&& config.mycloud.admin_username@ == "admin"@
    &&& config.mycloud.admin_password@ == Seq::<char>::empty()
    &&& !config.mycloud.verify_ssl
    &&& config.mycloud.sync_interval_seconds == 300
}

impl Default for ServerConfig {
    /// The configuration that is written out where none is found: the
    /// server on port 8080 of every interface, a SQLite store, files of
    /// up to 1024 MB under `./storage`, tokens that last a day, and a
    /// MyCloud administrator whose password is still to be filled in.
    fn default() -> (config: ServerConfig)
        ensures
            is_default(config),
    {
        ServerConfig {
            server: ServerSettings {
                host: "0.0.0.0".to_string(),
                port: 8080,
                max_connections: 1000,
                request_timeout_seconds: 30,
                max_request_size: 104_857_600,
            },
            database: DatabaseSettings {
                url: "sqlite:./synker.db".to_string(),
                max_connections: 10,
                connection_timeout_seconds: 30,
            },
            filesystem: FilesystemSettings {
                base_path: "./storage".to_string(),
                max_file_size_mb: 1024,
                allowed_extensions: default_allowed_extensions(),
                temp_directory: "./temp".to_string(),
            },
            auth: AuthSettings {
                jwt_secret: "your-super-secret-jwt-key-change-this-in-production".to_string(),
                token_expiry_hours: 24,
                bcrypt_cost: 12,
            },
            mycloud: MyCloudSettings {
                api_endpoint: "http://192.168.1.100".to_string(),
                admin_username: "admin".to_string(),
                admin_password: String::new(),
                verify_ssl: false,
                sync_interval_seconds: 300,
            },
        }
    }
}

} // verus!
