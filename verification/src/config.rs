use vstd::prelude::*;
use crate::models::{Players, StatusResponse, Version};

verus! {

/// What marks a favicon that is already embedded.
pub const DATA_URI_PREFIX: &'static str = "data:image/png;base64,";

/// The file extension a favicon on disk must have.
pub const FAVICON_EXTENSION: &'static str = "png";

/// The largest favicon file that is encoded: beyond it the length of the encoding
/// could not be computed.
pub const MAX_FAVICON_LEN: usize = usize::MAX / 4;

/// The value of the `default` mark of a configuration that was read from a file.
pub fn default_false() -> (mark: bool)
    ensures
        !mark,
{
    false
}

/// What the server is started with.
#[derive(Clone)]
pub struct Config {
    /// Whether this is the built-in configuration, made because no configuration
    /// file was found.
    pub default: bool,
    /// Whether to log at debug level.
    pub debug: bool,
    /// The address to listen on.
    pub host: String,
    /// The port to listen on.
    pub port: u16,
    /// The status document to announce.
    pub status: StatusResponse,
    /// What clients that try to log in are told.
    pub kick_msg: String,
}

/// What was found where the favicon's file should be.
pub enum FaviconFile {
    /// There is no such file.
    Missing,
    /// The file is there and could not be read.
    Unreadable,
    /// The bytes of the file.
    Contents(Vec<u8>),
}

/// Why a favicon could not be embedded.
#[derive(Clone, Copy, Debug, PartialEq, Eq, Structural)]
pub enum FaviconError {
    /// The path does not end in the extension of a PNG file.
    NotPng,
    /// The file does not exist.
    NotFound,
    /// The file could not be read.
    Unreadable,
    /// The file is larger than `MAX_FAVICON_LEN`.
    TooLarge,
}

impl FaviconError {
    /// A short description, fit for a log line.
    pub fn message(&self) -> (text: &'static str)
        ensures
            text@ == match *self {
                FaviconError::NotPng => "Favicon must be a PNG file"@,
                FaviconError::NotFound => "Favicon file doesn't exist"@,
                FaviconError::Unreadable => "Favicon file could not be read"@,
                FaviconError::TooLarge => "Favicon file is too large"@,
            },
    {
        match self {
            FaviconError::NotPng => "Favicon must be a PNG file",
            FaviconError::NotFound => "Favicon file doesn't exist",
            FaviconError::Unreadable => "Favicon file could not be read",
            FaviconError::TooLarge => "Favicon file is too large",
        }
    }
}

/// The standard base64 text of `bytes`, with padding.
pub uninterp spec fn base64_standard(bytes: Seq<u8>) -> Seq<char>;

/// `Engine::encode` of the `base64` crate, on its `STANDARD` engine. Nothing is
/// proved of it: the contract only names its answer, `base64_standard` of the
/// bytes. Inputs so long that the crate cannot compute the length of the encoding
/// are kept away from it.
#[verifier::external_body]
fn base64_encode(bytes: &[u8]) -> (text: String)
    requires
        bytes@.len() <= MAX_FAVICON_LEN,
    ensures
        text@ == base64_standard(bytes@),
{
    base64::Engine::encode(&base64::engine::general_purpose::STANDARD, bytes)
}

/// `Path::extension` of std, on a path given as text. Which part of a path is its
/// file name depends on the platform, so nothing is claimed of the answer.
#[verifier::external_body]
fn path_extension(path: &str) -> (extension: Option<String>) {
    std::path::Path::new(path).extension().and_then(|e| e.to_str()).map(|e| e.to_owned())
}

/// Whether `s` begins with `prefix`.
pub fn starts_with(s: &str, prefix: &str) -> (b: bool)
    ensures
        b == prefix@.is_prefix_of(s@),
{
    let n = prefix.unicode_len();
    if s.unicode_len() < n {
        return false;
    }
    let mut i: usize = 0;
    while i < n
        invariant
            i <= n,
            n == prefix@.len(),
            n <= s@.len(),
            forall|k: int| 0 <= k < i ==> s@[k] == prefix@[k],
        decreases n - i,
    {
        if s.get_char(i) != prefix.get_char(i) {
            return false;
        }
        i = i + 1;
    }
    true
}

/// Whether two texts are the same.
pub fn same_text(a: &str, b: &str) -> (same: bool)
    ensures
        same == (a@ == b@),
{
    if a.unicode_len() != b.unicode_len() {
        return false;
    }
    let same = starts_with(a, b);
    assert(same ==> a@ =~= b@);
    same
}

/// Makes the data URI of a PNG file from the base64 text of its bytes.
pub fn png_data_uri(base64_text: &str) -> (uri: String)
    ensures
        uri@ == DATA_URI_PREFIX@ + base64_text@,
{
    let mut uri = String::from_str(DATA_URI_PREFIX);
    uri.append(base64_text);
    uri
}

/// Whether a favicon is already a data URI.
pub open spec fn is_data_uri(favicon: Seq<char>) -> bool {
    DATA_URI_PREFIX@.is_prefix_of(favicon)
}

/// The data URI that embeds the PNG file `bytes`.
pub open spec fn embedded_png(bytes: Seq<u8>) -> Seq<char> {
    DATA_URI_PREFIX@ + base64_standard(bytes)
}

/// What a configured favicon resolves to, given whether its path has the PNG
/// extension and what was found at the path. A data URI stands as it is, whatever
/// the other two say.
pub open spec fn favicon_outcome(favicon: Seq<char>, is_png: bool, file: FaviconFile) -> Result<
    Seq<char>,
    FaviconError,
> {
    if is_data_uri(favicon) {
        Ok(favicon)
    } else if !is_png {
        Err(FaviconError::NotPng)
    } else {
        match file {
            FaviconFile::Missing => Err(FaviconError::NotFound),
            FaviconFile::Unreadable => Err(FaviconError::Unreadable),
            FaviconFile::Contents(bytes) => if bytes@.len() > MAX_FAVICON_LEN {
                Err(FaviconError::TooLarge)
            } else {
                Ok(embedded_png(bytes@))
            },
        }
    }
}

/// Whether `extension` is the extension of a PNG file.
pub open spec fn is_png_extension(extension: Option<&str>) -> bool {
    extension matches Some(e) && e@ == FAVICON_EXTENSION@
}

/// How `handle_favicon` leaves the favicon and what it reports, for an outcome.
/// Failures of the built-in configuration are not reported.
pub open spec fn favicon_settled(
    outcome: Result<Seq<char>, FaviconError>,
    quiet: bool,
    favicon: Option<String>,
    report: Option<FaviconError>,
) -> bool {
    match outcome {
        Ok(uri) => favicon matches Some(text) && text@ == uri && report is None,
        Err(e) => favicon is None && report == if quiet {
            None
        } else {
            Some(e)
        },
    }
}

impl Default for Config {
    /// The built-in configuration, used when there is no configuration file.
    fn default() -> (config: Self)
        ensures
            config.default,
            !config.debug,
            config.host@ == "0.0.0.0"@,
            config.port == 25565,
            config.status.version.info is None,
            config.status.version.same == Some(true),
            config.status.players matches Some(players) && players.max == 20 && players.online
                == 0 && players.sample is None,
            config.status.motd matches Some(motd) && motd@ == "\u{a7}cFake Minecraft Server"@,
            config.status.favicon matches Some(favicon) && favicon@ == "server-icon.png"@,
            config.kick_msg@
                == "\u{a7}c\u{a7}lThis is a fake server!\n\u{a7}eIt only responds to ping requests."@,
    {
        Config {
            default: true,
            debug: false,
            host: String::from_str("0.0.0.0"),
            port: 25565,
            status: StatusResponse {
                version: Version::default(),
                players: Some(Players { max: 20, online: 0, sample: None }),
                motd: Some(String::from_str("\u{a7}cFake Minecraft Server")),
                favicon: Some(String::from_str("server-icon.png")),
            },
            kick_msg: String::from_str(
                "\u{a7}c\u{a7}lThis is a fake server!\n\u{a7}eIt only responds to ping requests.",
            ),
        }
    }
}

impl Config {
    /// What to log about where the configuration came from: a line when it is the
    /// built-in one, nothing otherwise.
    pub fn handle_logs(&self) -> (line: Option<&'static str>)
        ensures
            line is Some <==> self.default,
            line matches Some(text) ==> text@
                == "Config file not found, using default configuration"@,
    {
        if self.default {
            Some("Config file not found, using default configuration")
        } else {
            None
        }
    }

    /// The path of the file that `handle_favicon` wants read: the configured favicon,
    /// unless there is none or it is a data URI already.
    pub fn favicon_path(&self) -> (path: Option<&str>)
        ensures
            match self.status.favicon {
                Some(favicon) if !is_data_uri(favicon@) => path matches Some(p) && p@ == favicon@,
                _ => path is None,
            },
    {
        match &self.status.favicon {
            Some(favicon) => if starts_with(favicon.as_str(), DATA_URI_PREFIX) {
                None
            } else {
                Some(favicon.as_str())
            },
            None => None,
        }
    }

    /// Resolves a configured favicon into a data URI.
    ///
    /// A data URI is handed back as it is. Otherwise `extension` is what the path
    /// ends in and `file` what was found there: the file's bytes are embedded when
    /// the extension is that of a PNG file and the file could be read, and each
    /// other case has its error.
    pub fn load_favicon_as_base64(
        favicon: String,
        extension: Option<&str>,
        file: &FaviconFile,
    ) -> (r: Result<String, FaviconError>)
        ensures
            match r {
                Ok(uri) => favicon_outcome(favicon@, is_png_extension(extension), *file) == Ok::<
                    Seq<char>,
                    FaviconError,
                >(uri@),
                Err(e) => favicon_outcome(favicon@, is_png_extension(extension), *file) == Err::<
                    Seq<char>,
                    FaviconError,
                >(e),
            },
    {
        if starts_with(favicon.as_str(), DATA_URI_PREFIX) {
            return Ok(favicon);
        }
        let is_png = match extension {
            Some(e) => same_text(e, FAVICON_EXTENSION),
            None => false,
        };
        if !is_png {
            return Err(FaviconError::NotPng);
        }
        match file {
            FaviconFile::Missing => Err(FaviconError::NotFound),
            FaviconFile::Unreadable => Err(FaviconError::Unreadable),
            FaviconFile::Contents(bytes) => {
                if bytes.len() > MAX_FAVICON_LEN {
                    return Err(FaviconError::TooLarge);
                }
                let encoded = base64_encode(bytes.as_slice());
                Ok(png_data_uri(encoded.as_str()))
            },
        }
    }

    /// Resolves the configured favicon in place, given what was found at
    /// `favicon_path`: a data URI where that works, no favicon where it does not.
    /// Nothing else changes.
    ///
    /// Returns the failure to log, if there is one and this is not the built-in
    /// configuration, whose favicon is allowed to be missing.
    pub fn handle_favicon(&mut self, file: FaviconFile) -> (report: Option<FaviconError>)
        ensures
            final(self).default == old(self).default,
            final(self).debug == old(self).debug,
            final(self).host == old(self).host,
            final(self).port == old(self).port,
            final(self).kick_msg == old(self).kick_msg,
            final(self).status.version == old(self).status.version,
            final(self).status.players == old(self).status.players,
            final(self).status.motd == old(self).status.motd,
            match old(self).status.favicon {
                None => final(self).status.favicon is None && report is None,
                Some(favicon) => exists|is_png: bool|
                    favicon_settled(
                        #[trigger] favicon_outcome(favicon@, is_png, file),
                        old(self).default,
                        final(self).status.favicon,
                        report,
                    ),
            },
    {
        let favicon: String = match &self.status.favicon {
            Some(favicon) => favicon.clone(),
            None => { return None; },
        };
        let extension = path_extension(favicon.as_str());
        let as_text: Option<&str> = match &extension {
            Some(e) => Some(e.as_str()),
            None => None,
        };
        match Self::load_favicon_as_base64(favicon, as_text, &file) {
            Ok(uri) => {
                self.status.favicon = Some(uri);
                None
            },
            Err(e) => {
                self.status.favicon = None;
                let report = if self.default {
                    None
                } else {
                    Some(e)
                };
                report
            },
        }
    }
}

} // verus!
