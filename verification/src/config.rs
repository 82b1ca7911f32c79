//! Application settings.

use crate::failure::Failure;
use vstd::prelude::*;
use vstd::string::*;

verus! {

/// User-configurable settings, persisted as a small JSON file.
#[derive(Debug)]
pub struct Settings {
    /// Base URL for the OpenAI-compatible API, without trailing slash.
    pub openai_base_url: String,
    /// API key.
    pub openai_api_key: String,
    /// Model id.
    pub openai_model: String,
    /// OCR endpoint. Empty means that the LLM recognizes text.
    pub ocr_endpoint: String,
}

impl Settings {
    /// The settings of a first start.
    pub open spec fn is_default(self) -> bool {
        &&& self.openai_base_url@ == "https://api.openai.com/v1"@
        &&& self.openai_api_key@ == Seq::<char>::empty()
        &&& self.openai_model@ == "gpt-4o"@
        &&& self.ocr_endpoint@ == Seq::<char>::empty()
    }
}

impl Default for Settings {
    fn default() -> (r: Settings)
        ensures
            r.is_default(),
    {
        Settings {
            openai_base_url: "https://api.openai.com/v1".to_string(),
            openai_api_key: String::new(),
            openai_model: "gpt-4o".to_string(),
            ocr_endpoint: String::new(),
        }
    }
}

impl Clone for Settings {
    fn clone(&self) -> (r: Settings)
        ensures
            r == *self,
    {
        Settings {
            openai_base_url: self.openai_base_url.clone(),
            openai_api_key: self.openai_api_key.clone(),
            openai_model: self.openai_model.clone(),
            ocr_endpoint: self.ocr_endpoint.clone(),
        }
    }
}

/// What looking for the settings file found.
#[derive(Debug)]
pub enum Stored {
    /// There is no configuration directory.
    NoConfigDir,
    /// There is no settings file.
    Missing,
    /// The file could not be read.
    Unreadable { path: String, cause: String },
    /// The file could not be understood.
    Malformed { path: String, cause: String },
    /// The file's settings.
    Parsed(Settings),
}

/// How far writing the settings file came.
#[derive(Debug)]
pub enum Written {
    /// There is no configuration directory.
    NoConfigDir,
    /// The directory could not be created.
    NoDirectory { path: String, cause: String },
    /// The settings could not be turned into JSON.
    NotSerialized { cause: String },
    /// The file could not be written.
    NotWritten { path: String, cause: String },
    /// The file is in place.
    Done,
}

/// `context path: cause`.
pub open spec fn explained(context: Seq<char>, path: Seq<char>, cause: Seq<char>) -> Seq<char> {
    context + path + ": "@ + cause
}

/// A failure with its context, the file it concerns, and its cause.
fn explain(context: &str, path: &String, cause: &String) -> (r: Failure)
    ensures
        r.message@ == explained(context@, path@, cause@),
{
    let mut message = context.to_string();
    message.append(path.as_str());
    message.append(": ");
    message.append(cause.as_str());
    Failure { message }
}

impl Settings {
    /// The settings to start with: the stored ones; the default ones if no
    /// file is there or can be; a failure if the file cannot be used.
    pub fn load(stored: Stored) -> (r: Result<Settings, Failure>)
        ensures
            match stored {
                Stored::NoConfigDir => r matches Ok(s) && s.is_default(),
                Stored::Missing => r matches Ok(s) && s.is_default(),
                Stored::Unreadable { path, cause } => r matches Err(e) && e.message@ == explained(
                    "failed to read "@,
                    path@,
                    cause@,
                ),
                Stored::Malformed { path, cause } => r matches Err(e) && e.message@ == explained(
                    "failed to parse "@,
                    path@,
                    cause@,
                ),
                Stored::Parsed(settings) => r == Ok::<Settings, Failure>(settings),
            },
    {
        match stored {
            Stored::NoConfigDir => Ok(Settings::default()),
            Stored::Missing => Ok(Settings::default()),
            Stored::Unreadable { path, cause } => Err(explain("failed to read ", &path, &cause)),
            Stored::Malformed { path, cause } => Err(explain("failed to parse ", &path, &cause)),
            Stored::Parsed(settings) => Ok(settings),
        }
    }

    /// The result of writing the settings file.
    pub fn save(written: Written) -> (r: Result<(), Failure>)
        ensures
            match written {
                Written::NoConfigDir => r matches Err(e) && e.message@
                    == "no config dir available to write settings"@,
                Written::NoDirectory { path, cause } => r matches Err(e) && e.message@ == explained(
                    "failed to create "@,
                    path@,
                    cause@,
                ),
                Written::NotSerialized { cause } => r matches Err(e) && e.message@
                    == "failed to serialize settings: "@ + cause@,
                Written::NotWritten { path, cause } => r matches Err(e) && e.message@ == explained(
                    "failed to write "@,
                    path@,
                    cause@,
                ),
                Written::Done => r is Ok,
            },
    {
        match written {
            Written::NoConfigDir => Err(
                Failure { message: "no config dir available to write settings".to_string() },
            ),
            Written::NoDirectory { path, cause } => Err(explain("failed to create ", &path, &cause)),
            Written::NotSerialized { cause } => {
                let mut message = "failed to serialize settings: ".to_string();
                message.append(cause.as_str());
                Err(Failure { message })
            },
            Written::NotWritten { path, cause } => Err(explain("failed to write ", &path, &cause)),
            Written::Done => Ok(()),
        }
    }
}

/// The configured capture hotkey, as typed by the user.
#[derive(Debug)]
pub struct HotkeySettings {
    pub hotkey_modifiers: String,
    pub hotkey_key: String,
}

impl Default for HotkeySettings {
    fn default() -> (r: HotkeySettings)
        ensures
            r.hotkey_modifiers@ == "Ctrl+Shift"@,
            r.hotkey_key@ == "S"@,
    {
        HotkeySettings {
            hotkey_modifiers: "Ctrl+Shift".to_string(),
            hotkey_key: "S".to_string(),
        }
    }
}

impl Clone for HotkeySettings {
    fn clone(&self) -> (r: HotkeySettings)
        ensures
            r == *self,
    {
        HotkeySettings {
            hotkey_modifiers: self.hotkey_modifiers.clone(),
            hotkey_key: self.hotkey_key.clone(),
        }
    }
}

/// An explanation is the context, the path, a colon and a space, and the cause,
/// one after the other and nothing else.
pub proof fn law_explanation_holds_its_parts(
    context: Seq<char>,
    path: Seq<char>,
    cause: Seq<char>,
)
    ensures
        ({
            let m = explained(context, path, cause);
            let (c, p) = (context.len() as int, path.len() as int);
            &&& m.len() == c + p + 2 + cause.len()
            &&& m.take(c) == context
            &&& m.subrange(c, c + p) == path
            &&& m[c + p] == ':' && m[c + p + 1] == ' '
            &&& m.skip(c + p + 2) == cause
        }),
{
    reveal_strlit(": ");
    let m = explained(context, path, cause);
    let (c, p) = (context.len() as int, path.len() as int);
    assert(m.take(c) =~= context);
    assert(m.subrange(c, c + p) =~= path);
    assert(m.skip(c + p + 2) =~= cause);
}

} // verus!
