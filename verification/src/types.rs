//! Shared data types: the error taxonomy, element descriptors and the
//! browser-session configuration.

use vstd::prelude::*;

verus! {

/// Errors surfaced by the agent core. Retry policy lives in the executor and
/// the negotiator alone; every other failure propagates immediately.
#[derive(Debug, Clone, PartialEq, Eq)]
pub enum BrowserError {
    /// Transport-level connection failure; unrecoverable by this core.
    ConnectionError(String),
    /// A single remote-control call failed; retried only at the executor.
    OperationError(String),
    /// Invalid browser configuration.
    ConfigError(String),
    /// The page-side enumeration script threw or returned an unparsable shape.
    DomExtractionError(String),
    /// The classifier returned a token outside the action vocabulary.
    InvalidActionError(String),
    /// Label negotiation exhausted its attempt budget; carries the attempt count.
    LabelResolutionError(usize),
    /// The planner response holds no fenced job block.
    MissingJobBlockError,
    /// The fenced job block failed to parse as a job list.
    JobParseError(String),
    /// Memory serialization or deserialization failure.
    MemoryError(String),
}

impl BrowserError {
    /// The diagnostic text of the error, variant name first.
    pub fn message(&self) -> (r: String)
        ensures
            match self {
                BrowserError::ConnectionError(m) => r@ == "WebDriver connection failed: "@ + m@,
                BrowserError::OperationError(m) => r@ == "Browser operation failed: "@ + m@,
                BrowserError::ConfigError(m) => r@ == "Invalid browser configuration: "@ + m@,
                BrowserError::DomExtractionError(m) => r@ == "Failed to extract elements: "@ + m@,
                BrowserError::InvalidActionError(m) => r@ == "Invalid action category: "@ + m@,
                BrowserError::LabelResolutionError(n) => r@ == "Label resolution failed after "@
                    + crate::strutil::dec_spec(*n as nat) + " attempts"@,
                BrowserError::MissingJobBlockError => r@ == "Missing JSON block in LLM output"@,
                BrowserError::JobParseError(m) => r@ == "Failed to parse jobs JSON: "@ + m@,
                BrowserError::MemoryError(m) => r@ == "Memory error: "@ + m@,
            },
    {
        let mut out: Vec<char> = Vec::new();
        match self {
            BrowserError::ConnectionError(m) => {
                crate::strutil::push_str_chars(&mut out, "WebDriver connection failed: ");
                crate::strutil::push_str_chars(&mut out, m.as_str());
            },
            BrowserError::OperationError(m) => {
                crate::strutil::push_str_chars(&mut out, "Browser operation failed: ");
                crate::strutil::push_str_chars(&mut out, m.as_str());
            },
            BrowserError::ConfigError(m) => {
                crate::strutil::push_str_chars(&mut out, "Invalid browser configuration: ");
                crate::strutil::push_str_chars(&mut out, m.as_str());
            },
            BrowserError::DomExtractionError(m) => {
                crate::strutil::push_str_chars(&mut out, "Failed to extract elements: ");
                crate::strutil::push_str_chars(&mut out, m.as_str());
            },
            BrowserError::InvalidActionError(m) => {
                crate::strutil::push_str_chars(&mut out, "Invalid action category: ");
                crate::strutil::push_str_chars(&mut out, m.as_str());
            },
            BrowserError::LabelResolutionError(n) => {
                crate::strutil::push_str_chars(&mut out, "Label resolution failed after ");
                crate::strutil::emit_usize(&mut out, *n);
                crate::strutil::push_str_chars(&mut out, " attempts");
            },
            BrowserError::MissingJobBlockError => {
                crate::strutil::push_str_chars(&mut out, "Missing JSON block in LLM output");
            },
            BrowserError::JobParseError(m) => {
                crate::strutil::push_str_chars(&mut out, "Failed to parse jobs JSON: ");
                crate::strutil::push_str_chars(&mut out, m.as_str());
            },
            BrowserError::MemoryError(m) => {
                crate::strutil::push_str_chars(&mut out, "Memory error: ");
                crate::strutil::push_str_chars(&mut out, m.as_str());
            },
        }
        crate::strutil::chars_to_string(&out)
    }
}

/// The closed set of action categories an instruction can classify into.
#[derive(Debug, Clone, Copy, PartialEq, Eq, Structural)]
pub enum InteractiveElementType {
    Clickable,
    Typable,
}

/// A plain text block captured from the page.
#[derive(Debug, Clone)]
pub struct TextElement {
    pub selector: String,
    pub text: String,
    pub index: usize,
}

/// A flat interactive-element record, as the session-level extraction
/// routine reports it.
#[derive(Debug, Clone)]
pub struct InteractiveElement {
    pub selector: String,
    pub tag: String,
    pub text: String,
    pub type_attr: String,
    pub placeholder: String,
}

/// Configuration of a browser session. The timeout is held as whole seconds;
/// the unverified transport layer turns it into its own duration type.
#[derive(Debug, Clone)]
pub struct BrowserOptions {
    pub headless: bool,
    pub window_size: Option<(u32, u32)>,
    pub proxy: Option<String>,
    pub user_agent: Option<String>,
    pub timeout_secs: u64,
    pub persist_path: Option<String>,
}

impl Default for BrowserOptions {
    /// Defaults: windowed 1920x1080, no proxy, no user-agent override,
    /// a 30 second timeout, and no persistence path.
    fn default() -> (r: Self)
        ensures
            !r.headless,
            r.window_size == Some((1920u32, 1080u32)),
            r.proxy is None,
            r.user_agent is None,
            r.timeout_secs == 30,
            r.persist_path is None,
    {
        Self {
            headless: false,
            window_size: Some((1920, 1080)),
            proxy: None,
            user_agent: None,
            timeout_secs: 30,
            persist_path: None,
        }
    }
}

impl BrowserOptions {
    pub fn new() -> (r: Self)
        ensures
            !r.headless,
            r.window_size == Some((1920u32, 1080u32)),
            r.proxy is None,
            r.user_agent is None,
            r.timeout_secs == 30,
            r.persist_path is None,
    {
        Self::default()
    }

    pub fn headless(self, enabled: bool) -> (r: Self)
        ensures
            r == (Self { headless: enabled, ..self }),
    {
        Self { headless: enabled, ..self }
    }

    pub fn window_size(self, width: u32, height: u32) -> (r: Self)
        ensures
            r == (Self { window_size: Some((width, height)), ..self }),
    {
        Self { window_size: Some((width, height)), ..self }
    }

    pub fn proxy(self, proxy_url: &str) -> (r: Self)
        ensures
            r.proxy matches Some(p) && p@ == proxy_url@,
            r == (Self { proxy: r.proxy, ..self }),
    {
        Self { proxy: Some(proxy_url.to_owned()), ..self }
    }

    pub fn user_agent(self, ua: &str) -> (r: Self)
        ensures
            r.user_agent matches Some(u) && u@ == ua@,
            r == (Self { user_agent: r.user_agent, ..self }),
    {
        Self { user_agent: Some(ua.to_owned()), ..self }
    }

    pub fn timeout(self, seconds: u64) -> (r: Self)
        ensures
            r == (Self { timeout_secs: seconds, ..self }),
    {
        Self { timeout_secs: seconds, ..self }
    }

    pub fn persist_path(self, path: &str) -> (r: Self)
        ensures
            r.persist_path matches Some(p) && p@ == path@,
            r == (Self { persist_path: r.persist_path, ..self }),
    {
        Self { persist_path: Some(path.to_owned()), ..self }
    }
}

/// Configuration of the interaction memory: its hard capacity.
#[derive(Debug, Clone)]
pub struct MemoryOptions {
    pub max_entries: usize,
}

impl Default for MemoryOptions {
    fn default() -> (r: Self)
        ensures
            r.max_entries == 50,
    {
        Self { max_entries: 50 }
    }
}

} // verus!
