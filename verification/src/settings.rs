//! The command-line surface, modelled as plain values: the chosen action and
//! each action's settings.  Argument parsing itself happens at the binary
//! boundary; the decisions made from the parsed values live here.

use vstd::prelude::*;

use crate::error::Error;
use crate::paths::id_chars_ok;

verus! {

/// The logger's verbosity.
#[derive(Clone, Copy, Debug, PartialEq, Eq, Structural)]
pub enum LogLevel {
    Off,
    Error,
    Warn,
    Info,
    Debug,
    Trace,
}

/// When the feed includes full post content.
#[derive(Clone, Copy, Debug, PartialEq, Eq, Structural)]
pub enum RssContent {
    Never,
    SupportsDeltas,
    Always,
}

/// Settings of the HTTP server action.
#[derive(Debug)]
pub struct Serve {
    /// Root directory of the blog project; the working directory when
    /// absent.
    pub directory: Option<String>,
    /// Address and port the server will use.
    pub address: String,
    /// Post cache time-to-live, in seconds.
    pub cache_ttl: u32,
    /// Maximum number of posts shown on the index page; at least one.
    pub index_page_len: usize,
    pub log_level: LogLevel,
    /// When to include post content in feed data.
    pub rss_content: RssContent,
}

/// Settings of the scaffolding action.
#[derive(Debug)]
pub struct Init {
    pub log_level: LogLevel,
}

/// What the generator produces.
#[derive(Debug)]
pub enum What {
    /// A new blog post with the given identifier.
    Post { id: String },
}

/// Settings of the generator action.
#[derive(Debug)]
pub struct Generate {
    pub log_level: LogLevel,
    pub what: What,
}

/// The chosen action.
#[derive(Debug)]
pub enum Action {
    Serve(Serve),
    Init(Init),
    Generate(Generate),
}

/// The parsed command line.
#[derive(Debug)]
pub struct Cli {
    pub action: Action,
}

impl Action {
    /// The logger verbosity the chosen action asks for.
    pub fn log_level(&self) -> (r: LogLevel)
        ensures
            r == (match self {
                Action::Serve(s) => s.log_level,
                Action::Init(i) => i.log_level,
                Action::Generate(g) => g.log_level,
            }),
    {
        match self {
            Action::Serve(serve) => serve.log_level,
            Action::Init(init) => init.log_level,
            Action::Generate(generate) => generate.log_level,
        }
    }
}

impl Generate {
    /// The path of the post file a new identifier generates, after checking
    /// the identifier's characters.  An identifier with a character outside
    /// `[A-Za-z0-9-]` is rejected.
    pub fn generate_post_path(id: &str) -> (r: Result<String, Error>)
        ensures
            r is Ok <==> id_chars_ok(id@),
            r matches Ok(p) ==> p@ == "posts/"@ + id@ + ".md"@,
            r matches Err(e) ==> e is InvalidInput,
    {
        if !crate::paths::validate_id(id) {
            return Err(Error::InvalidInput);
        }
        let mut p = String::from_str("posts/");
        p.append(id);
        p.append(".md");
        Ok(p)
    }
}

} // verus!
