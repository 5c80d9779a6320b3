//! Errors reported by the registry, the hub tools and the console sessions.
use vstd::prelude::*;
use vstd::string::*;

verus! {

/// A hub tool or command failure, with a human-readable explanation.
#[derive(Debug)]
pub struct YkmdError {
    details: String,
}

impl View for YkmdError {
    type V = Seq<char>;

    closed spec fn view(&self) -> Seq<char> {
        self.details@
    }
}

impl YkmdError {
    pub fn new(msg: &str) -> (r: YkmdError)
        ensures
            r@ == msg@,
    {
        YkmdError { details: String::from_str(msg) }
    }

    /// The explanation given when the error was made.
    pub fn details(&self) -> (r: &str)
        ensures
            r@ == self@,
    {
        self.details.as_str()
    }

    /// The explanation as it is shown to an operator.
    pub fn message(&self) -> (r: String)
        ensures
            r@ == "ykushcmd failed: "@ + self@,
    {
        let mut s = String::from_str("ykushcmd failed: ");
        s.append(self.details.as_str());
        s
    }
}

/// A board record in the configuration is missing a field or has one of the
/// wrong shape.
#[derive(Debug)]
pub struct ConfigParsingError {
    details: String,
}

impl View for ConfigParsingError {
    type V = Seq<char>;

    closed spec fn view(&self) -> Seq<char> {
        self.details@
    }
}

impl ConfigParsingError {
    pub fn new(msg: &str) -> (r: ConfigParsingError)
        ensures
            r@ == msg@,
    {
        ConfigParsingError { details: String::from_str(msg) }
    }

    /// The explanation given when the error was made.
    pub fn details(&self) -> (r: &str)
        ensures
            r@ == self@,
    {
        self.details.as_str()
    }

    /// The explanation as it is shown to an operator.
    pub fn message(&self) -> (r: String)
        ensures
            r@ == "Invalid Yaml Config: "@ + self@,
    {
        let mut s = String::from_str("Invalid Yaml Config: ");
        s.append(self.details.as_str());
        s
    }
}

/// Why a power operation on a board failed.
#[derive(Debug, Clone, Copy, PartialEq, Eq, Structural)]
pub enum PowerError {
    /// The board record lacks a field that the operation needs.
    ConfigError,
    /// The board's power source names no known hub family.
    UnsupportedHubKind,
    /// The hub listing does not mention the board's hub.
    BoardNotAttached,
    /// The hub tool could not be started.
    HubToolExecutionError,
    /// The hub tool reported failure.
    HubOperationFailed,
    /// The state query failed and printed no on/off marker.
    AmbiguousPortState,
}

/// Why a console session failed.
#[derive(Debug, Clone, Copy, PartialEq, Eq, Structural)]
pub enum ConsoleError {
    /// The boot did not reach the expected marker in time.
    BootTimeout,
    /// The board did not report that it halted in time.
    ShutdownTimeout,
    /// The console did not answer the scripted login as expected.
    UnexpectedConsoleOutput,
}

} // verus!
