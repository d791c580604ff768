//! Log-line formatting: each line names the thread that wrote it and its
//! severity. Rendering is pure; the caller prints the finished line.

use vstd::prelude::*;
use vstd::string::StringExecFns;

verus! {

/// Which thread a log line comes from.
#[derive(Copy, Clone, Debug, PartialEq, Eq, Structural)]
pub enum ThreadName {
    Main,
    Network,
}

/// The severity of a log line.
#[derive(Copy, Clone, Debug, PartialEq, Eq, Structural)]
pub enum LogLevel {
    Debug,
    Info,
    Warn,
    Error,
    Fatal,
}

impl ThreadName {
    /// The bracketed tag this thread puts in front of its log lines.
    pub open spec fn spec_label(&self) -> Seq<char> {
        match self {
            ThreadName::Main => "[Main]"@,
            ThreadName::Network => "[Network]"@,
        }
    }

    /// The bracketed tag, as text.
    pub fn label(&self) -> (r: &'static str)
        ensures
            r@ == self.spec_label(),
    {
        match self {
            ThreadName::Main => "[Main]",
            ThreadName::Network => "[Network]",
        }
    }
}

impl LogLevel {
    /// The bracketed tag this severity puts in a log line.
    pub open spec fn spec_label(&self) -> Seq<char> {
        match self {
            LogLevel::Debug => "[Debug]"@,
            LogLevel::Info => "[Info]"@,
            LogLevel::Warn => "[Warning]"@,
            LogLevel::Error => "[Error]"@,
            LogLevel::Fatal => "[Fatal]"@,
        }
    }

    /// The bracketed tag, as text.
    pub fn label(&self) -> (r: &'static str)
        ensures
            r@ == self.spec_label(),
    {
        match self {
            LogLevel::Debug => "[Debug]",
            LogLevel::Info => "[Info]",
            LogLevel::Warn => "[Warning]",
            LogLevel::Error => "[Error]",
            LogLevel::Fatal => "[Fatal]",
        }
    }
}

/// The text of one log line: the thread tag, the severity tag, a separator,
/// and the message.
pub open spec fn spec_log_line(level: LogLevel, threadname: ThreadName, message: Seq<
    char,
>) -> Seq<char> {
    threadname.spec_label() + level.spec_label() + ": "@ + message
}

/// Renders one log line; the caller prints it.
pub fn log(level: LogLevel, threadname: ThreadName, message: &str) -> (r: String)
    ensures
        r@ == spec_log_line(level, threadname, message@),
{
    let mut s = String::new();
    s.append(threadname.label());
    s.append(level.label());
    s.append(": ");
    s.append(message);
    proof {
        assert(s@ =~= spec_log_line(level, threadname, message@));
    }
    s
}

/// A debug line for the given thread.
pub fn debug(threadname: ThreadName, message: &str) -> (r: String)
    ensures
        r@ == spec_log_line(LogLevel::Debug, threadname, message@),
{
    log(LogLevel::Debug, threadname, message)
}

/// An info line for the given thread.
pub fn info(threadname: ThreadName, message: &str) -> (r: String)
    ensures
        r@ == spec_log_line(LogLevel::Info, threadname, message@),
{
    log(LogLevel::Info, threadname, message)
}

/// A warning line for the given thread.
pub fn warn(threadname: ThreadName, message: &str) -> (r: String)
    ensures
        r@ == spec_log_line(LogLevel::Warn, threadname, message@),
{
    log(LogLevel::Warn, threadname, message)
}

/// An error line for the given thread.
pub fn error(threadname: ThreadName, message: &str) -> (r: String)
    ensures
        r@ == spec_log_line(LogLevel::Error, threadname, message@),
{
    log(LogLevel::Error, threadname, message)
}

/// A fatal line for the given thread.
pub fn fatal(threadname: ThreadName, message: &str) -> (r: String)
    ensures
        r@ == spec_log_line(LogLevel::Fatal, threadname, message@),
{
    log(LogLevel::Fatal, threadname, message)
}

/// A debug line from the main thread.
pub fn debug_main(message: &str) -> (r: String)
    ensures
        r@ == spec_log_line(LogLevel::Debug, ThreadName::Main, message@),
{
    log(LogLevel::Debug, ThreadName::Main, message)
}

/// An info line from the main thread.
pub fn info_main(message: &str) -> (r: String)
    ensures
        r@ == spec_log_line(LogLevel::Info, ThreadName::Main, message@),
{
    log(LogLevel::Info, ThreadName::Main, message)
}

/// A warning line from the main thread.
pub fn warn_main(message: &str) -> (r: String)
    ensures
        r@ == spec_log_line(LogLevel::Warn, ThreadName::Main, message@),
{
    log(LogLevel::Warn, ThreadName::Main, message)
}

/// An error line from the main thread.
pub fn error_main(message: &str) -> (r: String)
    ensures
        r@ == spec_log_line(LogLevel::Error, ThreadName::Main, message@),
{
    log(LogLevel::Error, ThreadName::Main, message)
}

/// A fatal line from the main thread.
pub fn fatal_main(message: &str) -> (r: String)
    ensures
        r@ == spec_log_line(LogLevel::Fatal, ThreadName::Main, message@),
{
    log(LogLevel::Fatal, ThreadName::Main, message)
}

/// A debug line from the network thread.
pub fn debug_net(message: &str) -> (r: String)
    ensures
        r@ == spec_log_line(LogLevel::Debug, ThreadName::Network, message@),
{
    log(LogLevel::Debug, ThreadName::Network, message)
}

/// An info line from the network thread.
pub fn info_net(message: &str) -> (r: String)
    ensures
        r@ == spec_log_line(LogLevel::Info, ThreadName::Network, message@),
{
    log(LogLevel::Info, ThreadName::Network, message)
}

/// A warning line from the network thread.
pub fn warn_net(message: &str) -> (r: String)
    ensures
        r@ == spec_log_line(LogLevel::Warn, ThreadName::Network, message@),
{
    log(LogLevel::Warn, ThreadName::Network, message)
}

/// An error line from the network thread.
pub fn error_net(message: &str) -> (r: String)
    ensures
        r@ == spec_log_line(LogLevel::Error, ThreadName::Network, message@),
{
    log(LogLevel::Error, ThreadName::Network, message)
}

/// A fatal line from the network thread.
pub fn fatal_net(message: &str) -> (r: String)
    ensures
        r@ == spec_log_line(LogLevel::Fatal, ThreadName::Network, message@),
{
    log(LogLevel::Fatal, ThreadName::Network, message)
}

} // verus!
