//! Logging over the bus: records of four severities are published on
//! `log.<level>.<sub_subject>`; a running logger renders those that pass its
//! minimum level.
use vstd::prelude::*;
use vstd::string::*;
use crate::pub_sub::{join3, str_eq, PubSubError, PubSubMsg, Subject};
use crate::codec::hex_char;

verus! {

/// Severity of a log record; the declaration order is the severity order.
#[derive(Clone, Copy, Debug, PartialEq, Eq, Structural, Ord)]
pub enum LogLevel {
    Debug,
    Info,
    Warning,
    Error,
}

impl LogLevel {
    /// Position of the level in the total order `Debug < Info < Warning < Error`.
    pub open spec fn rank(self) -> int {
        match self {
            LogLevel::Debug => 0,
            LogLevel::Info => 1,
            LogLevel::Warning => 2,
            LogLevel::Error => 3,
        }
    }

    pub fn rank_of(&self) -> (r: u8)
        ensures
            r as int == self.rank(),
    {
        match self {
            LogLevel::Debug => 0,
            LogLevel::Info => 1,
            LogLevel::Warning => 2,
            LogLevel::Error => 3,
        }
    }
}

pub open spec fn rank_cmp(a: int, b: int) -> core::cmp::Ordering {
    if a < b {
        core::cmp::Ordering::Less
    } else if a == b {
        core::cmp::Ordering::Equal
    } else {
        core::cmp::Ordering::Greater
    }
}

impl PartialOrd for LogLevel {
    fn partial_cmp(&self, other: &LogLevel) -> (r: Option<core::cmp::Ordering>)
        ensures
            r == Some(rank_cmp(self.rank(), other.rank())),
    {
        let a = self.rank_of();
        let b = other.rank_of();
        if a < b {
            Some(core::cmp::Ordering::Less)
        } else if a == b {
            Some(core::cmp::Ordering::Equal)
        } else {
            Some(core::cmp::Ordering::Greater)
        }
    }
}

impl vstd::std_specs::cmp::PartialOrdSpecImpl for LogLevel {
    open spec fn obeys_partial_cmp_spec() -> bool {
        true
    }

    open spec fn partial_cmp_spec(&self, other: &LogLevel) -> Option<core::cmp::Ordering> {
        Some(rank_cmp(self.rank(), other.rank()))
    }
}

/// How serde_json writes one character inside a string literal: `"` and `\`
/// after a backslash, the short escapes for backspace, tab, line feed, form
/// feed and carriage return, `\u00xx` for the other control characters, and
/// anything else as itself.
pub open spec fn json_char(c: char) -> Seq<char> {
    if c == '"' || c == '\\' {
        seq!['\\', c]
    } else if c == '\u{8}' {
        seq!['\\', 'b']
    } else if c == '\t' {
        seq!['\\', 't']
    } else if c == '\n' {
        seq!['\\', 'n']
    } else if c == '\u{c}' {
        seq!['\\', 'f']
    } else if c == '\r' {
        seq!['\\', 'r']
    } else if (c as u32) < 32 {
        seq!['\\', 'u', '0', '0', hex_char(((c as u32) / 16) as int), hex_char(((c as u32) % 16) as int)]
    } else {
        seq![c]
    }
}

pub open spec fn json_body(s: Seq<char>) -> Seq<char>
    decreases s.len(),
{
    if s.len() == 0 {
        seq![]
    } else {
        json_body(s.drop_last()) + json_char(s.last())
    }
}

/// The JSON string literal that serde_json writes for a text.
pub open spec fn json_text_encoding(s: Seq<char>) -> Seq<char> {
    seq!['"'] + json_body(s) + seq!['"']
}

/// The text that serde_json reads from a JSON string literal, if the bytes are one.
pub uninterp spec fn json_text_decoding(b: Seq<u8>) -> Option<Seq<char>>;

/// Relies on serde_json::to_string on a `str`: it writes into a `Vec`, which
/// never fails, the quoted text escaped as serde_json's `ESCAPE` table says.
#[verifier::external_body]
fn encode_json_text(s: &str) -> (r: Result<String, String>)
    ensures
        r is Ok,
        r matches Ok(t) ==> t@ == json_text_encoding(s@),
{
    match serde_json::to_string(s) {
        Ok(t) => Ok(t),
        Err(e) => Err(e.to_string()),
    }
}

/// Relies on serde_json::from_slice into a `String`: the text of a JSON
/// string literal, or the error message of the parser.
#[verifier::external_body]
fn decode_json_text(data: &[u8]) -> (r: Result<String, String>)
    ensures
        r is Ok <==> json_text_decoding(data@) is Some,
        r matches Ok(t) ==> json_text_decoding(data@) == Some(t@),
{
    match serde_json::from_slice::<String>(data) {
        Ok(t) => Ok(t),
        Err(e) => Err(e.to_string()),
    }
}

/// The text of a log record.
#[derive(Clone, Debug)]
pub struct LogMsg(pub String);

impl LogMsg {
    pub fn new(text: String) -> (r: LogMsg)
        ensures
            r.0 == text,
    {
        LogMsg(text)
    }
}

/// Whether a record of `level` passes a filter at `min`.
pub open spec fn passes(min: LogLevel, level: LogLevel) -> bool {
    min.rank() <= level.rank()
}

/// The level a subject segment names.
pub open spec fn level_named(s: Seq<char>) -> Option<LogLevel> {
    if s == "debug"@ {
        Some(LogLevel::Debug)
    } else if s == "info"@ {
        Some(LogLevel::Info)
    } else if s == "warning"@ {
        Some(LogLevel::Warning)
    } else if s == "error"@ {
        Some(LogLevel::Error)
    } else {
        None
    }
}

/// Index of the first `.` at or after `i`, or the length if there is none.
pub open spec fn dot_from(s: Seq<char>, i: int) -> int
    decreases s.len() - i,
{
    if i >= s.len() {
        s.len() as int
    } else if s[i] == '.' {
        i
    } else {
        dot_from(s, i + 1)
    }
}

/// The second dot-separated segment of a subject, if it has one.
pub open spec fn second_segment(s: Seq<char>) -> Option<Seq<char>> {
    let d = dot_from(s, 0);
    if d >= s.len() {
        None
    } else {
        Some(s.subrange(d + 1, dot_from(s, d + 1)))
    }
}

/// The text of the error for a subject that carries no level.
pub open spec fn subject_error(s: Seq<char>) -> Seq<char> {
    match second_segment(s) {
        Some(seg) => "Not a log level: "@ + seg,
        None => "No second-level sub subject"@,
    }
}

/// The level that the subject of a record carries.
pub open spec fn subject_level(s: Seq<char>) -> Option<LogLevel> {
    match second_segment(s) {
        Some(seg) => level_named(seg),
        None => None,
    }
}

fn find_dot(s: &str, n: usize, from: usize) -> (r: usize)
    requires
        n == s@.len(),
        from <= n,
    ensures
        r == dot_from(s@, from as int),
        from <= r <= n,
{
    let mut i: usize = from;
    while i < n
        invariant
            from <= i <= n,
            n == s@.len(),
            dot_from(s@, i as int) == dot_from(s@, from as int),
        decreases n - i,
    {
        if s.get_char(i) == '.' {
            return i;
        }
        i += 1;
    }
    i
}

impl LogLevel {
    pub open spec fn name_of(self) -> Seq<char> {
        match self {
            LogLevel::Debug => "debug"@,
            LogLevel::Info => "info"@,
            LogLevel::Warning => "warning"@,
            LogLevel::Error => "error"@,
        }
    }

    pub open spec fn display_of(self) -> Seq<char> {
        match self {
            LogLevel::Debug => "Debug"@,
            LogLevel::Info => "Info"@,
            LogLevel::Warning => "Warning"@,
            LogLevel::Error => "Error"@,
        }
    }

    /// The name of the level in subjects and on the wire.
    pub fn name(&self) -> (r: &'static str)
        ensures
            r@ == self.name_of(),
    {
        match self {
            LogLevel::Debug => "debug",
            LogLevel::Info => "info",
            LogLevel::Warning => "warning",
            LogLevel::Error => "error",
        }
    }

    /// The name of the level in rendered records.
    pub fn display_name(&self) -> (r: &'static str)
        ensures
            r@ == self.display_of(),
    {
        match self {
            LogLevel::Debug => "Debug",
            LogLevel::Info => "Info",
            LogLevel::Warning => "Warning",
            LogLevel::Error => "Error",
        }
    }

    /// The level with the given wire name.
    pub fn from_name(value: &str) -> (r: Result<LogLevel, PubSubError>)
        ensures
            r is Ok <==> level_named(value@) is Some,
            r matches Ok(l) ==> level_named(value@) == Some(l),
            r matches Err(e) ==> e is MessageParse && e.text() == "Not a log level: "@ + value@,
    {
        if str_eq(value, "debug") {
            Ok(LogLevel::Debug)
        } else if str_eq(value, "info") {
            Ok(LogLevel::Info)
        } else if str_eq(value, "warning") {
            Ok(LogLevel::Warning)
        } else if str_eq(value, "error") {
            Ok(LogLevel::Error)
        } else {
            Err(PubSubError::MessageParse(String::from_str("Not a log level: ").concat(value)))
        }
    }

    /// The level carried by the second segment of the subject of a record
    /// (`log.<level>.<sub_subject>`).
    pub fn from_msg_subject(subject: &str) -> (r: Result<LogLevel, PubSubError>)
        ensures
            r is Ok <==> subject_level(subject@) is Some,
            r matches Ok(l) ==> subject_level(subject@) == Some(l),
            r matches Err(e) ==> e is MessageParse && e.text() == subject_error(subject@),
    {
        let n = subject.unicode_len();
        let d = find_dot(subject, n, 0);
        if d >= n {
            return Err(PubSubError::MessageParse(String::from_str("No second-level sub subject")));
        }
        let e = find_dot(subject, n, d + 1);
        let seg = subject.substring_char(d + 1, e);
        LogLevel::from_name(seg)
    }

    /// The subject prefix of records of this level: `log.<level>`.
    pub fn main_subject(&self) -> (r: Subject)
        ensures
            r.0@ == "log."@ + self.name_of(),
    {
        Subject(String::from_str("log.").concat(self.name()))
    }
}

/// The subject and payload of a record whose text encoded as `encoded`;
/// nothing where the encoding failed.
pub fn log_publication(level: LogLevel, sub_subject: &str, encoded: Result<String, String>) -> (r: Option<(Subject, PubSubMsg)>)
    ensures
        encoded is Err ==> r is None,
        encoded matches Ok(t) ==> (r matches Some(p) && p.0.0@ == "log."@ + level.name_of() + "."@ + sub_subject@
            && p.1.0 == t),
{
    match encoded {
        Ok(t) => {
            let subj = join3("log.", level.name(), ".").concat(sub_subject);
            Some((Subject(subj), PubSubMsg(t)))
        },
        Err(_) => None,
    }
}

/// The publication of a record of `level` under `sub_subject`.
pub fn publication(level: LogLevel, msg: &LogMsg, sub_subject: &str) -> (r: Option<(Subject, PubSubMsg)>)
    ensures
        r matches Some(p) && p.0.0@ == "log."@ + level.name_of() + "."@ + sub_subject@
            && p.1.0@ == json_text_encoding(msg.0@),
{
    let encoded = encode_json_text(msg.0.as_str());
    log_publication(level, sub_subject, encoded)
}

/// A debug record for the bus.
pub fn debug(msg: &LogMsg, sub_subject: &str) -> (r: Option<(Subject, PubSubMsg)>)
    ensures
        r matches Some(p) && p.0.0@ == "log.debug."@ + sub_subject@ && p.1.0@ == json_text_encoding(msg.0@),
{
    proof {
        reveal_strlit("log.");
        reveal_strlit("debug");
        reveal_strlit(".");
        reveal_strlit("log.debug.");
    }
    let r = publication(LogLevel::Debug, msg, sub_subject);
    proof {
        assert("log."@ + "debug"@ + "."@ =~= "log.debug."@);
    }
    r
}

/// An info record for the bus.
pub fn info(msg: &LogMsg, sub_subject: &str) -> (r: Option<(Subject, PubSubMsg)>)
    ensures
        r matches Some(p) && p.0.0@ == "log.info."@ + sub_subject@ && p.1.0@ == json_text_encoding(msg.0@),
{
    proof {
        reveal_strlit("log.");
        reveal_strlit("info");
        reveal_strlit(".");
        reveal_strlit("log.info.");
    }
    let r = publication(LogLevel::Info, msg, sub_subject);
    proof {
        assert("log."@ + "info"@ + "."@ =~= "log.info."@);
    }
    r
}

/// A warning record for the bus.
pub fn _warning(msg: &LogMsg, sub_subject: &str) -> (r: Option<(Subject, PubSubMsg)>)
    ensures
        r matches Some(p) && p.0.0@ == "log.warning."@ + sub_subject@ && p.1.0@ == json_text_encoding(msg.0@),
{
    proof {
        reveal_strlit("log.");
        reveal_strlit("warning");
        reveal_strlit(".");
        reveal_strlit("log.warning.");
    }
    let r = publication(LogLevel::Warning, msg, sub_subject);
    proof {
        assert("log."@ + "warning"@ + "."@ =~= "log.warning."@);
    }
    r
}

/// An error record for the bus.
pub fn error(msg: &LogMsg, sub_subject: &str) -> (r: Option<(Subject, PubSubMsg)>)
    ensures
        r matches Some(p) && p.0.0@ == "log.error."@ + sub_subject@ && p.1.0@ == json_text_encoding(msg.0@),
{
    proof {
        reveal_strlit("log.");
        reveal_strlit("error");
        reveal_strlit(".");
        reveal_strlit("log.error.");
    }
    let r = publication(LogLevel::Error, msg, sub_subject);
    proof {
        assert("log."@ + "error"@ + "."@ =~= "log.error."@);
    }
    r
}

/// A logger: renders records at or above its minimum level.
pub struct Log {
    pub level: LogLevel,
}

pub open spec fn rendered(level: LogLevel, msg: Seq<char>) -> Seq<char> {
    level.display_of() + ": "@ + msg
}

/// The line a logger at `min` writes for a record, if any.
pub open spec fn line_for(min: LogLevel, level: LogLevel, msg: Seq<char>) -> Option<Seq<char>> {
    if passes(min, level) {
        Some(rendered(level, msg))
    } else {
        None
    }
}

pub open spec fn text_of(r: Option<String>) -> Option<Seq<char>> {
    match r {
        Some(s) => Some(s@),
        None => None,
    }
}

/// The line a logger at `min` writes for a record received on `subject`
/// whose payload decoded as `decoded` (the text, or the message of the decoder).
pub open spec fn record_line_for(min: LogLevel, subject: Seq<char>, decoded: Option<Seq<char>>) -> Option<Seq<char>> {
    match subject_level(subject) {
        Some(level) => match decoded {
            Some(text) => line_for(min, level, text),
            None => None,
        },
        None => None,
    }
}

impl Log {
    pub fn new(level: LogLevel) -> (r: Log)
        ensures
            r.level == level,
    {
        Log { level }
    }

    /// The line to write for a record, or nothing if the level is filtered out.
    pub fn log(&self, msg: &str, level: LogLevel) -> (r: Option<String>)
        ensures
            text_of(r) == line_for(self.level, level, msg@),
    {
        if self.level.rank_of() <= level.rank_of() {
            Some(join3(level.display_name(), ": ", msg))
        } else {
            None
        }
    }

    pub fn debug(&self, msg: &str) -> (r: Option<String>)
        ensures
            text_of(r) == line_for(self.level, LogLevel::Debug, msg@),
    {
        self.log(msg, LogLevel::Debug)
    }

    pub fn info(&self, msg: &str) -> (r: Option<String>)
        ensures
            text_of(r) == line_for(self.level, LogLevel::Info, msg@),
    {
        self.log(msg, LogLevel::Info)
    }

    pub fn warning(&self, msg: &str) -> (r: Option<String>)
        ensures
            text_of(r) == line_for(self.level, LogLevel::Warning, msg@),
    {
        self.log(msg, LogLevel::Warning)
    }

    /// Errors pass every filter.
    pub fn error(&self, msg: &str) -> (r: String)
        ensures
            r@ == rendered(LogLevel::Error, msg@),
    {
        join3(LogLevel::Error.display_name(), ": ", msg)
    }

    /// The line to write for a record received on `subject` whose payload
    /// decoded as `decoded`. A record at a passing level is rendered; one whose
    /// subject names no level, or whose payload did not decode, is reported as
    /// an error line.
    pub fn record_line(&self, subject: &str, decoded: Result<String, String>) -> (r: Option<String>)
        ensures
            subject_level(subject@) is None ==> (r matches Some(line)
                && line@ == rendered(LogLevel::Error, subject_error(subject@))),
            subject_level(subject@) is Some && decoded is Ok ==> text_of(r) == record_line_for(
                self.level, subject@, Some(decoded->Ok_0@)),
            subject_level(subject@) is Some ==> (decoded matches Err(e) ==> (r matches Some(line)
                && line@ == rendered(LogLevel::Error, e@))),
    {
        match LogLevel::from_msg_subject(subject) {
            Ok(level) => match decoded {
                Ok(text) => self.log(text.as_str(), level),
                Err(e) => Some(self.error(e.as_str())),
            },
            Err(e) => {
                let m = e.message();
                Some(self.error(m.as_str()))
            },
        }
    }

    /// Handles one record from the bus: the payload is decoded as a JSON
    /// string and the record rendered as `record_line` says.
    pub fn handle_record(&self, subject: &str, data: &[u8]) -> (r: Option<String>)
        ensures
            subject_level(subject@) is Some && json_text_decoding(data@) is Some ==> text_of(r)
                == record_line_for(self.level, subject@, json_text_decoding(data@)),
            subject_level(subject@) is Some && json_text_decoding(data@) is None ==> (r matches Some(
                line) && exists|e: Seq<char>| line@ == rendered(LogLevel::Error, e)),
            subject_level(subject@) is None ==> (r matches Some(line)
                && line@ == rendered(LogLevel::Error, subject_error(subject@))),
    {
        let decoded = decode_json_text(data);
        self.record_line(subject, decoded)
    }
}

/// Severities are totally ordered `Debug < Info < Warning < Error`; a filter
/// at `Info` drops `Debug` and passes `Info`, `Warning` and `Error`; `Error`
/// passes every filter.
pub proof fn lemma_level_order_and_filter(a: LogLevel, b: LogLevel)
    ensures
        LogLevel::Debug.rank() < LogLevel::Info.rank() < LogLevel::Warning.rank() < LogLevel::Error.rank(),
        passes(a, b) || passes(b, a),
        passes(a, b) && passes(b, a) ==> a == b,
        !passes(LogLevel::Info, LogLevel::Debug),
        passes(LogLevel::Info, LogLevel::Info),
        passes(LogLevel::Info, LogLevel::Warning),
        passes(LogLevel::Info, LogLevel::Error),
        passes(a, LogLevel::Error),
{
}

} // verus!
