//! Timing and structured log records; emitting them is left to the caller.
use vstd::prelude::*;
use vstd::string::*;

verus! {

#[verifier::external_type_specification]
#[verifier::external_body]
pub struct ExInstant(std::time::Instant);

/// Relies on `std::time::Instant::now`: a reading of the monotonic clock.
#[verifier::external_body]
fn instant_now() -> (r: std::time::Instant) {
    std::time::Instant::now()
}

/// Relies on `Instant::elapsed` and `Duration::as_millis`: whole milliseconds
/// since `start`. Nothing is known of the value.
#[verifier::external_body]
fn millis_since(start: &std::time::Instant) -> (r: u128) {
    start.elapsed().as_millis()
}

/// How serious a log record is.
#[derive(Clone, Copy, Debug, PartialEq, Eq, Structural)]
pub enum LogLevel {
    Info,
    Warn,
    Error,
}

/// The model of a list of key/value fields.
pub open spec fn pairs_view(v: Seq<(String, String)>) -> Seq<(Seq<char>, Seq<char>)> {
    v.map_values(|p: (String, String)| (p.0@, p.1@))
}

/// A log record ready to be emitted.
pub struct LogRecord {
    pub level: LogLevel,
    pub message: String,
    pub fields: Vec<(String, String)>,
}

/// A timing measurement of a named operation.
pub struct TimerReport {
    pub timer: String,
    pub checkpoint: Option<String>,
    pub elapsed_ms: u128,
}

/// Measures how long a named operation takes.
pub struct Timer {
    name: String,
    start: std::time::Instant,
}

impl Timer {
    pub closed spec fn name_view(&self) -> Seq<char> {
        self.name@
    }

    /// Starts a timer for the operation `name`.
    pub fn new(name: &str) -> (r: Timer)
        ensures
            r.name_view() == name@,
    {
        Timer { name: name.to_owned(), start: instant_now() }
    }

    /// The time taken so far, labelled `label`.
    pub fn checkpoint(&self, label: &str) -> (r: TimerReport)
        ensures
            r.timer@ == self.name_view(),
            r.checkpoint is Some,
            r.checkpoint->0@ == label@,
    {
        TimerReport {
            timer: self.name.clone(),
            checkpoint: Some(label.to_owned()),
            elapsed_ms: millis_since(&self.start),
        }
    }

    /// The time taken by the whole operation.
    pub fn finish(self) -> (r: TimerReport)
        ensures
            r.timer@ == self.name_view(),
            r.checkpoint is None,
    {
        let elapsed_ms = millis_since(&self.start);
        TimerReport { timer: self.name, checkpoint: None, elapsed_ms }
    }
}

/// Key/value context for a log record, starting with the operation's name.
pub struct LogContext {
    fields: Vec<(String, String)>,
}

impl View for LogContext {
    type V = Seq<(Seq<char>, Seq<char>)>;

    closed spec fn view(&self) -> Seq<(Seq<char>, Seq<char>)> {
        pairs_view(self.fields@)
    }
}

impl LogContext {
    /// A context whose one field names the operation.
    pub fn new(operation: &str) -> (r: LogContext)
        ensures
            r@ == seq![("operation"@, operation@)],
    {
        let mut fields: Vec<(String, String)> = Vec::new();
        fields.push((String::from_str("operation"), operation.to_owned()));
        let r = LogContext { fields };
        assert(r@ =~= seq![("operation"@, operation@)]);
        r
    }

    /// The context with one more field.
    pub fn field(self, key: &str, value: &str) -> (r: LogContext)
        ensures
            r@ == self@.push((key@, value@)),
    {
        let mut fields = self.fields;
        fields.push((key.to_owned(), value.to_owned()));
        let r = LogContext { fields };
        assert(r@ =~= self@.push((key@, value@)));
        r
    }

    fn record(self, level: LogLevel, message: &str) -> (r: LogRecord)
        ensures
            r.level == level,
            r.message@ == message@,
            pairs_view(r.fields@) == self@,
    {
        LogRecord { level, message: message.to_owned(), fields: self.fields }
    }

    /// An informational record carrying this context.
    pub fn info(self, message: &str) -> (r: LogRecord)
        ensures
            r.level == LogLevel::Info,
            r.message@ == message@,
            pairs_view(r.fields@) == self@,
    {
        self.record(LogLevel::Info, message)
    }

    /// A warning record carrying this context.
    pub fn warn(self, message: &str) -> (r: LogRecord)
        ensures
            r.level == LogLevel::Warn,
            r.message@ == message@,
            pairs_view(r.fields@) == self@,
    {
        self.record(LogLevel::Warn, message)
    }

    /// An error record carrying this context.
    pub fn error(self, message: &str) -> (r: LogRecord)
        ensures
            r.level == LogLevel::Error,
            r.message@ == message@,
            pairs_view(r.fields@) == self@,
    {
        self.record(LogLevel::Error, message)
    }
}

} // verus!
