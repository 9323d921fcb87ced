use vstd::prelude::*;
use crate::level::Level;
use std::time::SystemTime;

verus! {

#[verifier::external_type_specification]
#[verifier::external_body]
pub struct ExSystemTime(SystemTime);

/// Reads the wall clock (`std::time::SystemTime::now`). The value is the
/// machine's time, so nothing is stated of it.
#[verifier::external_body]
fn system_time_now() -> (r: SystemTime) {
    SystemTime::now()
}

/// How far `t` lies from the Unix epoch (`SystemTime::duration_since`
/// with `UNIX_EPOCH`): `Ok` with whole seconds and nanoseconds when `t` is
/// not before it, `Err` with the same for the distance back when it is.
/// The nanoseconds part of a `Duration` is always below one billion.
#[verifier::external_body]
fn since_epoch(t: SystemTime) -> (r: Result<(u64, u32), (u64, u32)>)
    ensures
        r matches Ok(d) ==> d.1 < 1_000_000_000,
        r matches Err(d) ==> d.1 < 1_000_000_000,
{
    match t.duration_since(SystemTime::UNIX_EPOCH) {
        Ok(d) => Ok((d.as_secs(), d.subsec_nanos())),
        Err(e) => Err((e.duration().as_secs(), e.duration().subsec_nanos())),
    }
}

/// A point in time: whole seconds since the Unix epoch (negative before
/// it, rounded down) and the nanoseconds into that second.
#[derive(Clone, Copy, Debug, PartialEq, Eq, Structural)]
pub struct Timestamp {
    pub secs: i64,
    pub nanos: u32,
}

/// The point in time `secs` seconds and `nanos` nanoseconds after
/// (`after`) or before the epoch, where the seconds fit in an `i64`; the
/// earliest and latest timestamps stand in for points beyond that.
pub open spec fn timestamp_of_spec(after: bool, secs: u64, nanos: u32) -> Timestamp {
    if after {
        if secs <= i64::MAX {
            Timestamp { secs: secs as i64, nanos }
        } else {
            Timestamp { secs: i64::MAX, nanos: 999_999_999 }
        }
    } else if nanos == 0 {
        if secs <= i64::MAX + 1 {
            Timestamp { secs: (0 - secs) as i64, nanos: 0 }
        } else {
            Timestamp { secs: i64::MIN, nanos: 0 }
        }
    } else if secs <= i64::MAX {
        Timestamp { secs: (0 - secs - 1) as i64, nanos: (1_000_000_000 - nanos) as u32 }
    } else {
        Timestamp { secs: i64::MIN, nanos: 0 }
    }
}

/// The timestamp of a distance from the epoch, as `since_epoch` gives it.
pub fn timestamp_of(distance: Result<(u64, u32), (u64, u32)>) -> (r: Timestamp)
    requires
        distance matches Ok(d) ==> d.1 < 1_000_000_000,
        distance matches Err(d) ==> d.1 < 1_000_000_000,
    ensures
        r.nanos < 1_000_000_000,
        distance matches Ok(d) ==> r == timestamp_of_spec(true, d.0, d.1),
        distance matches Err(d) ==> r == timestamp_of_spec(false, d.0, d.1),
{
    match distance {
        Ok((s, n)) => {
            if s <= 9223372036854775807u64 {
                Timestamp { secs: s as i64, nanos: n }
            } else {
                Timestamp { secs: i64::MAX, nanos: 999_999_999 }
            }
        },
        Err((s, n)) => {
            if n == 0 {
                if s <= 9223372036854775808u64 {
                    let v: i128 = 0i128 - (s as i128);
                    Timestamp { secs: v as i64, nanos: 0 }
                } else {
                    Timestamp { secs: i64::MIN, nanos: 0 }
                }
            } else if s <= 9223372036854775807u64 {
                let v: i128 = 0i128 - (s as i128) - 1;
                Timestamp { secs: v as i64, nanos: 1_000_000_000 - n }
            } else {
                Timestamp { secs: i64::MIN, nanos: 0 }
            }
        },
    }
}

/// The current time (the machine's clock).
pub fn timestamp_now() -> (r: Timestamp)
    ensures
        r.nanos < 1_000_000_000,
{
    timestamp_of(since_epoch(system_time_now()))
}

/// What a record asks of the workers that receive it.
#[derive(Clone, Copy, Debug, PartialEq, Eq, Structural)]
pub enum Command {
    /// An ordinary log line.
    CommandRecord,
    /// Stop the workers once this record has been handled.
    CommandExit,
    /// Handle everything sent so far, then release the flush group with
    /// this number.
    CommandFlush(u64),
}

impl Command {
    pub open spec fn is_exit(&self) -> bool {
        self is CommandExit
    }

    /// Whether this is the exit command.
    pub fn is_exit_command(&self) -> (r: bool)
        ensures
            r == self.is_exit(),
    {
        match self {
            Command::CommandExit => true,
            _ => false,
        }
    }
}

/// One log record as it travels from the front end to the appenders.
#[derive(Clone, Debug)]
pub struct FastLogRecord {
    pub command: Command,
    pub level: Level,
    pub target: String,
    pub args: String,
    pub module: String,
    pub file: String,
    pub line: Option<u32>,
    pub now: Timestamp,
    /// The formatted line; empty until a formatter has run.
    pub formated: String,
}

impl FastLogRecord {
    /// Same command variant and same values in every other field.
    pub open spec fn same_content(self, other: FastLogRecord) -> bool {
        &&& self.command == other.command
        &&& self.level == other.level
        &&& self.target@ == other.target@
        &&& self.args@ == other.args@
        &&& self.module@ == other.module@
        &&& self.file@ == other.file@
        &&& self.line == other.line
        &&& self.now == other.now
        &&& self.formated@ == other.formated@
    }

    /// A copy of the record (what `clone` does, with its content stated).
    pub fn duplicate(&self) -> (r: FastLogRecord)
        ensures
            r.same_content(*self),
    {
        FastLogRecord {
            command: self.command,
            level: self.level,
            target: self.target.clone(),
            args: self.args.clone(),
            module: self.module.clone(),
            file: self.file.clone(),
            line: self.line,
            now: self.now,
            formated: self.formated.clone(),
        }
    }
}

/// A record that carries only a command and a preformatted line, at level
/// `Info`, stamped with the current time.
pub fn command_record(command: Command, formated: String) -> (r: FastLogRecord)
    ensures
        r.command == command,
        r.level == Level::Info,
        r.target@ == Seq::<char>::empty(),
        r.args@ == Seq::<char>::empty(),
        r.module@ == Seq::<char>::empty(),
        r.file@ == Seq::<char>::empty(),
        r.line is None,
        r.now.nanos < 1_000_000_000,
        r.formated == formated,
{
    FastLogRecord {
        command,
        level: Level::Info,
        target: String::new(),
        args: String::new(),
        module: String::new(),
        file: String::new(),
        line: None,
        now: timestamp_now(),
        formated,
    }
}

/// The error type of the library: a message.
#[derive(Clone, Debug)]
pub struct LogError {
    pub msg: String,
}

impl LogError {
    /// An error carrying `msg`.
    pub fn from_str(msg: &str) -> (r: LogError)
        ensures
            r.msg@ == msg@,
    {
        LogError { msg: msg.to_string() }
    }
}

} // verus!
