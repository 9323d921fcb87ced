use vstd::prelude::*;
use crate::level::Level;
use crate::record::{FastLogRecord, Timestamp};

verus! {

/// How a level prints: its name in capitals.
pub open spec fn level_text(level: Level) -> Seq<char> {
    match level {
        Level::Error => "ERROR"@,
        Level::Warn => "WARN"@,
        Level::Info => "INFO"@,
        Level::Debug => "DEBUG"@,
        Level::Trace => "TRACE"@,
    }
}

/// The name of a level, as it prints.
pub fn level_name(level: Level) -> (r: &'static str)
    ensures
        r@ == level_text(level),
{
    match level {
        Level::Error => "ERROR",
        Level::Warn => "WARN",
        Level::Info => "INFO",
        Level::Debug => "DEBUG",
        Level::Trace => "TRACE",
    }
}

/// The character of a decimal digit.
pub open spec fn digit_char(d: nat) -> char {
    (48 + d) as char
}

/// `n` in decimal, without leading zeros.
pub open spec fn decimal(n: nat) -> Seq<char>
    decreases n,
{
    if n < 10 {
        seq![digit_char(n)]
    } else {
        decimal(n / 10) + seq![digit_char(n % 10)]
    }
}

fn digit_str(d: u32) -> (r: &'static str)
    requires
        d < 10,
    ensures
        r@ == seq![digit_char(d as nat)],
{
    proof {
        reveal_strlit("0");
        reveal_strlit("1");
        reveal_strlit("2");
        reveal_strlit("3");
        reveal_strlit("4");
        reveal_strlit("5");
        reveal_strlit("6");
        reveal_strlit("7");
        reveal_strlit("8");
        reveal_strlit("9");
    }
    let r = match d {
        0 => "0",
        1 => "1",
        2 => "2",
        3 => "3",
        4 => "4",
        5 => "5",
        6 => "6",
        7 => "7",
        8 => "8",
        _ => "9",
    };
    assert(r@ =~= seq![digit_char(d as nat)]);
    r
}

/// `n` in decimal.
pub fn decimal_text(n: u32) -> (r: String)
    ensures
        r@ == decimal(n as nat),
    decreases n,
{
    if n < 10 {
        digit_str(n).to_string()
    } else {
        let mut s = decimal_text(n / 10);
        s.append(digit_str(n % 10));
        s
    }
}

/// The line of the example formatter: time, level, source place and
/// message; the short form leaves the source place out.
pub open spec fn log_line(
    time: Seq<char>,
    level: Level,
    file: Seq<char>,
    line: Option<u32>,
    args: Seq<char>,
    short: bool,
) -> Seq<char> {
    if short {
        "["@ + time + "] ["@ + level_text(level) + "]: "@ + args + "\n"@
    } else {
        let n: nat = match line {
            Some(l) => l as nat,
            None => 0,
        };
        "["@ + time + "] ["@ + level_text(level) + "] ["@ + file + ":"@ + decimal(n) + "]: "@ + args
            + "\n"@
    }
}

/// The line of the example formatter for the given parts.
pub fn format_line(time: &str, level: Level, file: &str, line: Option<u32>, args: &str, short: bool) -> (r: String)
    ensures
        r@ == log_line(time@, level, file@, line, args@, short),
{
    let mut r = "[".to_string();
    r.append(time);
    r.append("] [");
    r.append(level_name(level));
    if short {
        r.append("]: ");
    } else {
        r.append("] [");
        r.append(file);
        r.append(":");
        let n: u32 = match line {
            Some(l) => l,
            None => 0,
        };
        let d = decimal_text(n);
        r.append(d.as_str());
        r.append("]: ");
    }
    r.append(args);
    r.append("\n");
    r
}

/// The line of the example custom appender: time, level, module and
/// message.
pub open spec fn custom_text(time: Seq<char>, level: Level, module: Seq<char>, args: Seq<char>) -> Seq<char> {
    time + " "@ + level_text(level) + " "@ + module + " - "@ + args + "\n"@
}

/// Whatever the level, a custom appender line is the time, a space, the
/// level's name, a space, the module, ` - `, the message and a newline,
/// each at its place.
pub proof fn lemma_custom_line_parts(time: Seq<char>, level: Level, module: Seq<char>, args: Seq<char>)
    ensures
        ({
            let s = custom_text(time, level, module, args);
            let name = level_text(level);
            let a = time.len() as int;
            let b = a + 1 + name.len();
            let c = b + 1 + module.len();
            let d = c + 3 + args.len();
            &&& s.len() == d + 1
            &&& s.subrange(0, a) == time
            &&& s[a] == ' '
            &&& s.subrange(a + 1, b) == name
            &&& s[b] == ' '
            &&& s.subrange(b + 1, c) == module
            &&& s.subrange(c, c + 3) == seq![' ', '-', ' ']
            &&& s.subrange(c + 3, d) == args
            &&& s[d] == '\n'
        }),
{
    reveal_strlit(" ");
    reveal_strlit(" - ");
    reveal_strlit("\n");
    let s = custom_text(time, level, module, args);
    let name = level_text(level);
    let a = time.len() as int;
    let b = a + 1 + name.len();
    let c = b + 1 + module.len();
    let d = c + 3 + args.len();
    assert(s.subrange(0, a) =~= time);
    assert(s.subrange(a + 1, b) =~= name);
    assert(s.subrange(b + 1, c) =~= module);
    assert(s.subrange(c, c + 3) =~= seq![' ', '-', ' ']);
    assert(s.subrange(c + 3, d) =~= args);
}

/// The line of the example custom appender for the given parts.
pub fn custom_line(time: &str, level: Level, module: &str, args: &str) -> (r: String)
    ensures
        r@ == custom_text(time@, level, module@, args@),
{
    let mut r = time.to_string();
    r.append(" ");
    r.append(level_name(level));
    r.append(" ");
    r.append(module);
    r.append(" - ");
    r.append(args);
    r.append("\n");
    r
}

/// The text chrono gives the UTC time `secs` seconds and `nanos`
/// nanoseconds after the Unix epoch in the form `%Y-%m-%d %H:%M:%S%.6f`.
pub uninterp spec fn chrono_utc_text_of(secs: i64, nanos: u32) -> Seq<char>;

/// The text fastdate gives the time `secs` seconds and `nanos` nanoseconds
/// after the Unix epoch at offset 0 (its `Display`).
pub uninterp spec fn fastdate_text_of(secs: i64, nanos: u32) -> Seq<char>;

/// Times chrono represents: from the start of year -262143 to the end of
/// year 262142, with nanoseconds below one second.
pub open spec fn in_chrono_range(t: Timestamp) -> bool {
    &&& -8334601228800 <= t.secs <= 8210266876799
    &&& t.nanos < 1_000_000_000
}

/// Times fastdate renders: from the start of year 0 to the end of year
/// 9999, with nanoseconds below one second. Beyond year 9999 the `time`
/// crate beneath it panics; before year 0 its `Display` overflows a digit.
pub open spec fn in_fastdate_range(t: Timestamp) -> bool {
    &&& -62167219200 <= t.secs <= 253402300799
    &&& t.nanos < 1_000_000_000
}

/// Whether chrono can render `t`.
pub fn chrono_can_render(t: Timestamp) -> (r: bool)
    ensures
        r == in_chrono_range(t),
{
    -8334601228800 <= t.secs && t.secs <= 8210266876799 && t.nanos < 1_000_000_000
}

/// Whether fastdate can render `t`.
pub fn fastdate_can_render(t: Timestamp) -> (r: bool)
    ensures
        r == in_fastdate_range(t),
{
    -62167219200 <= t.secs && t.secs <= 253402300799 && t.nanos < 1_000_000_000
}

/// Renders the UTC time `secs`/`nanos` with chrono
/// (`DateTime::<Utc>::from_timestamp`, then `format`). `from_timestamp`
/// gives `None` outside chrono's range, which `requires` leaves out.
#[verifier::external_body]
fn chrono_utc_text(secs: i64, nanos: u32) -> (r: String)
    requires
        in_chrono_range(Timestamp { secs, nanos }),
    ensures
        r@ == chrono_utc_text_of(secs, nanos),
{
    chrono::DateTime::from_timestamp(secs, nanos).unwrap().format("%Y-%m-%d %H:%M:%S%.6f").to_string()
}

/// Renders the time `secs`/`nanos` at offset 0 with fastdate
/// (`DateTime::from_timestamp`, then `add` of the nanoseconds, then its
/// `Display`). The `time` crate beneath panics after year 9999, and the
/// `Display` overflows a digit before year 0; `requires` leaves both out.
#[verifier::external_body]
fn fastdate_text(secs: i64, nanos: u32) -> (r: String)
    requires
        in_fastdate_range(Timestamp { secs, nanos }),
    ensures
        r@ == fastdate_text_of(secs, nanos),
{
    fastdate::DateTime::from_timestamp(secs).add(std::time::Duration::from_nanos(nanos as u64)).to_string()
}

/// The formatter of the example program: a UTC time stamp, the level, the
/// source place and the message; `short` (the product and beta builds)
/// leaves the source place out.
pub struct LogFormat {
    pub short: bool,
}

impl LogFormat {
    /// Fills in the record's line, its time stamp rendered by chrono.
    pub fn do_format(&self, arg: &mut FastLogRecord)
        requires
            in_chrono_range(old(arg).now),
        ensures
            final(arg).formated@ == log_line(
                chrono_utc_text_of(old(arg).now.secs, old(arg).now.nanos),
                old(arg).level,
                old(arg).file@,
                old(arg).line,
                old(arg).args@,
                self.short,
            ),
            final(arg).command == old(arg).command,
            final(arg).level == old(arg).level,
            final(arg).target == old(arg).target,
            final(arg).args == old(arg).args,
            final(arg).module == old(arg).module,
            final(arg).file == old(arg).file,
            final(arg).line == old(arg).line,
            final(arg).now == old(arg).now,
    {
        let time = chrono_utc_text(arg.now.secs, arg.now.nanos);
        let line = format_line(time.as_str(), arg.level, arg.file.as_str(), arg.line, arg.args.as_str(), self.short);
        arg.formated = line;
    }
}

/// The custom appender of the example program: one line per record with a
/// time stamp, the level, the module and the message.
pub struct CustomLog {}

impl CustomLog {
    /// The lines to print, one per record, in order, each time stamp
    /// rendered by fastdate.
    pub fn do_logs(&self, records: &[FastLogRecord]) -> (lines: Vec<String>)
        requires
            forall|i: int| 0 <= i < records@.len() ==> in_fastdate_range(#[trigger] records@[i].now),
        ensures
            lines@.len() == records@.len(),
            forall|i: int| 0 <= i < records@.len() ==> (#[trigger] lines@[i])@ == custom_text(
                fastdate_text_of(records@[i].now.secs, records@[i].now.nanos),
                records@[i].level,
                records@[i].module@,
                records@[i].args@,
            ),
    {
        let mut lines: Vec<String> = Vec::new();
        let mut i: usize = 0;
        while i < records.len()
            invariant
                0 <= i <= records@.len(),
                forall|k: int| 0 <= k < records@.len() ==> in_fastdate_range(#[trigger] records@[k].now),
                lines@.len() == i,
                forall|k: int| 0 <= k < i ==> (#[trigger] lines@[k])@ == custom_text(
                    fastdate_text_of(records@[k].now.secs, records@[k].now.nanos),
                    records@[k].level,
                    records@[k].module@,
                    records@[k].args@,
                ),
            decreases records@.len() - i,
        {
            let record = &records[i];
            let time = fastdate_text(record.now.secs, record.now.nanos);
            let line = custom_line(time.as_str(), record.level, record.module.as_str(), record.args.as_str());
            lines.push(line);
            i += 1;
        }
        lines
    }
}

} // verus!
