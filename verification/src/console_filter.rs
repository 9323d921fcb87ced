use vstd::prelude::*;
use crate::level::{Level, level_rank};
use crate::record::FastLogRecord;

verus! {

/// The escape sequence that opens the colour of `level`.
pub open spec fn color_prefix(level: Level) -> Seq<char> {
    match level {
        Level::Error => "\x1b[31m"@,
        Level::Warn => "\x1b[33m"@,
        Level::Info => "\x1b[32m"@,
        Level::Debug => "\x1b[36m"@,
        Level::Trace => "\x1b[35m"@,
    }
}

/// `text` in the colour of `level`, colour reset at the end.
pub open spec fn colored(level: Level, text: Seq<char>) -> Seq<char> {
    color_prefix(level) + text + "\x1b[0m"@
}

/// `text` in the colour of `level`.
pub fn colorize(level: Level, text: &str) -> (r: String)
    ensures
        r@ == colored(level, text@),
{
    let mut r = match level {
        Level::Error => "\x1b[31m".to_string(),
        Level::Warn => "\x1b[33m".to_string(),
        Level::Info => "\x1b[32m".to_string(),
        Level::Debug => "\x1b[36m".to_string(),
        Level::Trace => "\x1b[35m".to_string(),
    };
    r.append(text);
    r.append("\x1b[0m");
    r
}

/// A console appender that shows only records of level `Info` or more
/// severe, each line in the colour of its level.
pub struct ConsoleAppenderWithFilter {}

/// The records of level `Info` or more severe, in order.
pub open spec fn shown(records: Seq<FastLogRecord>) -> Seq<FastLogRecord> {
    records.filter(|r: FastLogRecord| level_rank(r.level) <= level_rank(Level::Info))
}

impl ConsoleAppenderWithFilter {
    /// The records the console is to show: those of level `Info` or more
    /// severe, in order, each with its line coloured by its level.
    pub fn do_logs(&self, records: &[FastLogRecord]) -> (out: Vec<FastLogRecord>)
        ensures
            out@.len() == shown(records@).len(),
            forall|i: int| 0 <= i < out@.len() ==> {
                let src = #[trigger] shown(records@)[i];
                &&& out@[i].command == src.command
                &&& out@[i].level == src.level
                &&& out@[i].target@ == src.target@
                &&& out@[i].args@ == src.args@
                &&& out@[i].module@ == src.module@
                &&& out@[i].file@ == src.file@
                &&& out@[i].line == src.line
                &&& out@[i].now == src.now
                &&& out@[i].formated@ == colored(src.level, src.formated@)
            },
    {
        let mut out: Vec<FastLogRecord> = Vec::new();
        let mut i: usize = 0;
        while i < records.len()
            invariant
                0 <= i <= records@.len(),
                out@.len() == shown(records@.subrange(0, i as int)).len(),
                forall|k: int| 0 <= k < out@.len() ==> {
                    let src = #[trigger] shown(records@.subrange(0, i as int))[k];
                    &&& out@[k].command == src.command
                    &&& out@[k].level == src.level
                    &&& out@[k].target@ == src.target@
                    &&& out@[k].args@ == src.args@
                    &&& out@[k].module@ == src.module@
                    &&& out@[k].file@ == src.file@
                    &&& out@[k].line == src.line
                    &&& out@[k].now == src.now
                    &&& out@[k].formated@ == colored(src.level, src.formated@)
                },
            decreases records@.len() - i,
        {
            let ghost before = shown(records@.subrange(0, i as int));
            proof {
                assert(records@.subrange(0, i + 1).drop_last() =~= records@.subrange(0, i as int));
                reveal_with_fuel(Seq::<FastLogRecord>::filter, 1);
            }
            let record = &records[i];
            if record.level.le(&Level::Info) {
                let mut copy = record.duplicate();
                copy.formated = colorize(record.level, record.formated.as_str());
                out.push(copy);
            }
            proof {
                assert(shown(records@.subrange(0, i + 1)) == if level_rank(records@[i as int].level) <= 3 {
                    before.push(records@[i as int])
                } else {
                    before
                });
                assert forall|k: int| 0 <= k < out@.len() implies {
                    let src = #[trigger] shown(records@.subrange(0, i + 1))[k];
                    &&& out@[k].command == src.command
                    &&& out@[k].level == src.level
                    &&& out@[k].target@ == src.target@
                    &&& out@[k].args@ == src.args@
                    &&& out@[k].module@ == src.module@
                    &&& out@[k].file@ == src.file@
                    &&& out@[k].line == src.line
                    &&& out@[k].now == src.now
                    &&& out@[k].formated@ == colored(src.level, src.formated@)
                } by {
                    if k < before.len() {
                        assert(shown(records@.subrange(0, i + 1))[k] == before[k]);
                    }
                }
            }
            i += 1;
        }
        proof {
            assert(records@.subrange(0, records@.len() as int) =~= records@);
        }
        out
    }
}

/// Whether `needle` occurs in `hay` as a contiguous piece.
pub open spec fn occurs_in(needle: Seq<char>, hay: Seq<char>) -> bool {
    exists|i: int| 0 <= i && i + needle.len() <= hay.len() && #[trigger] hay.subrange(i, i + needle.len()) == needle
}

/// Whether `needle` occurs in `hay`.
pub fn str_contains(hay: &str, needle: &str) -> (r: bool)
    ensures
        r == occurs_in(needle@, hay@),
{
    let n = hay.unicode_len();
    let m = needle.unicode_len();
    if m > n {
        proof {
            assert forall|i: int| 0 <= i && i + needle@.len() <= hay@.len() implies
                #[trigger] hay@.subrange(i, i + needle@.len()) != needle@ by {}
        }
        return false;
    }
    let mut i: usize = 0;
    while i <= n - m
        invariant
            n == hay@.len(),
            m == needle@.len(),
            m <= n,
            i <= n - m + 1,
            forall|s: int| 0 <= s < i ==> #[trigger] hay@.subrange(s, s + m) != needle@,
        decreases n - m + 1 - i,
    {
        let mut j: usize = 0;
        let mut same = true;
        while j < m
            invariant
                n == hay@.len(),
                m == needle@.len(),
                i + m <= n,
                j <= m,
                same == (forall|t: int| 0 <= t < j ==> hay@[i + t] == needle@[t]),
            decreases m - j,
        {
            if hay.get_char(i + j) != needle.get_char(j) {
                same = false;
            }
            j += 1;
        }
        if same {
            proof {
                assert(hay@.subrange(i as int, i + m) =~= needle@);
            }
            return true;
        }
        proof {
            let t = choose|t: int| 0 <= t < m && hay@[i + t] != needle@[t];
            assert(hay@.subrange(i as int, i + m)[t] != needle@[t]);
        }
        i += 1;
    }
    false
}

/// A record filter that drops records whose source file lies under a
/// `.cargo` directory.
pub struct LogFilter {}

impl LogFilter {
    /// Keeps a record unless its file is known and holds `.cargo`.
    pub fn do_log(&self, file: Option<&str>) -> (keep: bool)
        ensures
            keep == match file {
                None => true,
                Some(f) => !occurs_in(".cargo"@, f@),
            },
    {
        match file {
            None => true,
            Some(f) => !str_contains(f, ".cargo"),
        }
    }
}

} // verus!
