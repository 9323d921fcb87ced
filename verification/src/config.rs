use vstd::prelude::*;
use crate::level::LevelFilter;

verus! {

/// Where a logger's records go. `Custom` names an appender that the
/// embedding program registered under that number.
#[derive(Clone, Debug)]
pub enum Appender {
    Console,
    File(String),
    Custom(u64),
}

/// The settings a logger is started with.
#[derive(Clone, Debug)]
pub struct Config {
    pub appends: Vec<Appender>,
    /// Numbers of the program's record filters, consulted in this order.
    pub filters: Vec<u64>,
    pub level: LevelFilter,
    /// Capacity of the record channel; `None` for an unbounded channel.
    pub chan_len: Option<usize>,
}

impl Config {
    /// No appenders, every level, an unbounded channel.
    pub fn new() -> (r: Config)
        ensures
            r.appends@.len() == 0,
            r.filters@.len() == 0,
            r.level == LevelFilter::Trace,
            r.chan_len is None,
    {
        Config { appends: Vec::new(), filters: Vec::new(), level: LevelFilter::Trace, chan_len: None }
    }

    /// The same settings with the channel capacity `len`.
    pub fn chan_len(self, len: Option<usize>) -> (r: Config)
        ensures
            r.chan_len == len,
            r.level == self.level,
            r.appends@ == self.appends@,
            r.filters@ == self.filters@,
    {
        Config { chan_len: len, ..self }
    }

    /// The same settings with the level filter `level`.
    pub fn level(self, level: LevelFilter) -> (r: Config)
        ensures
            r.level == level,
            r.chan_len == self.chan_len,
            r.appends@ == self.appends@,
            r.filters@ == self.filters@,
    {
        Config { level, ..self }
    }

    /// The same settings with `appender` added after the others.
    pub fn add_appender(self, appender: Appender) -> (r: Config)
        ensures
            r.appends@ == self.appends@.push(appender),
            r.level == self.level,
            r.chan_len == self.chan_len,
            r.filters@ == self.filters@,
    {
        let mut c = self;
        c.appends.push(appender);
        c
    }

    /// The same settings with the program's filter number `id` added after
    /// the others.
    pub fn add_filter(self, id: u64) -> (r: Config)
        ensures
            r.filters@ == self.filters@.push(id),
            r.appends@ == self.appends@,
            r.level == self.level,
            r.chan_len == self.chan_len,
    {
        let mut c = self;
        c.filters.push(id);
        c
    }

    /// The same settings with a file appender for `path` added.
    pub fn file(self, path: &str) -> (r: Config)
        ensures
            r.appends@.len() == self.appends@.len() + 1,
            r.appends@.drop_last() == self.appends@,
            r.appends@.last() matches Appender::File(p) && p@ == path@,
            r.level == self.level,
            r.chan_len == self.chan_len,
            r.filters@ == self.filters@,
    {
        self.add_appender(Appender::File(path.to_string()))
    }

    /// The same settings with a console appender added.
    pub fn console(self) -> (r: Config)
        ensures
            r.appends@ == self.appends@.push(Appender::Console),
            r.level == self.level,
            r.chan_len == self.chan_len,
            r.filters@ == self.filters@,
    {
        self.add_appender(Appender::Console)
    }

    /// The same settings with the program's appender number `id` added.
    pub fn custom(self, id: u64) -> (r: Config)
        ensures
            r.appends@ == self.appends@.push(Appender::Custom(id)),
            r.level == self.level,
            r.chan_len == self.chan_len,
            r.filters@ == self.filters@,
    {
        self.add_appender(Appender::Custom(id))
    }
}

} // verus!
