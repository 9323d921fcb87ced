use vstd::prelude::*;
use crossbeam_channel::{Receiver, SendError, Sender};
use dashmap::DashMap;
use crate::channel::{chan, max_bounded_capacity, sender_capacity};
use crate::config::Config;
use crate::level::{set_max_level, max_level, Level, LevelFilter};
use crate::record::{timestamp_now, command_record, Command, FastLogRecord, LogError};

verus! {

#[verifier::external_type_specification]
#[verifier::external_body]
#[verifier::reject_recursive_types(K)]
#[verifier::reject_recursive_types(V)]
#[verifier::reject_recursive_types(S)]
pub struct ExDashMap<K, V, S>(DashMap<K, V, S>);

/// The entries of the registry's key index: each key with the slot of its
/// logger.
pub uninterp spec fn index_contents(m: DashMap<String, usize>) -> Map<Seq<char>, usize>;

/// An empty map (`DashMap::new`).
#[verifier::external_body]
fn index_new() -> (m: DashMap<String, usize>)
    ensures
        index_contents(m).dom().is_empty(),
{
    DashMap::new()
}

/// Whether `key` has an entry (`DashMap::contains_key`).
#[verifier::external_body]
fn index_contains(m: &DashMap<String, usize>, key: &str) -> (r: bool)
    ensures
        r == index_contents(*m).dom().contains(key@),
{
    m.contains_key(key)
}

/// The value stored under `key`, if any (`DashMap::get`, the guard read
/// and released at once).
#[verifier::external_body]
fn index_get(m: &DashMap<String, usize>, key: &str) -> (r: Option<usize>)
    ensures
        index_contents(*m).dom().contains(key@) ==> r == Some(index_contents(*m)[key@]),
        !index_contents(*m).dom().contains(key@) ==> r is None,
{
    m.get(key).map(|e| *e.value())
}

/// Stores `value` under `key`, replacing any earlier value, and returns that
/// earlier value (`DashMap::insert`).
#[verifier::external_body]
fn index_insert(m: &mut DashMap<String, usize>, key: String, value: usize) -> (r: Option<usize>)
    ensures
        index_contents(*final(m)) == index_contents(*old(m)).insert(key@, value),
        index_contents(*old(m)).dom().contains(key@) ==> r == Some(index_contents(*old(m))[key@]),
        !index_contents(*old(m)).dom().contains(key@) ==> r is None,
{
    m.insert(key, value)
}

/// Every key once, in the map's own order (`DashMap::iter`, keeping the
/// key of each entry). The order comes from the map's hashing, which is
/// seeded per process, so only the set of keys is stated.
#[verifier::external_body]
fn index_keys(m: &DashMap<String, usize>) -> (keys: Vec<String>)
    ensures
        forall|i: int, j: int| 0 <= i < j < keys@.len() ==> keys@[i]@ != keys@[j]@,
        forall|i: int| 0 <= i < keys@.len() ==> index_contents(*m).dom().contains(#[trigger] keys@[i]@),
        forall|k: Seq<char>| index_contents(*m).dom().contains(k) ==>
            exists|i: int| 0 <= i < keys@.len() && #[trigger] keys@[i]@ == k,
{
    m.iter().map(|e| e.key().clone()).collect()
}

/// A named logger: its settings and the sending and receiving ends of its
/// record channel, each set at most once.
pub struct Logger {
    pub cfg: Option<Config>,
    pub send: Option<Sender<FastLogRecord>>,
    pub recv: Option<Receiver<FastLogRecord>>,
}

impl Default for Logger {
    fn default() -> (r: Self)
        ensures
            r.cfg is None,
            r.send is None,
            r.recv is None,
    {
        Logger { cfg: None, send: None, recv: None }
    }
}

impl Logger {
    /// Settings and both channel ends are in place.
    pub open spec fn is_started(&self) -> bool {
        &&& self.cfg is Some
        &&& self.send is Some
        &&& self.recv is Some
    }

    /// Stores the sending end unless one is there already.
    pub fn set_send(&mut self, s: Sender<FastLogRecord>) -> (r: Result<(), LogError>)
        ensures
            old(self).send is None ==> r is Ok && final(self).send == Some(s),
            old(self).send is Some ==> r is Err && final(self).send == old(self).send
                && r->Err_0.msg@ == "set fail"@,
            final(self).cfg == old(self).cfg,
            final(self).recv == old(self).recv,
    {
        if self.send.is_some() {
            return Err(LogError::from_str("set fail"));
        }
        self.send = Some(s);
        Ok(())
    }

    /// Stores the receiving end unless one is there already.
    pub fn set_recv(&mut self, r: Receiver<FastLogRecord>) -> (res: Result<(), LogError>)
        ensures
            old(self).recv is None ==> res is Ok && final(self).recv == Some(r),
            old(self).recv is Some ==> res is Err && final(self).recv == old(self).recv
                && res->Err_0.msg@ == "set fail"@,
            final(self).cfg == old(self).cfg,
            final(self).send == old(self).send,
    {
        if self.recv.is_some() {
            return Err(LogError::from_str("set fail"));
        }
        self.recv = Some(r);
        Ok(())
    }

    /// Stores the settings unless some are there already.
    pub fn set_cfg(&mut self, c: Config) -> (r: Result<(), LogError>)
        ensures
            old(self).cfg is None ==> r is Ok && final(self).cfg == Some(c),
            old(self).cfg is Some ==> r is Err && final(self).cfg == old(self).cfg
                && r->Err_0.msg@ == "set fail="@,
            final(self).send == old(self).send,
            final(self).recv == old(self).recv,
    {
        if self.cfg.is_some() {
            return Err(LogError::from_str("set fail="));
        }
        self.cfg = Some(c);
        Ok(())
    }

    /// Sets the process-wide maximum level of the `log` facade.
    pub fn set_level(&self, level: LevelFilter) {
        set_max_level(level);
    }

    /// The process-wide maximum level of the `log` facade.
    pub fn get_level(&self) -> LevelFilter {
        max_level()
    }

    /// Queues the preformatted line `log` for every registered logger (not
    /// only for this one).
    pub fn print(&self, registry: &mut Registry, log: String) -> (r: Result<(), SendError<FastLogRecord>>)
        requires
            old(registry).wf(),
        ensures
            r is Ok,
            final(registry).wf(),
            final(registry)@ == old(registry)@,
            final(registry).pending() == old(registry).pending(),
            each_name_once(old(registry).outbox(), final(registry).outbox(), old(registry)@.dom(),
                |rec: FastLogRecord| rec.command is CommandRecord && is_plain_record(rec, log@)),
    {
        registry.print_all(log);
        Ok(())
    }
}

/// The registry of named loggers. Loggers live in an append-only arena,
/// as leaked allocations would; the key index maps each name to the slot
/// of its current logger.
pub struct Registry {
    index: DashMap<String, usize>,
    loggers: Vec<Logger>,
    pending: Vec<String>,
    outbox: Vec<(String, FastLogRecord)>,
    level: Option<LevelFilter>,
}

impl Registry {
    /// The loggers by name.
    pub closed spec fn view(&self) -> Map<Seq<char>, Logger> {
        Map::new(
            |k: Seq<char>| index_contents(self.index).dom().contains(k),
            |k: Seq<char>| self.loggers@[index_contents(self.index)[k] as int],
        )
    }

    /// Names of loggers whose background workers are still to be started,
    /// oldest first.
    pub closed spec fn pending(&self) -> Seq<Seq<char>> {
        self.pending@.map_values(|s: String| s@)
    }

    /// Records waiting to be handed to the channel of the named logger,
    /// oldest first; the embedding program takes them with `take_outbox`
    /// and sends each on `get(name).send`.
    pub closed spec fn outbox(&self) -> Seq<(Seq<char>, FastLogRecord)> {
        self.outbox@.map_values(|e: (String, FastLogRecord)| (e.0@, e.1))
    }

    /// The level that the registry last stored as the `log` facade's
    /// process-wide maximum (when starting a logger), or `None` before the
    /// first; a later `set_level` on a logger may have stored another.
    pub closed spec fn level_set(&self) -> Option<LevelFilter> {
        self.level
    }

    /// Every slot in the index points into the arena, and every logger in
    /// the arena was started.
    pub closed spec fn wf(&self) -> bool {
        &&& forall|k: Seq<char>| #[trigger] index_contents(self.index).dom().contains(k)
            ==> index_contents(self.index)[k] < self.loggers@.len()
        &&& forall|i: int| 0 <= i < self.loggers@.len() ==> (#[trigger] self.loggers@[i]).is_started()
    }

    /// An empty registry.
    pub fn new() -> (r: Registry)
        ensures
            r.wf(),
            r@ == Map::<Seq<char>, Logger>::empty(),
            r.pending() == Seq::<Seq<char>>::empty(),
            r.outbox() == Seq::<(Seq<char>, FastLogRecord)>::empty(),
            r.level_set() is None,
    {
        let r = Registry {
            index: index_new(),
            loggers: Vec::new(),
            pending: Vec::new(),
            outbox: Vec::new(),
            level: None,
        };
        assert(r@ =~= Map::<Seq<char>, Logger>::empty());
        assert(r.outbox() =~= Seq::<(Seq<char>, FastLogRecord)>::empty());
        assert(r.pending() =~= Seq::<Seq<char>>::empty());
        r
    }

    /// Every logger of a well-formed registry is started.
    pub proof fn lemma_all_started(&self)
        requires
            self.wf(),
        ensures
            forall|k: Seq<char>| #[trigger] self@.contains_key(k) ==> self@[k].is_started(),
    {
        assert forall|k: Seq<char>| #[trigger] self@.contains_key(k) implies self@[k].is_started() by {
            let i = index_contents(self.index)[k] as int;
            assert(self.loggers@[i].is_started());
        }
    }

    /// Whether a logger is registered under `key`.
    pub fn contains(&self, key: &str) -> (r: bool)
        ensures
            r == self@.contains_key(key@),
    {
        index_contains(&self.index, key)
    }

    /// The logger registered under `key`, if any.
    pub fn get(&self, key: &str) -> (r: Option<&Logger>)
        requires
            self.wf(),
        ensures
            self@.contains_key(key@) ==> r == Some(&self@[key@]),
            !self@.contains_key(key@) ==> r is None,
    {
        match index_get(&self.index, key) {
            Some(i) => Some(&self.loggers[i]),
            None => None,
        }
    }

    /// The registered names, each once, in no particular order.
    pub fn keys(&self) -> (keys: Vec<String>)
        ensures
            forall|i: int, j: int| 0 <= i < j < keys@.len() ==> keys@[i]@ != keys@[j]@,
            forall|i: int| 0 <= i < keys@.len() ==> self@.contains_key(#[trigger] keys@[i]@),
            forall|k: Seq<char>| self@.contains_key(k) ==>
                exists|i: int| 0 <= i < keys@.len() && #[trigger] keys@[i]@ == k,
    {
        index_keys(&self.index)
    }

    /// Hands over the names whose workers are still to be started and
    /// forgets them.
    pub fn take_pending(&mut self) -> (r: Vec<String>)
        requires
            old(self).wf(),
        ensures
            r@.map_values(|s: String| s@) == old(self).pending(),
            final(self).pending() == Seq::<Seq<char>>::empty(),
            final(self)@ == old(self)@,
            final(self).outbox() == old(self).outbox(),
            final(self).wf(),
    {
        let mut r: Vec<String> = Vec::new();
        std::mem::swap(&mut r, &mut self.pending);
        proof {
            assert(final(self).pending() =~= Seq::<Seq<char>>::empty());
        }
        r
    }

    /// Hands over the records waiting to be sent, each with the name of its
    /// logger, oldest first, and forgets them.
    pub fn take_outbox(&mut self) -> (r: Vec<(String, FastLogRecord)>)
        requires
            old(self).wf(),
        ensures
            r@.map_values(|e: (String, FastLogRecord)| (e.0@, e.1)) == old(self).outbox(),
            final(self).outbox() == Seq::<(Seq<char>, FastLogRecord)>::empty(),
            final(self).pending() == old(self).pending(),
            final(self)@ == old(self)@,
            final(self).wf(),
    {
        let mut r: Vec<(String, FastLogRecord)> = Vec::new();
        std::mem::swap(&mut r, &mut self.outbox);
        proof {
            assert(final(self).outbox() =~= Seq::<(Seq<char>, FastLogRecord)>::empty());
        }
        r
    }
}

/// `after` is `before` followed by one record for each name in `names`:
/// every name exactly once, in some order, each record satisfying `p`.
pub open spec fn each_name_once(
    before: Seq<(Seq<char>, FastLogRecord)>,
    after: Seq<(Seq<char>, FastLogRecord)>,
    names: Set<Seq<char>>,
    p: spec_fn(FastLogRecord) -> bool,
) -> bool {
    let start = before.len() as int;
    &&& start <= after.len()
    &&& after.subrange(0, start) == before
    &&& forall|i: int| start <= i < after.len() ==> names.contains(#[trigger] after[i].0) && p(after[i].1)
    &&& forall|i: int, j: int| start <= i < j < after.len() ==> #[trigger] after[i].0 != #[trigger] after[j].0
    &&& forall|k: Seq<char>| #[trigger] names.contains(k) ==> exists|i: int| start <= i < after.len() && after[i].0 == k
}

/// A record as the library builds it for its own messages: level `Info`,
/// no target, arguments, module, file or line, and `formated` as given.
pub open spec fn is_plain_record(r: FastLogRecord, formated: Seq<char>) -> bool {
    &&& r.level == Level::Info
    &&& r.target@ == Seq::<char>::empty()
    &&& r.args@ == Seq::<char>::empty()
    &&& r.module@ == Seq::<char>::empty()
    &&& r.file@ == Seq::<char>::empty()
    &&& r.line is None
    &&& r.formated@ == formated
}

/// Weakening the record property of `each_name_once`.
pub proof fn lemma_each_name_once_weaken(
    before: Seq<(Seq<char>, FastLogRecord)>,
    after: Seq<(Seq<char>, FastLogRecord)>,
    names: Set<Seq<char>>,
    p: spec_fn(FastLogRecord) -> bool,
    q: spec_fn(FastLogRecord) -> bool,
)
    requires
        each_name_once(before, after, names, p),
        forall|r: FastLogRecord| #[trigger] p(r) ==> q(r),
    ensures
        each_name_once(before, after, names, q),
{
    let start = before.len() as int;
    assert forall|i: int| start <= i < after.len() implies names.contains(#[trigger] after[i].0) && q(after[i].1) by {
        assert(names.contains(after[i].0));
        assert(p(after[i].1));
    }
}

impl Registry {
    /// Stores `level` as the `log` facade's process-wide maximum and
    /// remembers it.
    fn store_level(&mut self, level: LevelFilter)
        requires
            old(self).wf(),
        ensures
            final(self).wf(),
            final(self)@ == old(self)@,
            final(self).pending() == old(self).pending(),
            final(self).outbox() == old(self).outbox(),
            final(self).level_set() == Some(level),
    {
        set_max_level(level);
        self.level = Some(level);
    }

    /// Queues `record` for the channel of the logger registered under `key`.
    fn enqueue(&mut self, key: &str, record: FastLogRecord)
        requires
            old(self).wf(),
            old(self)@.contains_key(key@),
        ensures
            final(self).wf(),
            final(self)@ == old(self)@,
            final(self).pending() == old(self).pending(),
            final(self).outbox() == old(self).outbox().push((key@, record)),
    {
        self.outbox.push((key.to_string(), record));
        proof {
            assert(final(self).outbox() =~= old(self).outbox().push((key@, record)));
        }
    }

    /// Queues a copy of `template` for every registered logger.
    #[verifier::spinoff_prover]
    fn broadcast(&mut self, template: &FastLogRecord)
        requires
            old(self).wf(),
        ensures
            final(self).wf(),
            final(self)@ == old(self)@,
            final(self).pending() == old(self).pending(),
            each_name_once(old(self).outbox(), final(self).outbox(), old(self)@.dom(),
                |r: FastLogRecord| r.same_content(*template)),
    {
        let keys = self.keys();
        let ghost start = self.outbox().len() as int;
        let ghost before = self.outbox();
        let ghost names = self@;
        let ghost pend = self.pending();
        let mut i: usize = 0;
        while i < keys.len()
            invariant
                self.wf(),
                self@ == names,
                self.pending() == pend,
                0 <= i <= keys@.len(),
                0 <= start,
                forall|a: int, b: int| 0 <= a < b < keys@.len() ==> keys@[a]@ != keys@[b]@,
                forall|a: int| 0 <= a < keys@.len() ==> names.contains_key(#[trigger] keys@[a]@),
                forall|k: Seq<char>| names.contains_key(k) ==>
                    exists|a: int| 0 <= a < keys@.len() && #[trigger] keys@[a]@ == k,
                self.outbox().len() == start + i,
                self.outbox().subrange(0, start) == before,
                forall|j: int| 0 <= j < i ==> (#[trigger] self.outbox()[start + j]).0 == keys@[j]@
                    && self.outbox()[start + j].1.same_content(*template),
            decreases keys@.len() - i,
        {
            let ghost prev = self.outbox();
            self.enqueue(keys[i].as_str(), template.duplicate());
            proof {
                assert(self.outbox().subrange(0, start) =~= prev.subrange(0, start));
                assert forall|j: int| 0 <= j < i + 1 implies (#[trigger] self.outbox()[start + j]).0 == keys@[j]@
                    && self.outbox()[start + j].1.same_content(*template) by {
                    if j < i {
                        assert(self.outbox()[start + j] == prev[start + j]);
                    }
                }
            }
            i += 1;
        }
        proof {
            let after = self.outbox();
            assert forall|a: int| start <= a < after.len() implies names.dom().contains(#[trigger] after[a].0)
                && (|r: FastLogRecord| r.same_content(*template))(after[a].1) by {
                assert(after[start + (a - start)] == after[a]);
            }
            assert forall|a: int, b: int| start <= a < b < after.len() implies #[trigger] after[a].0 != #[trigger] after[b].0 by {
                assert(after[start + (a - start)] == after[a]);
                assert(after[start + (b - start)] == after[b]);
            }
            assert forall|k: Seq<char>| #[trigger] names.dom().contains(k) implies exists|a: int| start <= a < after.len() && after[a].0 == k by {
                assert(names.contains_key(k));
                let c = choose|c: int| 0 <= c < keys@.len() && #[trigger] keys@[c]@ == k;
                assert(after[start + c].0 == k);
            }
            assert(after.subrange(0, start) == before);
            assert(each_name_once(before, after, names.dom(), |r: FastLogRecord| r.same_content(*template)));
        }
    }

    /// Queues the preformatted line `log` for every registered logger.
    pub fn print_all(&mut self, log: String)
        requires
            old(self).wf(),
        ensures
            final(self).wf(),
            final(self)@ == old(self)@,
            final(self).pending() == old(self).pending(),
            each_name_once(old(self).outbox(), final(self).outbox(), old(self)@.dom(),
                |r: FastLogRecord| r.command is CommandRecord && is_plain_record(r, log@)),
    {
        let ghost l = log@;
        let record = command_record(Command::CommandRecord, log);
        self.broadcast(&record);
        proof {
            lemma_each_name_once_weaken(old(self).outbox(), self.outbox(), old(self)@.dom(),
                |r: FastLogRecord| r.same_content(record),
                |r: FastLogRecord| r.command is CommandRecord && is_plain_record(r, l));
        }
    }
}

/// The settings of the logger that stands in for unknown names: one file
/// appender writing to `unknown.log`, a channel of 5000 records, every
/// level, no filters.
pub open spec fn is_fallback_config(c: Config) -> bool {
    &&& c.appends@.len() == 1
    &&& c.appends@[0] matches crate::config::Appender::File(p) && p@ == "unknown.log"@
    &&& c.filters@.len() == 0
    &&& c.level == LevelFilter::Trace
    &&& c.chan_len == Some(5000usize)
}

/// Starts a logger with `config` and registers it under `key`, replacing
/// any logger registered there before. The embedding program is to start
/// its workers: the key is queued in `pending`. A config without appenders
/// is refused and nothing changes.
pub fn init<'a>(registry: &'a mut Registry, config: Config, key: &str) -> (r: Result<&'a Logger, LogError>)
    requires
        old(registry).wf(),
        config.chan_len matches Some(n) ==> n <= max_bounded_capacity(),
    ensures
        final(registry).wf(),
        final(registry).outbox() == old(registry).outbox(),
        config.appends@.len() == 0 ==> {
            &&& r is Err
            &&& r->Err_0.msg@ == "[fast_log] appends can not be empty!"@
            &&& final(registry)@ == old(registry)@
            &&& final(registry).pending() == old(registry).pending()
            &&& final(registry).level_set() == old(registry).level_set()
        },
        config.appends@.len() > 0 ==> {
            &&& r is Ok
            &&& final(registry).level_set() == Some(config.level)
            &&& r->Ok_0.is_started()
            &&& r->Ok_0.cfg == Some(config)
            &&& r->Ok_0.send matches Some(s) && sender_capacity(s) == config.chan_len
            &&& final(registry)@ == old(registry)@.insert(key@, *r->Ok_0)
            &&& final(registry).pending() == old(registry).pending().push(key@)
        },
{
    if config.appends.len() == 0 {
        return Err(LogError::from_str("[fast_log] appends can not be empty!"));
    }
    let (s, rx) = chan(config.chan_len);
    let mut logger = Logger::default();
    match logger.set_send(s) {
        Ok(()) => {},
        Err(e) => return Err(e),
    }
    match logger.set_recv(rx) {
        Ok(()) => {},
        Err(e) => return Err(e),
    }
    registry.store_level(config.level);
    match logger.set_cfg(config) {
        Ok(()) => {},
        Err(e) => return Err(e),
    }
    let slot = registry.loggers.len();
    registry.loggers.push(logger);
    let _ = index_insert(&mut registry.index, key.to_string(), slot);
    registry.pending.push(key.to_string());
    proof {
        assert(final(registry).pending() =~= old(registry).pending().push(key@));
        assert(final(registry)@ =~= old(registry)@.insert(key@, final(registry).loggers@[slot as int]));
    }
    Ok(&registry.loggers[slot])
}

/// The logger registered under `key`. For a name that is not registered,
/// a logger with the fallback settings is started under `unknown`
/// (replacing any logger there) and returned.
pub fn logger<'a>(registry: &'a mut Registry, key: &str) -> (r: &'a Logger)
    requires
        old(registry).wf(),
    ensures
        final(registry).wf(),
        final(registry).outbox() == old(registry).outbox(),
        old(registry)@.contains_key(key@) ==> {
            &&& *r == old(registry)@[key@]
            &&& final(registry)@ == old(registry)@
            &&& final(registry).pending() == old(registry).pending()
            &&& final(registry).level_set() == old(registry).level_set()
        },
        !old(registry)@.contains_key(key@) ==> {
            &&& final(registry).level_set() == Some(LevelFilter::Trace)
            &&& r.is_started()
            &&& r.cfg matches Some(c) && is_fallback_config(c)
            &&& r.send matches Some(s) && sender_capacity(s) == Some(5000usize)
            &&& final(registry)@ == old(registry)@.insert("unknown"@, *r)
            &&& final(registry).pending() == old(registry).pending().push("unknown"@)
        },
{
    if registry.contains(key) {
        match registry.get(key) {
            Some(l) => l,
            None => {
                proof { assert(false); }
                vstd::pervasive::unreached()
            },
        }
    } else {
        let key = "unknown";
        let mut path = key.to_string();
        path.append(".log");
        proof {
            reveal_strlit("unknown");
            reveal_strlit(".log");
            reveal_strlit("unknown.log");
            assert(path@ =~= "unknown.log"@);
        }
        let config = Config::new().chan_len(Some(5000)).file(path.as_str());
        match init(registry, config, key) {
            Ok(l) => l,
            Err(_) => {
                proof { assert(false); }
                vstd::pervasive::unreached()
            },
        }
    }
}

/// A front end that logs through the registry; `key` names the logger it
/// was started with.
pub struct Loggers {
    pub key: &'static str,
}

impl Default for Loggers {
    fn default() -> (r: Self)
        ensures
            r.key@ == "unknown"@,
    {
        Loggers { key: "unknown" }
    }
}

/// The name whose logger handles records for `key`: `key` itself when it
/// is registered, else the fallback `unknown`.
pub open spec fn resolved_name(reg: Map<Seq<char>, Logger>, key: Seq<char>) -> Seq<char> {
    if reg.contains_key(key) {
        key
    } else {
        "unknown"@
    }
}

/// The record `Loggers::log` sends for the given parts.
pub open spec fn is_log_record(
    r: FastLogRecord,
    level: Level,
    target: Seq<char>,
    args: Seq<char>,
    module: Option<String>,
    file: Option<String>,
    line: Option<u32>,
) -> bool {
    &&& r.command is CommandRecord
    &&& r.level == level
    &&& r.target@ == target
    &&& r.args@ == args
    &&& r.module@ == (match module {
        Some(m) => m@,
        None => Seq::<char>::empty(),
    })
    &&& r.file@ == (match file {
        Some(f) => f@,
        None => Seq::<char>::empty(),
    })
    &&& r.line == line
    &&& r.formated@ == Seq::<char>::empty()
}

impl Loggers {
    /// Starts a logger under `key` with `config` (a refused config is
    /// ignored) and returns a front end for it.
    pub fn new(registry: &mut Registry, key: &'static str, config: Config) -> (r: Loggers)
        requires
            old(registry).wf(),
            config.chan_len matches Some(n) ==> n <= max_bounded_capacity(),
        ensures
            r.key == key,
            final(registry).wf(),
            final(registry).outbox() == old(registry).outbox(),
            config.appends@.len() == 0 ==> {
                &&& final(registry)@ == old(registry)@
                &&& final(registry).pending() == old(registry).pending()
                &&& final(registry).level_set() == old(registry).level_set()
            },
            config.appends@.len() > 0 ==> {
                &&& final(registry).level_set() == Some(config.level)
                &&& final(registry)@ == old(registry)@.insert(key@, final(registry)@[key@])
                &&& final(registry)@[key@].is_started()
                &&& final(registry)@[key@].cfg == Some(config)
                &&& final(registry)@[key@].send matches Some(s) && sender_capacity(s) == config.chan_len
                &&& final(registry).pending() == old(registry).pending().push(key@)
            },
    {
        let _ = init(registry, config, key);
        Loggers { key }
    }

    /// Sets the process-wide maximum level of the `log` facade.
    pub fn set_level(&self, level: LevelFilter) {
        set_max_level(level);
    }

    /// The process-wide maximum level of the `log` facade.
    pub fn get_level(&self) -> LevelFilter {
        max_level()
    }

    /// Files a record with the logger this front end was made for: the
    /// logger registered under `self.key` (the fallback logger under
    /// `unknown` is started if there is none). The filters of that logger
    /// are consulted in order, `admits` telling each verdict, and unless
    /// one refuses, the record is queued for that logger's channel.
    #[verifier::loop_isolation(false)]
    pub fn log(
        &self,
        registry: &mut Registry,
        level: Level,
        target: String,
        args: String,
        module: Option<String>,
        file: Option<String>,
        line: Option<u32>,
        admits: &impl Fn(u64) -> bool,
    )
        requires
            old(registry).wf(),
            forall|id: u64| admits.requires((id,)),
        ensures
            final(registry).wf(),
            old(registry)@.contains_key(self.key@) ==> {
                &&& final(registry)@ == old(registry)@
                &&& final(registry).pending() == old(registry).pending()
            },
            !old(registry)@.contains_key(self.key@) ==> {
                &&& final(registry)@ == old(registry)@.insert("unknown"@, final(registry)@["unknown"@])
                &&& final(registry)@["unknown"@].is_started()
                &&& final(registry)@["unknown"@].cfg matches Some(c) && is_fallback_config(c)
                &&& final(registry).pending() == old(registry).pending().push("unknown"@)
            },
            ({
                let name = resolved_name(old(registry)@, self.key@);
                let filters = final(registry)@[name].cfg->Some_0.filters@;
                ||| ({
                    &&& final(registry).outbox() == old(registry).outbox()
                    &&& exists|i: int| 0 <= i < filters.len()
                        && (forall|j: int| 0 <= j < i ==> admits.ensures((#[trigger] filters[j],), true))
                        && admits.ensures((filters[i],), false)
                })
                ||| ({
                    &&& final(registry).outbox().len() == old(registry).outbox().len() + 1
                    &&& final(registry).outbox().drop_last() == old(registry).outbox()
                    &&& final(registry).outbox().last().0 == name
                    &&& is_log_record(final(registry).outbox().last().1, level, target@, args@, module, file, line)
                    &&& forall|i: int| 0 <= i < filters.len() ==> admits.ensures((#[trigger] filters[i],), true)
                })
            }),
    {
        proof {
            reveal_strlit("unknown");
        }
        let found = registry.contains(self.key);
        let ghost r0 = *registry;
        let filters: Vec<u64> = match &logger(registry, self.key).cfg {
            Some(c) => c.filters.clone(),
            None => {
                proof { assert(false); }
                Vec::new()
            },
        };
        let ghost r1 = *registry;
        proof {
            assert(filters@ =~= r1@[resolved_name(r0@, self.key@)].cfg->Some_0.filters@);
        }
        let mut i: usize = 0;
        while i < filters.len()
            invariant
                forall|id: u64| admits.requires((id,)),
                0 <= i <= filters@.len(),
                forall|j: int| 0 <= j < i ==> admits.ensures((#[trigger] filters@[j],), true),
            decreases filters@.len() - i,
        {
            if !admits(filters[i]) {
                return;
            }
            i += 1;
        }
        let name: &str = if found {
            self.key
        } else {
            "unknown"
        };
        let record = FastLogRecord {
            command: Command::CommandRecord,
            level,
            target,
            args,
            module: match module {
                Some(m) => m,
                None => String::new(),
            },
            file: match file {
                Some(f) => f,
                None => String::new(),
            },
            line,
            now: timestamp_now(),
            formated: String::new(),
        };
        registry.enqueue(name, record);
    }
}

/// Whether a batch holds an exit record; a worker that handled such a
/// batch stops.
pub fn batch_has_exit(records: &[FastLogRecord]) -> (r: bool)
    ensures
        r == exists|i: int| 0 <= i < records@.len() && (#[trigger] records@[i]).command is CommandExit,
{
    let mut i: usize = 0;
    while i < records.len()
        invariant
            0 <= i <= records@.len(),
            forall|j: int| 0 <= j < i ==> !((#[trigger] records@[j]).command is CommandExit),
        decreases records@.len() - i,
    {
        if records[i].command.is_exit_command() {
            return true;
        }
        i += 1;
    }
    false
}

/// Whether a record still has to go through the logger's formatter: its
/// line is empty.
pub fn needs_format(record: &FastLogRecord) -> (r: bool)
    ensures
        r == (record.formated@.len() == 0),
{
    record.formated.as_str().is_empty()
}

/// Asks the workers of every registered logger to stop: each logger gets
/// one exit record, queued in the outbox. A registry whose loggers all have
/// a channel never fails here.
pub fn exit(registry: &mut Registry) -> (r: Result<(), LogError>)
    requires
        old(registry).wf(),
    ensures
        r is Ok,
        final(registry).wf(),
        final(registry)@ == old(registry)@,
        final(registry).pending() == old(registry).pending(),
        each_name_once(old(registry).outbox(), final(registry).outbox(), old(registry)@.dom(),
            |rec: FastLogRecord| rec.command is CommandExit && is_plain_record(rec, Seq::empty())),
{
    let record = command_record(Command::CommandExit, String::new());
    registry.broadcast(&record);
    proof {
        lemma_each_name_once_weaken(old(registry).outbox(), registry.outbox(), old(registry)@.dom(),
            |rec: FastLogRecord| rec.same_content(record),
            |rec: FastLogRecord| rec.command is CommandExit && is_plain_record(rec, Seq::empty()));
    }
    Ok(())
}

/// Asks every registered logger to write out what it holds: each logger
/// gets one flush record of the flush group numbered `group`, queued in the
/// outbox; the embedding program releases the group's waiters once every
/// worker has handled its record. Returns the group's number.
pub fn flush(registry: &mut Registry, group: u64) -> (r: Result<u64, LogError>)
    requires
        old(registry).wf(),
    ensures
        r == Ok::<u64, LogError>(group),
        final(registry).wf(),
        final(registry)@ == old(registry)@,
        final(registry).pending() == old(registry).pending(),
        each_name_once(old(registry).outbox(), final(registry).outbox(), old(registry)@.dom(),
            |rec: FastLogRecord| rec.command == Command::CommandFlush(group) && is_plain_record(rec, Seq::empty())),
{
    let record = command_record(Command::CommandFlush(group), String::new());
    registry.broadcast(&record);
    proof {
        lemma_each_name_once_weaken(old(registry).outbox(), registry.outbox(), old(registry)@.dom(),
            |rec: FastLogRecord| rec.same_content(record),
            |rec: FastLogRecord| rec.command == Command::CommandFlush(group) && is_plain_record(rec, Seq::empty()));
    }
    Ok(group)
}

/// Looks `key` up (starting the fallback logger under `unknown` if it is
/// not registered), then queues the line `log` for every registered logger.
pub fn print(registry: &mut Registry, log: String, key: &str) -> (r: Result<(), SendError<FastLogRecord>>)
    requires
        old(registry).wf(),
    ensures
        r is Ok,
        final(registry).wf(),
        old(registry)@.contains_key(key@) ==> {
            &&& final(registry)@ == old(registry)@
            &&& final(registry).pending() == old(registry).pending()
        },
        !old(registry)@.contains_key(key@) ==> {
            &&& final(registry)@ == old(registry)@.insert("unknown"@, final(registry)@["unknown"@])
            &&& final(registry)@["unknown"@].is_started()
            &&& final(registry)@["unknown"@].cfg matches Some(c) && is_fallback_config(c)
            &&& final(registry).pending() == old(registry).pending().push("unknown"@)
        },
        each_name_once(old(registry).outbox(), final(registry).outbox(), final(registry)@.dom(),
            |rec: FastLogRecord| rec.command is CommandRecord && is_plain_record(rec, log@)),
{
    let _ = logger(registry, key);
    registry.print_all(log);
    Ok(())
}

} // verus!
