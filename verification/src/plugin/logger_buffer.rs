use vstd::prelude::*;
use vstd::utf8::encode_utf8;
use crate::consts::LogSize;
use crate::record::{Command, FastLogRecord, LogError};
use crate::strings::string_with_capacity;

verus! {

/// The buffers of the appender: one per module name, in the order the
/// names first appeared.
pub type Entries = Seq<(Seq<char>, Seq<char>)>;

/// An appender that keeps one buffer per module and empties a buffer once
/// it holds more bytes than `log_size`.
pub struct BufferAppender {
    buffer: Vec<(String, String)>,
    log_size: LogSize,
}

/// Length of a text in bytes of UTF-8, as `str::len` reports it.
pub open spec fn byte_len(s: Seq<char>) -> usize {
    encode_utf8(s).len() as usize
}

/// Where `key` stands in `entries`, or -1.
pub open spec fn position(entries: Entries, key: Seq<char>) -> int
    decreases entries.len(),
{
    if entries.len() == 0 {
        -1
    } else if entries.last().0 == key {
        entries.len() - 1
    } else {
        position(entries.drop_last(), key)
    }
}

/// `entries` with `text` appended to the buffer of `key`, which is added
/// at the end if it has none.
pub open spec fn with_text(entries: Entries, key: Seq<char>, text: Seq<char>) -> Entries {
    let p = position(entries, key);
    if p >= 0 {
        entries.update(p, (key, entries[p].1 + text))
    } else {
        entries.push((key, text))
    }
}

/// Every buffer emptied.
pub open spec fn cleared(entries: Entries) -> Entries {
    entries.map_values(|e: (Seq<char>, Seq<char>)| (e.0, Seq::<char>::empty()))
}

/// The byte lengths of the buffers, in order.
pub open spec fn lengths(entries: Entries) -> Seq<usize> {
    entries.map_values(|e: (Seq<char>, Seq<char>)| byte_len(e.1))
}

/// Handling `records` in order: the buffers, the lengths reported so far
/// (every buffer's length at each exit record, after which all buffers
/// are emptied), and whether an exit record was seen.
pub open spec fn logs_run(entries: Entries, records: Seq<FastLogRecord>) -> (Entries, Seq<usize>, bool)
    decreases records.len(),
{
    if records.len() == 0 {
        (entries, Seq::<usize>::empty(), false)
    } else {
        let (e, p, end) = logs_run(entries, records.drop_last());
        let r = records.last();
        let e1 = with_text(e, r.module@, r.formated@);
        if r.command is CommandExit {
            (cleared(e1), p + lengths(e1), true)
        } else {
            (e1, p, end)
        }
    }
}

/// The buffers over `limit` bytes emptied.
pub open spec fn trimmed(entries: Entries, limit: usize) -> Entries {
    entries.map_values(|e: (Seq<char>, Seq<char>)|
        if byte_len(e.1) > limit { (e.0, Seq::<char>::empty()) } else { e })
}

/// The lengths of the buffers over `limit` bytes, in order.
pub open spec fn over_limit(entries: Entries, limit: usize) -> Seq<usize>
    decreases entries.len(),
{
    if entries.len() == 0 {
        Seq::<usize>::empty()
    } else {
        let rest = over_limit(entries.drop_last(), limit);
        let l = byte_len(entries.last().1);
        if l > limit { rest.push(l) } else { rest }
    }
}

/// No module name appears twice.
pub open spec fn distinct_keys(entries: Entries) -> bool {
    forall|i: int, j: int| 0 <= i < j < entries.len() ==> entries[i].0 != entries[j].0
}

proof fn lemma_position(entries: Entries, key: Seq<char>)
    ensures
        -1 <= position(entries, key) < entries.len(),
        position(entries, key) >= 0 ==> entries[position(entries, key)].0 == key,
        position(entries, key) < 0 ==> forall|i: int| 0 <= i < entries.len() ==> entries[i].0 != key,
        distinct_keys(entries) ==> forall|i: int| 0 <= i < entries.len() && entries[i].0 == key
            ==> i == position(entries, key),
    decreases entries.len(),
{
    if entries.len() > 0 {
        let init = entries.drop_last();
        lemma_position(init, key);
        assert forall|i: int| 0 <= i < init.len() implies init[i] == entries[i] by {}
    }
}

proof fn lemma_with_text_distinct(entries: Entries, key: Seq<char>, text: Seq<char>)
    requires
        distinct_keys(entries),
    ensures
        distinct_keys(with_text(entries, key, text)),
{
    lemma_position(entries, key);
}

proof fn lemma_logs_run_distinct(entries: Entries, records: Seq<FastLogRecord>)
    requires
        distinct_keys(entries),
    ensures
        distinct_keys(logs_run(entries, records).0),
    decreases records.len(),
{
    if records.len() > 0 {
        lemma_logs_run_distinct(entries, records.drop_last());
        let (e, p, end) = logs_run(entries, records.drop_last());
        let r = records.last();
        lemma_with_text_distinct(e, r.module@, r.formated@);
    }
}

/// The text buffered for module `key`: empty if it has no buffer.
pub open spec fn text_of(entries: Entries, key: Seq<char>) -> Seq<char> {
    let p = position(entries, key);
    if p >= 0 {
        entries[p].1
    } else {
        Seq::<char>::empty()
    }
}

/// The lines of the records of module `key`, one after the other.
pub open spec fn lines_of(records: Seq<FastLogRecord>, key: Seq<char>) -> Seq<char>
    decreases records.len(),
{
    if records.len() == 0 {
        Seq::<char>::empty()
    } else {
        lines_of(records.drop_last(), key) + if records.last().module@ == key {
            records.last().formated@
        } else {
            Seq::<char>::empty()
        }
    }
}

proof fn lemma_text_of_with_text(e: Entries, m: Seq<char>, t: Seq<char>, k: Seq<char>)
    requires
        distinct_keys(e),
    ensures
        text_of(with_text(e, m, t), k) == text_of(e, k) + if k == m { t } else { Seq::<char>::empty() },
{
    let e2 = with_text(e, m, t);
    lemma_position(e, m);
    lemma_position(e, k);
    lemma_with_text_distinct(e, m, t);
    lemma_position(e2, k);
    let p = position(e, m);
    let q = position(e, k);
    if p >= 0 {
        assert(e2.len() == e.len());
        if k == m {
            assert(e2[p].0 == k);
        } else if q >= 0 {
            assert(e2[q] == e[q]);
        } else {
            assert forall|i: int| 0 <= i < e2.len() implies e2[i].0 != k by {
                if i != p {
                    assert(e2[i] == e[i]);
                }
            }
        }
    } else {
        assert(e2.len() == e.len() + 1);
        if k == m {
            assert(e2[e.len() as int].0 == k);
        } else if q >= 0 {
            assert(e2[q] == e[q]);
        } else {
            assert forall|i: int| 0 <= i < e2.len() implies e2[i].0 != k by {
                if i < e.len() {
                    assert(e2[i] == e[i]);
                }
            }
        }
    }
    if k == m {
        assert(text_of(e2, k) =~= text_of(e, k) + t);
    } else {
        assert(text_of(e2, k) =~= text_of(e, k) + Seq::<char>::empty());
    }
}

/// Without exit records, handling records leaves each module's buffer as
/// its old text followed by the lines of that module's records, in order.
pub proof fn lemma_run_without_exit(entries: Entries, records: Seq<FastLogRecord>, key: Seq<char>)
    requires
        distinct_keys(entries),
        forall|i: int| 0 <= i < records.len() ==> !((#[trigger] records[i]).command is CommandExit),
    ensures
        text_of(logs_run(entries, records).0, key) == text_of(entries, key) + lines_of(records, key),
    decreases records.len(),
{
    if records.len() == 0 {
        assert(text_of(entries, key) + lines_of(records, key) =~= text_of(entries, key));
    } else {
        let init = records.drop_last();
        assert forall|i: int| 0 <= i < init.len() implies !((#[trigger] init[i]).command is CommandExit) by {
            assert(init[i] == records[i]);
        }
        assert(!(records[records.len() - 1].command is CommandExit));
        lemma_run_without_exit(entries, init, key);
        lemma_logs_run_distinct(entries, init);
        let r = records.last();
        let e = logs_run(entries, init).0;
        lemma_text_of_with_text(e, r.module@, r.formated@, key);
        let extra = if key == r.module@ { r.formated@ } else { Seq::<char>::empty() };
        assert(text_of(entries, key) + lines_of(init, key) + extra
            =~= text_of(entries, key) + (lines_of(init, key) + extra));
    }
}

/// An exit record reports, in buffer order, the UTF-8 byte length of every
/// buffer once the record's own line is appended, after what was reported
/// before; then every buffer is empty.
pub proof fn lemma_exit_reports_byte_lengths(entries: Entries, records: Seq<FastLogRecord>)
    requires
        records.len() > 0,
        records.last().command is CommandExit,
    ensures
        ({
            let before = logs_run(entries, records.drop_last());
            let r = records.last();
            let e1 = with_text(before.0, r.module@, r.formated@);
            let after = logs_run(entries, records);
            &&& after.1.len() == before.1.len() + e1.len()
            &&& after.1.subrange(0, before.1.len() as int) == before.1
            &&& forall|i: int| 0 <= i < e1.len() ==> after.1[before.1.len() + i]
                == encode_utf8(#[trigger] e1[i].1).len() as usize
            &&& forall|i: int| 0 <= i < after.0.len() ==> (#[trigger] after.0[i]).1.len() == 0
            &&& after.2
        }),
{
    let before = logs_run(entries, records.drop_last());
    let r = records.last();
    let e1 = with_text(before.0, r.module@, r.formated@);
    let after = logs_run(entries, records);
    assert(after.1.subrange(0, before.1.len() as int) =~= before.1);
}

/// After trimming, no buffer holds more than `limit` bytes.
pub proof fn lemma_trimmed_within_limit(entries: Entries, limit: usize)
    ensures
        trimmed(entries, limit).len() == entries.len(),
        forall|i: int| 0 <= i < entries.len() ==> byte_len(#[trigger] trimmed(entries, limit)[i].1) <= limit,
{
    assert(encode_utf8(Seq::<char>::empty()) =~= Seq::<u8>::empty());
}

/// The end signal is raised exactly when an exit record was handled.
pub proof fn lemma_end_signal(entries: Entries, records: Seq<FastLogRecord>)
    ensures
        logs_run(entries, records).2 <==> exists|i: int| 0 <= i < records.len() && (#[trigger] records[i]).command is CommandExit,
    decreases records.len(),
{
    if records.len() > 0 {
        let init = records.drop_last();
        lemma_end_signal(entries, init);
        if exists|i: int| 0 <= i < init.len() && (#[trigger] init[i]).command is CommandExit {
            let i = choose|i: int| 0 <= i < init.len() && (#[trigger] init[i]).command is CommandExit;
            assert(records[i] == init[i]);
        }
        if exists|i: int| 0 <= i < records.len() && (#[trigger] records[i]).command is CommandExit {
            let i = choose|i: int| 0 <= i < records.len() && (#[trigger] records[i]).command is CommandExit;
            if i < records.len() - 1 {
                assert(init[i] == records[i]);
            }
        }
    }
}

/// Handling records keeps every module name that had a buffer, at the
/// same place.
pub proof fn lemma_names_kept(entries: Entries, records: Seq<FastLogRecord>)
    ensures
        logs_run(entries, records).0.len() >= entries.len(),
        forall|i: int| 0 <= i < entries.len() ==> #[trigger] logs_run(entries, records).0[i].0 == entries[i].0,
    decreases records.len(),
{
    if records.len() > 0 {
        let init = records.drop_last();
        lemma_names_kept(entries, init);
        let e = logs_run(entries, init).0;
        let r = records.last();
        lemma_position(e, r.module@);
    }
}

proof fn lemma_rewrite_vec_keeps_distinct(b: Seq<(String, String)>, idx: int)
    requires
        distinct_keys(b.map_values(|e: (String, String)| (e.0@, e.1@))),
        0 <= idx < b.len(),
    ensures
        forall|x: String| #[trigger] b.update(idx, (b[idx].0, x)).len() == b.len()
            && distinct_keys(b.update(idx, (b[idx].0, x)).map_values(|e: (String, String)| (e.0@, e.1@))),
{
    assert forall|x: String| #[trigger] b.update(idx, (b[idx].0, x)).len() == b.len()
        && distinct_keys(b.update(idx, (b[idx].0, x)).map_values(|e: (String, String)| (e.0@, e.1@))) by {
        let u = b.update(idx, (b[idx].0, x));
        let e = b.map_values(|e: (String, String)| (e.0@, e.1@));
        let m = u.map_values(|e: (String, String)| (e.0@, e.1@));
        assert forall|i: int, j: int| 0 <= i < j < m.len() implies m[i].0 != m[j].0 by {
            assert(m[i].0 == e[i].0);
            assert(m[j].0 == e[j].0);
        }
    }
}

impl BufferAppender {
    /// The buffers, by module name, in the order the names first appeared.
    pub closed spec fn entries(&self) -> Entries {
        self.buffer@.map_values(|e: (String, String)| (e.0@, e.1@))
    }

    pub closed spec fn log_size(&self) -> LogSize {
        self.log_size
    }

    /// Module names are distinct, and the size limit plus ten KiB fits in
    /// a `usize`.
    pub closed spec fn wf(&self) -> bool {
        &&& distinct_keys(self.entries())
        &&& self.log_size.spec_len() + 1024 * 10 <= usize::MAX
    }

    /// No buffers yet. Each buffer is made with room for `log_size` and ten
    /// more KiB, which must fit in a `usize`.
    pub fn new(log_size: LogSize) -> (r: Result<BufferAppender, LogError>)
        requires
            log_size.spec_len() + 1024 * 10 <= usize::MAX,
        ensures
            r is Ok,
            r->Ok_0.wf(),
            r->Ok_0.entries() == Seq::<(Seq<char>, Seq<char>)>::empty(),
            r->Ok_0.log_size() == log_size,
    {
        let r = BufferAppender { buffer: Vec::new(), log_size };
        assert(r.entries() =~= Seq::<(Seq<char>, Seq<char>)>::empty());
        Ok(r)
    }

    /// The buffer of module `key`, made empty first if there is none.
    pub fn get_buffer(&mut self, key: &str) -> (r: &mut String)
        requires
            old(self).wf(),
        ensures
            final(self).wf(),
            final(self).log_size() == old(self).log_size(),
            ({
                let p = position(old(self).entries(), key@);
                &&& p >= 0 ==> r@ == old(self).entries()[p].1
                    && final(self).entries() == old(self).entries().update(p, (key@, final(r)@))
                &&& p < 0 ==> r@ == Seq::<char>::empty()
                    && final(self).entries() == old(self).entries().push((key@, final(r)@))
            }),
    {
        proof {
            lemma_position(self.entries(), key@);
        }
        let k = key.to_string();
        let mut i: usize = 0;
        let mut found = false;
        while i < self.buffer.len()
            invariant_except_break
                forall|j: int| 0 <= j < i ==> self.entries()[j].0 != key@,
            invariant
                0 <= i <= self.buffer@.len(),
                k@ == key@,
                *self == *old(self),
                found ==> i < self.buffer@.len() && self.entries()[i as int].0 == key@,
            ensures
                found ==> i < self.buffer@.len() && self.entries()[i as int].0 == key@,
                !found ==> forall|j: int| 0 <= j < self.buffer@.len() ==> self.entries()[j].0 != key@,
                !found ==> i == self.buffer@.len(),
            decreases self.buffer@.len() - i,
        {
            if self.buffer[i].0 == k {
                found = true;
                break;
            }
            i += 1;
        }
        if !found {
            let capacity = self.log_size.len() + 1024 * 10;
            self.buffer.push((k, string_with_capacity(capacity)));
            proof {
                assert(self.entries() =~= old(self).entries().push((key@, Seq::<char>::empty())));
            }
        }
        let ghost before = self.entries();
        let ghost idx = i as int;
        proof {
            let p = position(old(self).entries(), key@);
            if found {
                assert(before == old(self).entries());
                assert(p == idx);
            } else {
                assert(p < 0);
                assert(idx == old(self).entries().len());
            }
            assert(before[idx].0 == key@);
            assert(distinct_keys(before));
            lemma_rewrite_vec_keeps_distinct(self.buffer@, idx);
        }
        let r = &mut self.buffer[i].1;
        r
    }

    /// Appends each record's line to the buffer of its module; at an exit
    /// record, reports the byte length of every buffer and empties them
    /// all. Afterwards every buffer longer than the size limit is reported
    /// and emptied. Returns the reported lengths, in order, and whether an
    /// exit record was seen (the signal that the program may end).
    pub fn do_logs(&mut self, records: &[FastLogRecord]) -> (out: (Vec<usize>, bool))
        requires
            old(self).wf(),
        ensures
            final(self).wf(),
            final(self).log_size() == old(self).log_size(),
            ({
                let (e, p, end) = logs_run(old(self).entries(), records@);
                let limit = old(self).log_size().spec_len() as usize;
                &&& final(self).entries() == trimmed(e, limit)
                &&& out.0@ == p + over_limit(e, limit)
                &&& out.1 == end
            }),
    {
        let mut printed: Vec<usize> = Vec::new();
        let mut end = false;
        let mut i: usize = 0;
        while i < records.len()
            invariant
                0 <= i <= records@.len(),
                self.wf(),
                self.log_size == old(self).log_size,
                (self.entries(), printed@, end) == logs_run(old(self).entries(), records@.subrange(0, i as int)),
            decreases records@.len() - i,
        {
            let x = &records[i];
            let ghost e0 = self.entries();
            proof {
                assert(records@.subrange(0, i + 1).drop_last() =~= records@.subrange(0, i as int));
                assert(records@.subrange(0, i + 1).last() == records@[i as int]);
                lemma_position(e0, x.module@);
                lemma_with_text_distinct(e0, x.module@, x.formated@);
            }
            self.get_buffer(x.module.as_str()).append(x.formated.as_str());
            let ghost e1 = self.entries();
            proof {
                assert(e1 =~= with_text(e0, x.module@, x.formated@));
            }
            match &x.command {
                Command::CommandExit => {
                    let ghost p0 = printed@;
                    let mut j: usize = 0;
                    while j < self.buffer.len()
                        invariant
                            0 <= j <= self.buffer@.len(),
                            self.log_size == old(self).log_size,
                            self.entries().len() == e1.len(),
                            distinct_keys(e1),
                            forall|m: int| 0 <= m < j ==> #[trigger] self.entries()[m] == (e1[m].0, Seq::<char>::empty()),
                            forall|m: int| j <= m < e1.len() ==> #[trigger] self.entries()[m] == e1[m],
                            printed@ == p0 + lengths(e1.subrange(0, j as int)),
                        decreases self.buffer@.len() - j,
                    {
                        let ghost b0 = self.buffer@;
                        let ghost ent0 = self.entries();
                        proof {
                            assert(self.entries()[j as int] == e1[j as int]);
                            assert(self.entries()[j as int].1 == b0[j as int].1@);
                        }
                        let l = self.buffer[j].1.as_str().len();
                        assert(l == byte_len(e1[j as int].1));
                        printed.push(l);
                        self.buffer[j].1 = String::new();
                        proof {
                            assert(self.buffer@.len() == b0.len());
                            assert(self.buffer@[j as int].0 == b0[j as int].0);
                            assert(self.buffer@[j as int].1@ == Seq::<char>::empty());
                            assert(forall|m: int| 0 <= m < b0.len() && m != j ==> self.buffer@[m] == b0[m]);
                            assert forall|m: int| 0 <= m < j + 1 implies #[trigger] self.entries()[m]
                                == (e1[m].0, Seq::<char>::empty()) by {
                                if m < j {
                                    assert(self.buffer@[m] == b0[m]);
                                    assert(ent0[m] == (e1[m].0, Seq::<char>::empty()));
                                }
                            }
                            assert forall|m: int| j + 1 <= m < e1.len() implies #[trigger] self.entries()[m] == e1[m] by {
                                assert(self.buffer@[m] == b0[m]);
                                assert(ent0[m] == e1[m]);
                            }
                            assert(e1.subrange(0, j + 1) =~= e1.subrange(0, j as int).push(e1[j as int]));
                            assert(lengths(e1.subrange(0, j + 1)) =~= lengths(e1.subrange(0, j as int)).push(l));
                        }
                        j += 1;
                    }
                    end = true;
                    proof {
                        assert(e1.subrange(0, e1.len() as int) =~= e1);
                        assert(self.entries() =~= cleared(e1));
                    }
                },
                _ => {},
            }
            i += 1;
        }
        proof {
            assert(records@.subrange(0, records@.len() as int) =~= records@);
        }
        let ghost e = self.entries();
        let ghost p1 = printed@;
        let limit = self.log_size.len();
        let mut j: usize = 0;
        while j < self.buffer.len()
            invariant
                0 <= j <= self.buffer@.len(),
                self.log_size == old(self).log_size,
                limit == self.log_size.spec_len(),
                self.log_size.spec_len() + 1024 * 10 <= usize::MAX,
                self.entries().len() == e.len(),
                distinct_keys(e),
                forall|m: int| 0 <= m < j ==> #[trigger] self.entries()[m] == trimmed(e, limit)[m],
                forall|m: int| j <= m < e.len() ==> #[trigger] self.entries()[m] == e[m],
                printed@ == p1 + over_limit(e.subrange(0, j as int), limit),
            decreases self.buffer@.len() - j,
        {
            let ghost b0 = self.buffer@;
            let ghost ent0 = self.entries();
            proof {
                assert(ent0[j as int] == e[j as int]);
                assert(ent0[j as int].1 == b0[j as int].1@);
            }
            let l = self.buffer[j].1.as_str().len();
            assert(l == byte_len(e[j as int].1));
            proof {
                assert(e.subrange(0, j + 1).drop_last() =~= e.subrange(0, j as int));
                assert(e.subrange(0, j + 1).last() == e[j as int]);
            }
            if l > limit {
                printed.push(l);
                self.buffer[j].1 = string_with_capacity(limit + 1024 * 10);
            }
            proof {
                assert(forall|m: int| 0 <= m < b0.len() && m != j ==> self.buffer@[m] == b0[m]);
                assert forall|m: int| 0 <= m < j + 1 implies #[trigger] self.entries()[m] == trimmed(e, limit)[m] by {
                    if m < j {
                        assert(self.buffer@[m] == b0[m]);
                        assert(ent0[m] == trimmed(e, limit)[m]);
                    }
                }
                assert forall|m: int| j + 1 <= m < e.len() implies #[trigger] self.entries()[m] == e[m] by {
                    assert(self.buffer@[m] == b0[m]);
                    assert(ent0[m] == e[m]);
                }
                assert(printed@ =~= p1 + over_limit(e.subrange(0, j + 1), limit));
            }
            j += 1;
        }
        proof {
            assert(e.subrange(0, e.len() as int) =~= e);
            assert(self.entries() =~= trimmed(e, limit));
            assert(distinct_keys(self.entries()));
        }
        (printed, end)
    }
}

} // verus!
