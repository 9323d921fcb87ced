use vstd::prelude::*;
use crate::record::{Command, FastLogRecord, LogError};
use crate::strings::string_with_capacity;

verus! {

/// An appender that collects the formatted lines in memory. Of its two
/// buffers, lines go to `buffer` while `flag` is set and to `buffer1`
/// otherwise; a flush empties `buffer`.
pub struct BufferAppender {
    buffer: String,
    buffer1: String,
    flag: bool,
    buffer_max_size: usize,
}

/// The two buffers after one record has been handled.
pub open spec fn buffer_step(buffer: Seq<char>, buffer1: Seq<char>, flag: bool, r: FastLogRecord) -> (Seq<char>, Seq<char>) {
    let (b, b1) = if flag {
        (buffer + r.formated@, buffer1)
    } else {
        (buffer, buffer1 + r.formated@)
    };
    if r.command is CommandFlush {
        (Seq::<char>::empty(), b1)
    } else {
        (b, b1)
    }
}

/// The two buffers after `records` have been handled in order.
pub open spec fn buffer_run(buffer: Seq<char>, buffer1: Seq<char>, flag: bool, records: Seq<FastLogRecord>) -> (Seq<char>, Seq<char>)
    decreases records.len(),
{
    if records.len() == 0 {
        (buffer, buffer1)
    } else {
        let (b, b1) = buffer_run(buffer, buffer1, flag, records.drop_last());
        buffer_step(b, b1, flag, records.last())
    }
}

/// The number of exit records among `records`.
pub open spec fn exit_count(records: Seq<FastLogRecord>) -> nat
    decreases records.len(),
{
    if records.len() == 0 {
        0
    } else {
        exit_count(records.drop_last()) + if records.last().command is CommandExit { 1nat } else { 0nat }
    }
}

/// The formatted lines of `records`, one after the other.
pub open spec fn joined_lines(records: Seq<FastLogRecord>) -> Seq<char>
    decreases records.len(),
{
    if records.len() == 0 {
        Seq::<char>::empty()
    } else {
        joined_lines(records.drop_last()) + records.last().formated@
    }
}

impl BufferAppender {
    pub closed spec fn buffer(&self) -> Seq<char> {
        self.buffer@
    }

    pub closed spec fn buffer1(&self) -> Seq<char> {
        self.buffer1@
    }

    pub closed spec fn flag(&self) -> bool {
        self.flag
    }

    /// Lines go to `buffer1`: the flag is not set (nothing ever sets it).
    pub closed spec fn wf(&self) -> bool {
        !self.flag
    }

    pub closed spec fn buffer_max_size(&self) -> usize {
        self.buffer_max_size
    }

    /// Two empty buffers, lines going to `buffer1`. The first buffer is made
    /// with room for `buffer_max_size` and ten more KiB, which must fit in a
    /// `usize`.
    pub fn new(buffer_max_size: usize) -> (r: Result<BufferAppender, LogError>)
        requires
            buffer_max_size + 1024 * 10 <= usize::MAX,
        ensures
            r is Ok,
            r->Ok_0.buffer() == Seq::<char>::empty(),
            r->Ok_0.buffer1() == Seq::<char>::empty(),
            !r->Ok_0.flag(),
            r->Ok_0.wf(),
            r->Ok_0.buffer_max_size() == buffer_max_size,
    {
        Ok(BufferAppender {
            buffer: string_with_capacity(buffer_max_size + 1024 * 10),
            buffer1: String::new(),
            flag: false,
            buffer_max_size,
        })
    }

    /// The buffer that lines currently go to.
    pub fn get_buffer(&mut self) -> (r: &mut String)
        ensures
            old(self).flag() ==> r@ == old(self).buffer(),
            !old(self).flag() ==> r@ == old(self).buffer1(),
            old(self).flag() ==> final(self).buffer() == final(r)@ && final(self).buffer1() == old(self).buffer1(),
            !old(self).flag() ==> final(self).buffer1() == final(r)@ && final(self).buffer() == old(self).buffer(),
            final(self).flag() == old(self).flag(),
            final(self).wf() == old(self).wf(),
            final(self).buffer_max_size() == old(self).buffer_max_size(),
    {
        if self.flag {
            &mut self.buffer
        } else {
            &mut self.buffer1
        }
    }

    /// Appends the line of each record to the current buffer, empties
    /// `buffer` at each flush record, and returns the value to report at
    /// each exit record (the buffer size it was made for).
    pub fn do_logs(&mut self, records: &[FastLogRecord]) -> (reports: Vec<usize>)
        ensures
            (final(self).buffer(), final(self).buffer1())
                == buffer_run(old(self).buffer(), old(self).buffer1(), old(self).flag(), records@),
            final(self).flag() == old(self).flag(),
            final(self).wf() == old(self).wf(),
            final(self).buffer_max_size() == old(self).buffer_max_size(),
            reports@.len() == exit_count(records@),
            forall|i: int| 0 <= i < reports@.len() ==> reports@[i] == old(self).buffer_max_size(),
    {
        let mut reports: Vec<usize> = Vec::new();
        let mut i: usize = 0;
        while i < records.len()
            invariant
                0 <= i <= records@.len(),
                (self.buffer@, self.buffer1@)
                    == buffer_run(old(self).buffer(), old(self).buffer1(), old(self).flag(), records@.subrange(0, i as int)),
                self.flag == old(self).flag(),
                self.buffer_max_size == old(self).buffer_max_size(),
                reports@.len() == exit_count(records@.subrange(0, i as int)),
                forall|j: int| 0 <= j < reports@.len() ==> reports@[j] == old(self).buffer_max_size(),
            decreases records@.len() - i,
        {
            let x = &records[i];
            proof {
                assert(records@.subrange(0, i + 1).drop_last() =~= records@.subrange(0, i as int));
                assert(records@.subrange(0, i + 1).last() == records@[i as int]);
            }
            self.get_buffer().append(x.formated.as_str());
            match &x.command {
                Command::CommandRecord => {},
                Command::CommandExit => {
                    reports.push(self.buffer_max_size);
                },
                Command::CommandFlush(_) => {
                    self.buffer = String::new();
                },
            }
            i += 1;
        }
        proof {
            assert(records@.subrange(0, records@.len() as int) =~= records@);
        }
        reports
    }
}

/// For an appender that `new` made (and so for every appender, as no
/// operation sets the flag), handling records appends their lines to
/// `buffer1` in order.
pub proof fn lemma_lines_go_to_buffer1(a: BufferAppender, records: Seq<FastLogRecord>)
    requires
        a.wf(),
    ensures
        buffer_run(a.buffer(), a.buffer1(), a.flag(), records).1 == a.buffer1() + joined_lines(records),
{
    lemma_unflagged_run(a.buffer(), a.buffer1(), records);
}

/// With lines going to `buffer1`, handling records appends their lines to
/// `buffer1` in order, and `buffer` ends empty if there was a flush among
/// them and unchanged otherwise.
pub proof fn lemma_unflagged_run(buffer: Seq<char>, buffer1: Seq<char>, records: Seq<FastLogRecord>)
    ensures
        buffer_run(buffer, buffer1, false, records).1 == buffer1 + joined_lines(records),
        (exists|i: int| 0 <= i < records.len() && (#[trigger] records[i]).command is CommandFlush)
            ==> buffer_run(buffer, buffer1, false, records).0 == Seq::<char>::empty(),
        (forall|i: int| 0 <= i < records.len() ==> !((#[trigger] records[i]).command is CommandFlush))
            ==> buffer_run(buffer, buffer1, false, records).0 == buffer,
    decreases records.len(),
{
    if records.len() == 0 {
        assert(buffer1 + joined_lines(records) =~= buffer1);
    } else {
        let init = records.drop_last();
        lemma_unflagged_run(buffer, buffer1, init);
        assert(buffer1 + joined_lines(init) + records.last().formated@
            =~= buffer1 + joined_lines(records));
        if exists|i: int| 0 <= i < records.len() && (#[trigger] records[i]).command is CommandFlush {
            let i = choose|i: int| 0 <= i < records.len() && (#[trigger] records[i]).command is CommandFlush;
            if i < records.len() - 1 {
                assert(init[i] == records[i]);
            }
        }
        if forall|i: int| 0 <= i < records.len() ==> !((#[trigger] records[i]).command is CommandFlush) {
            assert forall|i: int| 0 <= i < init.len() implies !((#[trigger] init[i]).command is CommandFlush) by {
                assert(init[i] == records[i]);
            }
            assert(!(records[records.len() - 1].command is CommandFlush));
        }
    }
}

} // verus!
