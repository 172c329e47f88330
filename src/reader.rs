use vstd::prelude::*;
use crate::decode::{decode_failure, decode_line, decodes_to};
use crate::error::{Cause, Error, ErrorKind};
use crate::line::{classify, classify_line, identifier, identifier_name, Flag, LineClass};
use crate::record::Record;
use crate::text::{lines_chars, lines_of, to_chars, views};

verus! {

/// What reading yields next: the record of a data line (by its index among the lines)
/// under a sequence name, or the failure of a data line.
pub enum Entry {
    Row { at: nat, id: Seq<char> },
    Failure { at: nat, cause: Cause },
}

/// What reading `lines` from index `pos` on yields, with `id` as the name last announced:
/// blank and header lines are passed over, an identifier line renames the rows after it,
/// each data line gives its record, and the first data line that does not decode ends
/// the reading with its failure.
pub open spec fn entries(flag: Flag, lines: Seq<Seq<char>>, pos: int, id: Seq<char>) -> Seq<Entry>
    decreases lines.len() - pos,
{
    if pos < 0 || pos >= lines.len() {
        Seq::empty()
    } else {
        match classify(flag, lines[pos]) {
            LineClass::Identifier => entries(flag, lines, pos + 1, identifier_name(flag, lines[pos])),
            LineClass::Data => match decode_failure(flag, lines[pos]) {
                None => seq![Entry::Row { at: pos as nat, id }] + entries(flag, lines, pos + 1, id),
                Some(cause) => seq![Entry::Failure { at: pos as nat, cause }],
            },
            _ => entries(flag, lines, pos + 1, id),
        }
    }
}

/// The records of the text `lines`, from its first line on.
pub open spec fn all_entries(flag: Flag, lines: Seq<Seq<char>>) -> Seq<Entry> {
    entries(flag, lines, 0, Seq::empty())
}

/// `x` is what `e` describes, over the lines `lines`; a failure carries its line number,
/// counted from 1.
pub open spec fn yields(flag: Flag, lines: Seq<Seq<char>>, x: Result<Record, Error>, e: Entry) -> bool {
    match e {
        Entry::Row { at, id } => x is Ok && decodes_to(flag, lines[at as int], id, x->Ok_0),
        Entry::Failure { at, cause } => x is Err && x->Err_0.raised_at(at + 1, cause),
    }
}

/// `new` is `old` after one step of reading that handed out `r`: the first of what was
/// left, or `None` when nothing was.
pub open spec fn advanced(old: Reader, new: Reader, r: Option<Result<Record, Error>>) -> bool {
    &&& new.input() == old.input()
    &&& new.dialect() == old.dialect()
    &&& if old.remaining().len() == 0 {
        r is None && new.remaining() == old.remaining()
    } else {
        &&& r is Some
        &&& yields(old.dialect(), old.input(), r->Some_0, old.remaining()[0])
        &&& new.remaining() == old.remaining().drop_first()
    }
}

/// Reads the records of a tandem-repeat table, one at a time.
pub struct Reader {
    lines: Vec<Vec<char>>,
    pos: usize,
    id: String,
    flag: Flag,
    failed: bool,
}

impl Reader {
    /// The lines of the input, each with its terminator.
    pub closed spec fn input(&self) -> Seq<Seq<char>> {
        views(self.lines@)
    }

    pub closed spec fn dialect(&self) -> Flag {
        self.flag
    }

    /// What is left to read.
    pub closed spec fn remaining(&self) -> Seq<Entry> {
        if self.failed {
            Seq::empty()
        } else {
            entries(self.flag, views(self.lines@), self.pos as int, self.id@)
        }
    }

    /// A reader of the table `text`, in the dialect `flag`.
    pub fn from_reader(text: &str, flag: Flag) -> (r: Reader)
        ensures
            r.input() == lines_of(text@),
            r.dialect() == flag,
            r.remaining() == all_entries(flag, lines_of(text@)),
    {
        let chars = to_chars(text);
        let lines = lines_chars(&chars);
        Reader { lines, pos: 0, id: String::new(), flag, failed: false }
    }

    /// Reads the next record: `None` once the input is exhausted or a line has failed.
    fn read_record(&mut self) -> (r: Result<Option<Record>, Error>)
        ensures
            final(self).input() == old(self).input(),
            final(self).dialect() == old(self).dialect(),
            old(self).remaining().len() == 0 ==> (r matches Ok(None)) && final(self).remaining()
                == old(self).remaining(),
            old(self).remaining().len() > 0 ==> {
                &&& final(self).remaining() == old(self).remaining().drop_first()
                &&& match r {
                    Ok(Some(rec)) => yields(
                        old(self).dialect(),
                        old(self).input(),
                        Ok(rec),
                        old(self).remaining()[0],
                    ),
                    Err(e) => yields(
                        old(self).dialect(),
                        old(self).input(),
                        Err(e),
                        old(self).remaining()[0],
                    ),
                    Ok(None) => false,
                }
            },
    {
        if self.failed {
            return Ok(None);
        }
        while self.pos < self.lines.len()
            invariant
                self.lines == old(self).lines,
                self.flag == old(self).flag,
                !self.failed,
                entries(self.flag, views(self.lines@), self.pos as int, self.id@) == old(
                    self,
                ).remaining(),
            decreases self.lines.len() - self.pos,
        {
            let i = self.pos;
            let ghost l = views(self.lines@)[i as int];
            assert(self.lines@[i as int]@ == l);
            match classify_line(self.flag, &self.lines[i]) {
                LineClass::Identifier => {
                    self.id = identifier(self.flag, &self.lines[i]);
                    self.pos = i + 1;
                },
                LineClass::Data => {
                    let rec = decode_line(self.flag, &self.lines[i], self.id.clone());
                    self.pos = i + 1;
                    match rec {
                        Ok(r) => {
                            return Ok(Some(r));
                        },
                        Err(k) => {
                            self.failed = true;
                            assert(usize::MAX as int <= u64::MAX as int);
                            let line = (i + 1) as u64;
                            return Err(Error::new(ErrorKind::ReadRecord(line, Box::new(k))));
                        },
                    }
                },
                _ => {
                    self.pos = i + 1;
                },
            }
        }
        Ok(None)
    }

    /// A borrowed iterator over the records.
    pub fn records(&mut self) -> (r: RecordsIter<'_>)
        ensures
            r.current() == *old(self),
            *final(self) == *final(r.handle()),
    {
        RecordsIter::new(self)
    }

    /// An owned iterator over the records.
    pub fn into_records(self) -> (r: RecordsIntoIter)
        ensures
            r.current() == self,
    {
        RecordsIntoIter::new(self)
    }
}

/// A borrowed iterator over the records of a table.
pub struct RecordsIter<'r> {
    rdr: &'r mut Reader,
}

impl<'r> RecordsIter<'r> {
    /// The reader as it stands.
    pub closed spec fn current(&self) -> Reader {
        *self.rdr
    }

    /// The borrow of the reader.
    pub closed spec fn handle(&self) -> &'r mut Reader {
        self.rdr
    }

    fn new(rdr: &'r mut Reader) -> (r: RecordsIter<'r>)
        ensures
            r.current() == *old(rdr),
            *final(rdr) == *final(r.rdr),
    {
        RecordsIter { rdr }
    }

    /// Return a reference to the underlying reader.
    pub fn reader(&self) -> (r: &Reader)
        ensures
            *r == self.current(),
    {
        self.rdr
    }

    /// Return a mutable reference to the underlying reader.
    pub fn reader_mut(&mut self) -> (r: &mut Reader)
        ensures
            *r == old(self).current(),
            final(self).current() == *final(r),
    {
        self.rdr
    }

    /// The next record, or the error of the line that failed; `None` at the end.
    pub fn next_record(&mut self) -> (r: Option<Result<Record, Error>>)
        ensures
            advanced(old(self).current(), final(self).current(), r),
    {
        match self.rdr.read_record() {
            Ok(Some(rec)) => Some(Ok(rec)),
            Ok(None) => None,
            Err(e) => Some(Err(e)),
        }
    }
}

/// An owned iterator over the records of a table.
pub struct RecordsIntoIter {
    rdr: Reader,
}

impl RecordsIntoIter {
    /// The reader as it stands.
    pub closed spec fn current(&self) -> Reader {
        self.rdr
    }

    fn new(rdr: Reader) -> (r: RecordsIntoIter)
        ensures
            r.current() == rdr,
    {
        RecordsIntoIter { rdr }
    }

    /// Return a reference to the underlying reader.
    pub fn reader(&self) -> (r: &Reader)
        ensures
            *r == self.current(),
    {
        &self.rdr
    }

    /// Return a mutable reference to the underlying reader.
    pub fn reader_mut(&mut self) -> (r: &mut Reader)
        ensures
            *r == old(self).current(),
            final(self).current() == *final(r),
    {
        &mut self.rdr
    }

    /// Drop this iterator and return the underlying reader.
    pub fn into_reader(self) -> (r: Reader)
        ensures
            r == self.current(),
    {
        self.rdr
    }

    /// The next record, or the error of the line that failed; `None` at the end.
    pub fn next_record(&mut self) -> (r: Option<Result<Record, Error>>)
        ensures
            advanced(old(self).current(), final(self).current(), r),
    {
        match self.rdr.read_record() {
            Ok(Some(rec)) => Some(Ok(rec)),
            Ok(None) => None,
            Err(e) => Some(Err(e)),
        }
    }
}

} // verus!
