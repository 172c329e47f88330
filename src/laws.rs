use vstd::prelude::*;
use crate::decode::{decode_failure, field_count, field_ok, first_failure, is_float_field, holds_fields};
use crate::error::Cause;
use crate::line::{classify, identifier_name, Flag, LineClass};
use crate::reader::{all_entries, entries, Entry};
use crate::text::{lines_of, line_state, split_spaces};

verus! {

/// `s` is a data line that decodes.
pub open spec fn good_data(flag: Flag, s: Seq<char>) -> bool {
    classify(flag, s) == LineClass::Data && decode_failure(flag, s) is None
}

/// The records of the `n` lines from index `from` on, all under the name `id`, in order.
pub open spec fn rows(from: int, n: nat, id: Seq<char>) -> Seq<Entry> {
    Seq::new(n, |k: int| Entry::Row { at: (from + k) as nat, id })
}

proof fn lemma_rows(flag: Flag, lines: Seq<Seq<char>>, pos: int, q: int, id: Seq<char>)
    requires
        0 <= pos <= q <= lines.len(),
        forall|k: int| pos <= k < q ==> good_data(flag, #[trigger] lines[k]),
    ensures
        entries(flag, lines, pos, id) == rows(pos, (q - pos) as nat, id) + entries(
            flag,
            lines,
            q,
            id,
        ),
    decreases q - pos,
{
    if pos < q {
        lemma_rows(flag, lines, pos + 1, q, id);
        assert(good_data(flag, lines[pos]));
        assert(rows(pos, (q - pos) as nat, id) =~= seq![Entry::Row { at: pos as nat, id }] + rows(
            pos + 1,
            (q - pos - 1) as nat,
            id,
        ));
        assert(entries(flag, lines, pos, id) == seq![Entry::Row { at: pos as nat, id }] + entries(
            flag,
            lines,
            pos + 1,
            id,
        ));
        assert(entries(flag, lines, pos, id) =~= rows(pos, (q - pos) as nat, id) + entries(
            flag,
            lines,
            q,
            id,
        ));
    } else {
        assert(rows(pos, 0, id) + entries(flag, lines, q, id) =~= entries(flag, lines, q, id));
    }
}

/// An empty text holds no records, and reading it is no error.
pub proof fn empty_input_has_no_records(flag: Flag)
    ensures
        all_entries(flag, lines_of(Seq::empty())) == Seq::<Entry>::empty(),
{
    assert(line_state(Seq::empty()) == (Seq::<Seq<char>>::empty(), Seq::<char>::empty()));
}

/// An identifier line followed by data lines that decode gives one record for each data
/// line, in the order of the lines, each under the name that the identifier line gives.
pub proof fn records_follow_their_name(flag: Flag, name: Seq<char>, data: Seq<Seq<char>>)
    requires
        classify(flag, name) == LineClass::Identifier,
        forall|i: int| 0 <= i < data.len() ==> good_data(flag, #[trigger] data[i]),
    ensures
        all_entries(flag, seq![name] + data) == rows(1, data.len(), identifier_name(flag, name)),
{
    let lines = seq![name] + data;
    let id = identifier_name(flag, name);
    assert(lines[0] == name);
    assert forall|k: int| 1 <= k < lines.len() implies good_data(flag, #[trigger] lines[k]) by {
        assert(lines[k] == data[k - 1]);
    }
    assert(entries(flag, lines, 0, Seq::empty()) == entries(flag, lines, 1, id));
    lemma_rows(flag, lines, 1, lines.len() as int, id);
    assert(entries(flag, lines, lines.len() as int, id) == Seq::<Entry>::empty());
    assert(rows(1, data.len(), id) + Seq::<Entry>::empty() =~= rows(1, data.len(), id));
}

/// A second identifier line renames the records after it; those before it keep the
/// first name.
pub proof fn new_name_renames_later_records(
    flag: Flag,
    first: Seq<char>,
    a: Seq<Seq<char>>,
    second: Seq<char>,
    b: Seq<Seq<char>>,
)
    requires
        classify(flag, first) == LineClass::Identifier,
        classify(flag, second) == LineClass::Identifier,
        forall|i: int| 0 <= i < a.len() ==> good_data(flag, #[trigger] a[i]),
        forall|i: int| 0 <= i < b.len() ==> good_data(flag, #[trigger] b[i]),
    ensures
        all_entries(flag, seq![first] + a + seq![second] + b) == rows(
            1,
            a.len(),
            identifier_name(flag, first),
        ) + rows(a.len() as int + 2, b.len(), identifier_name(flag, second)),
{
    let lines = seq![first] + a + seq![second] + b;
    let id1 = identifier_name(flag, first);
    let id2 = identifier_name(flag, second);
    let m = a.len() as int + 1;
    assert(lines[0] == first);
    assert(lines[m] == second);
    assert forall|k: int| 1 <= k < m implies good_data(flag, #[trigger] lines[k]) by {
        assert(lines[k] == a[k - 1]);
    }
    assert forall|k: int| m + 1 <= k < lines.len() implies good_data(flag, #[trigger] lines[k]) by {
        assert(lines[k] == b[k - m - 1]);
    }
    assert(entries(flag, lines, 0, Seq::empty()) == entries(flag, lines, 1, id1));
    lemma_rows(flag, lines, 1, m, id1);
    assert(entries(flag, lines, m, id1) == entries(flag, lines, m + 1, id2));
    lemma_rows(flag, lines, m + 1, lines.len() as int, id2);
    assert(entries(flag, lines, lines.len() as int, id2) == Seq::<Entry>::empty());
    assert(rows(m + 1, b.len(), id2) + Seq::<Entry>::empty() =~= rows(m + 1, b.len(), id2));
}

/// A data line that does not decode ends the reading with its failure, at its line
/// number counted from 1; the records of the lines before it are read as before.
pub proof fn failure_ends_reading(
    flag: Flag,
    name: Seq<char>,
    a: Seq<Seq<char>>,
    bad: Seq<char>,
    rest: Seq<Seq<char>>,
)
    requires
        classify(flag, name) == LineClass::Identifier,
        forall|i: int| 0 <= i < a.len() ==> good_data(flag, #[trigger] a[i]),
        classify(flag, bad) == LineClass::Data,
        decode_failure(flag, bad) is Some,
    ensures
        all_entries(flag, seq![name] + a + seq![bad] + rest) == rows(
            1,
            a.len(),
            identifier_name(flag, name),
        ) + seq![Entry::Failure { at: a.len() + 1, cause: decode_failure(flag, bad)->Some_0 }],
{
    let lines = seq![name] + a + seq![bad] + rest;
    let id = identifier_name(flag, name);
    let m = a.len() as int + 1;
    assert(lines[0] == name);
    assert(lines[m] == bad);
    assert forall|k: int| 1 <= k < m implies good_data(flag, #[trigger] lines[k]) by {
        assert(lines[k] == a[k - 1]);
    }
    assert(entries(flag, lines, 0, Seq::empty()) == entries(flag, lines, 1, id));
    lemma_rows(flag, lines, 1, m, id);
}

/// A data line whose number of fields (the fifteen of a record, and two more for
/// sequencing reads) is wrong fails as a structural error, whatever its fields hold.
pub proof fn wrong_field_count_is_structural(flag: Flag, s: Seq<char>)
    requires
        split_spaces(s).len() != field_count(flag),
    ensures
        decode_failure(flag, s) == Some(Cause::Parser),
{
}

/// Where the fields before numeric column `i` convert and column `i` does not, the
/// line fails with the kind of conversion that column takes: float or integer.
pub proof fn failure_names_the_field_type(flag: Flag, s: Seq<char>, i: int)
    requires
        split_spaces(s).len() == field_count(flag),
        0 <= i < 13,
        forall|j: int| 0 <= j < i ==> field_ok(split_spaces(s)[j], j),
        !field_ok(split_spaces(s)[i], i),
    ensures
        decode_failure(flag, s) == Some(if is_float_field(i) {
            Cause::Float
        } else {
            Cause::Int
        }),
{
    lemma_first_failure(split_spaces(s), 0, i);
}

proof fn lemma_first_failure(toks: Seq<Seq<char>>, from: int, i: int)
    requires
        0 <= from <= i < 13,
        forall|j: int| from <= j < i ==> field_ok(toks[j], j),
        !field_ok(toks[i], i),
    ensures
        first_failure(toks, from) == Some(if is_float_field(i) {
            Cause::Float
        } else {
            Cause::Int
        }),
    decreases i - from,
{
    if from < i {
        lemma_first_failure(toks, from + 1, i);
    }
}

/// A line of the dialect for sequencing reads, whose seventeen fields are those of a
/// classic line of fifteen followed by two columns of flanking regions, decodes as that
/// classic line does: it fails in the same way, or holds the same fields.
pub proof fn flanking_columns_are_ignored(ngs: Seq<char>, classic: Seq<char>)
    requires
        split_spaces(ngs).len() == 17,
        split_spaces(classic).len() == 15,
        forall|i: int| 0 <= i < 15 ==> split_spaces(ngs)[i] == split_spaces(classic)[i],
    ensures
        decode_failure(Flag::Ngs, ngs) == decode_failure(Flag::D, classic),
        forall|r| holds_fields(r, split_spaces(ngs)) == holds_fields(r, split_spaces(classic)),
{
    lemma_same_failure(split_spaces(ngs), split_spaces(classic), 0);
}

proof fn lemma_same_failure(a: Seq<Seq<char>>, b: Seq<Seq<char>>, from: int)
    requires
        0 <= from <= 13,
        a.len() >= 15,
        b.len() >= 15,
        forall|i: int| 0 <= i < 15 ==> a[i] == b[i],
    ensures
        first_failure(a, from) == first_failure(b, from),
    decreases 13 - from,
{
    if from < 13 {
        assert(a[from] == b[from]);
        lemma_same_failure(a, b, from + 1);
    }
}

} // verus!
