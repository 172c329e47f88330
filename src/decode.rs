use vstd::prelude::*;
use crate::error::{cause_of, Cause, ErrorKind};
use crate::line::Flag;
use crate::number::{
    is_float, is_float_chars, is_unsigned, parse_u16, parse_u32, parse_u8, parse_usize,
    unsigned_value,
};
use crate::record::Record;
use crate::text::{split_spaces, split_spaces_chars, string_views, to_chars, trim_end, trim_end_chars};

verus! {

/// The number of fields on a data line: the fifteen of a record, and two columns of
/// flanking regions in the dialect for sequencing reads.
pub open spec fn field_count(flag: Flag) -> nat {
    match flag {
        Flag::D => 15,
        Flag::Ngs => 17,
    }
}

/// The two floating-point columns: the copy number and the entropy.
pub open spec fn is_float_field(i: int) -> bool {
    i == 3 || i == 12
}

/// The largest value of the integer column `i`.
pub open spec fn int_max(i: int) -> int {
    if i == 0 || i == 1 {
        usize::MAX as int
    } else if i == 2 || i == 4 {
        u16::MAX as int
    } else if i == 7 {
        u32::MAX as int
    } else {
        u8::MAX as int
    }
}

/// The text `t` converts into the type of numeric column `i`.
pub open spec fn field_ok(t: Seq<char>, i: int) -> bool {
    if is_float_field(i) {
        is_float(t)
    } else {
        is_unsigned(t, int_max(i))
    }
}

/// The kind of conversion that the first failing numeric column from `i` on reports.
pub open spec fn first_failure(toks: Seq<Seq<char>>, i: int) -> Option<Cause>
    decreases 13 - i,
{
    if i >= 13 {
        None
    } else if !field_ok(toks[i], i) {
        if is_float_field(i) {
            Some(Cause::Float)
        } else {
            Some(Cause::Int)
        }
    } else {
        first_failure(toks, i + 1)
    }
}

/// Why the data line `s` does not decode, if it does not: a wrong number of fields, or
/// else the first numeric field that does not convert.
pub open spec fn decode_failure(flag: Flag, s: Seq<char>) -> Option<Cause> {
    let toks = split_spaces(s);
    if toks.len() != field_count(flag) {
        Some(Cause::Parser)
    } else {
        first_failure(toks, 0)
    }
}

/// `r` holds the first fifteen fields `toks`, in the order of the table's columns.
pub open spec fn holds_fields(r: Record, toks: Seq<Seq<char>>) -> bool {
    &&& r.start as nat == unsigned_value(toks[0])
    &&& r.end as nat == unsigned_value(toks[1])
    &&& r.period as nat == unsigned_value(toks[2])
    &&& r.copy_number@ == toks[3]
    &&& r.consensus_pattern_size as nat == unsigned_value(toks[4])
    &&& r.perc_matches as nat == unsigned_value(toks[5])
    &&& r.perc_indels as nat == unsigned_value(toks[6])
    &&& r.alignment_score as nat == unsigned_value(toks[7])
    &&& r.perc_a as nat == unsigned_value(toks[8])
    &&& r.perc_c as nat == unsigned_value(toks[9])
    &&& r.perc_g as nat == unsigned_value(toks[10])
    &&& r.perc_t as nat == unsigned_value(toks[11])
    &&& r.entropy@ == toks[12]
    &&& r.consensus_pattern@ == toks[13]
    &&& r.repeat_seq@ == trim_end(toks[14])
}

/// `r` is what the data line `s` decodes to, under the sequence name `id`.
pub open spec fn decodes_to(flag: Flag, s: Seq<char>, id: Seq<char>, r: Record) -> bool {
    decode_failure(flag, s) is None && r.seq_id@ == id && holds_fields(r, split_spaces(s))
}

fn float_field(t: &String) -> (r: Result<String, ErrorKind>)
    ensures
        match r {
            Ok(v) => is_float(t@) && v@ == t@,
            Err(k) => !is_float(t@) && cause_of(k) == Some(Cause::Float),
        },
{
    if is_float_chars(&to_chars(t.as_str())) {
        Ok(t.clone())
    } else {
        Err(ErrorKind::Float(t.clone()))
    }
}

/// Decodes the data line `s` into a record named `id`.
#[verifier::rlimit(50)]
pub fn decode_line(flag: Flag, s: &Vec<char>, id: String) -> (r: Result<Record, ErrorKind>)
    ensures
        match r {
            Ok(rec) => decodes_to(flag, s@, id@, rec),
            Err(k) => decode_failure(flag, s@) is Some && cause_of(k) == decode_failure(flag, s@),
        },
{
    reveal_with_fuel(first_failure, 14);
    let toks = split_spaces_chars(s);
    let ghost t = string_views(toks@);
    let expected: usize = match flag {
        Flag::D => 15,
        Flag::Ngs => 17,
    };
    if toks.len() != expected {
        return Err(ErrorKind::Parser(String::from_str("could not split into 15 elements")));
    }
    assert(forall|i: int| 0 <= i < toks.len() ==> #[trigger] toks@[i]@ == t[i]);
    let start = match parse_usize(toks[0].as_str()) {
        Ok(v) => v,
        Err(e) => return Err(ErrorKind::Int(e)),
    };
    let end = match parse_usize(toks[1].as_str()) {
        Ok(v) => v,
        Err(e) => return Err(ErrorKind::Int(e)),
    };
    let period = match parse_u16(toks[2].as_str()) {
        Ok(v) => v,
        Err(e) => return Err(ErrorKind::Int(e)),
    };
    let copy_number = match float_field(&toks[3]) {
        Ok(v) => v,
        Err(k) => return Err(k),
    };
    let consensus_pattern_size = match parse_u16(toks[4].as_str()) {
        Ok(v) => v,
        Err(e) => return Err(ErrorKind::Int(e)),
    };
    let perc_matches = match parse_u8(toks[5].as_str()) {
        Ok(v) => v,
        Err(e) => return Err(ErrorKind::Int(e)),
    };
    let perc_indels = match parse_u8(toks[6].as_str()) {
        Ok(v) => v,
        Err(e) => return Err(ErrorKind::Int(e)),
    };
    let alignment_score = match parse_u32(toks[7].as_str()) {
        Ok(v) => v,
        Err(e) => return Err(ErrorKind::Int(e)),
    };
    let perc_a = match parse_u8(toks[8].as_str()) {
        Ok(v) => v,
        Err(e) => return Err(ErrorKind::Int(e)),
    };
    let perc_c = match parse_u8(toks[9].as_str()) {
        Ok(v) => v,
        Err(e) => return Err(ErrorKind::Int(e)),
    };
    let perc_g = match parse_u8(toks[10].as_str()) {
        Ok(v) => v,
        Err(e) => return Err(ErrorKind::Int(e)),
    };
    let perc_t = match parse_u8(toks[11].as_str()) {
        Ok(v) => v,
        Err(e) => return Err(ErrorKind::Int(e)),
    };
    let entropy = match float_field(&toks[12]) {
        Ok(v) => v,
        Err(k) => return Err(k),
    };
    let consensus_pattern = toks[13].clone();
    let repeat_seq = trim_end_chars(&to_chars(toks[14].as_str()));
    Ok(
        Record {
            seq_id: id,
            start,
            end,
            period,
            copy_number,
            consensus_pattern_size,
            perc_matches,
            perc_indels,
            alignment_score,
            perc_a,
            perc_c,
            perc_g,
            perc_t,
            entropy,
            consensus_pattern,
            repeat_seq,
        },
    )
}

} // verus!
