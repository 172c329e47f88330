use vstd::prelude::*;
use crate::text::{is_blank, is_blank_chars, to_chars, trim, trim_chars};

verus! {

/// The dialect of the table: the classic one (`-d`) or the one for sequencing reads (`-ngs`).
#[derive(Clone, Copy, Debug, PartialEq, Eq, Structural)]
pub enum Flag {
    D,
    Ngs,
}

/// What a line of the table is.
#[derive(Clone, Copy, Debug, PartialEq, Eq, Structural)]
pub enum LineClass {
    /// Empty or white space only.
    Blank,
    /// Text of the classic header.
    Boilerplate,
    /// Names the sequence that the rows after it belong to.
    Identifier,
    /// A row of the table.
    Data,
}

pub open spec fn starts_with(s: Seq<char>, p: Seq<char>) -> bool {
    p.len() <= s.len() && s.take(p.len() as int) == p
}

/// A line of the header that the classic dialect writes before its rows.
pub open spec fn is_boilerplate(s: Seq<char>) -> bool {
    ||| starts_with(s, "Tandem Repeats"@)
    ||| starts_with(s, "Gary Benson"@)
    ||| starts_with(s, "Program"@)
    ||| starts_with(s, "Boston"@)
    ||| starts_with(s, "Version"@)
    ||| starts_with(s, "Parameters"@)
}

pub open spec fn classify(flag: Flag, s: Seq<char>) -> LineClass {
    if is_blank(s) {
        LineClass::Blank
    } else {
        match flag {
            Flag::D => if is_boilerplate(s) {
                LineClass::Boilerplate
            } else if starts_with(s, "Sequence"@) {
                LineClass::Identifier
            } else {
                LineClass::Data
            },
            Flag::Ngs => if s[0] == '@' {
                LineClass::Identifier
            } else {
                LineClass::Data
            },
        }
    }
}

/// The name that an identifier line gives: the line after `Sequence: ` (classic) or after
/// `@` (sequencing reads), without white space at either end.
pub open spec fn identifier_name(flag: Flag, s: Seq<char>) -> Seq<char> {
    match flag {
        Flag::D => if starts_with(s, "Sequence: "@) {
            trim(s.skip("Sequence: "@.len() as int))
        } else {
            trim(s)
        },
        Flag::Ngs => trim(s.drop_first()),
    }
}

fn starts_with_chars(s: &Vec<char>, prefix: &str) -> (r: bool)
    ensures
        r == starts_with(s@, prefix@),
{
    let p = to_chars(prefix);
    if p.len() > s.len() {
        return false;
    }
    let mut i: usize = 0;
    while i < p.len()
        invariant
            p@ == prefix@,
            i <= p.len() <= s.len(),
            forall|j: int| 0 <= j < i ==> s@[j] == p@[j],
        decreases p.len() - i,
    {
        if s[i] != p[i] {
            assert(s@.take(p.len() as int)[i as int] != p@[i as int]);
            return false;
        }
        i = i + 1;
    }
    assert(s@.take(p.len() as int) =~= p@);
    true
}

pub fn classify_line(flag: Flag, s: &Vec<char>) -> (r: LineClass)
    ensures
        r == classify(flag, s@),
{
    if is_blank_chars(s) {
        return LineClass::Blank;
    }
    match flag {
        Flag::D => {
            if starts_with_chars(s, "Tandem Repeats") || starts_with_chars(s, "Gary Benson")
                || starts_with_chars(s, "Program") || starts_with_chars(s, "Boston")
                || starts_with_chars(s, "Version") || starts_with_chars(s, "Parameters") {
                LineClass::Boilerplate
            } else if starts_with_chars(s, "Sequence") {
                LineClass::Identifier
            } else {
                LineClass::Data
            }
        },
        Flag::Ngs => {
            if s[0] == '@' {
                LineClass::Identifier
            } else {
                LineClass::Data
            }
        },
    }
}

/// The name on an identifier line.
pub fn identifier(flag: Flag, s: &Vec<char>) -> (r: String)
    requires
        classify(flag, s@) == LineClass::Identifier,
    ensures
        r@ == identifier_name(flag, s@),
{
    let rest: Vec<char> = match flag {
        Flag::D => {
            let prefix = to_chars("Sequence: ");
            if starts_with_chars(s, "Sequence: ") {
                let mut rest: Vec<char> = Vec::new();
                let mut i: usize = prefix.len();
                while i < s.len()
                    invariant
                        prefix.len() <= i <= s.len(),
                        rest@ == s@.subrange(prefix.len() as int, i as int),
                    decreases s.len() - i,
                {
                    rest.push(s[i]);
                    i = i + 1;
                    assert(rest@ =~= s@.subrange(prefix.len() as int, i as int));
                }
                assert(rest@ =~= s@.skip("Sequence: "@.len() as int));
                rest
            } else {
                s.clone()
            }
        },
        Flag::Ngs => {
            let mut rest: Vec<char> = Vec::new();
            let mut i: usize = 1;
            while i < s.len()
                invariant
                    1 <= i <= s.len(),
                    rest@ == s@.subrange(1, i as int),
                decreases s.len() - i,
            {
                rest.push(s[i]);
                i = i + 1;
                assert(rest@ =~= s@.subrange(1, i as int));
            }
            assert(rest@ =~= s@.drop_first());
            rest
        },
    };
    trim_chars(&rest)
}

} // verus!
