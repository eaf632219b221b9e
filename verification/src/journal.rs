//! The move journal: the record of every relocation one organize run
//! performed, serialized as one `destination|origin` line per move, lines
//! joined by `\n` with no trailing newline.  The journal is what makes a run
//! reversible, so parsing is proved to invert serialization for every record
//! whose destination is free of `|` and line breaks and whose origin is free
//! of line breaks.

use vstd::prelude::*;
use crate::text::{find_first, spec_contains_char, spec_first_at};
use crate::paths::spec_path_ok;

verus! {

/// One relocation: where the file now is, and where it came from.
pub struct MoveRecord {
    pub destination: String,
    pub origin: String,
}

impl MoveRecord {
    /// The pair of character sequences this record stands for.
    pub open spec fn model(self) -> (Seq<char>, Seq<char>) {
        (self.destination@, self.origin@)
    }
}

/// The sequence of pairs a journal stands for.
pub open spec fn records_model(rs: Seq<MoveRecord>) -> Seq<(Seq<char>, Seq<char>)> {
    Seq::new(rs.len(), |i: int| rs[i].model())
}

/// A record the line format can carry faithfully: the destination contains
/// neither the `|` separator nor a line break, and the origin contains no
/// line break.  (An origin may contain `|`: only the first `|` of a line
/// separates the fields.)
pub open spec fn spec_record_ok(r: (Seq<char>, Seq<char>)) -> bool {
    spec_path_ok(r.0) && !spec_contains_char(r.1, '\n')
}

/// The serialized form of one record.
pub open spec fn spec_record_line(r: (Seq<char>, Seq<char>)) -> Seq<char> {
    r.0 + seq!['|'] + r.1
}

/// The serialized journal: record lines joined by `\n`, no trailing newline.
pub open spec fn spec_serialize(rs: Seq<(Seq<char>, Seq<char>)>) -> Seq<char>
    decreases rs.len(),
{
    if rs.len() == 0 {
        Seq::empty()
    } else if rs.len() == 1 {
        spec_record_line(rs[0])
    } else {
        spec_record_line(rs[0]) + seq!['\n'] + spec_serialize(rs.subrange(1, rs.len() as int))
    }
}

/// Appending one record extends the serialized text by a `\n` and one line
/// (by the line alone when the journal was empty).
proof fn lemma_serialize_push(rs: Seq<(Seq<char>, Seq<char>)>, r: (Seq<char>, Seq<char>))
    ensures
        spec_serialize(rs.push(r)) == if rs.len() == 0 {
            spec_record_line(r)
        } else {
            spec_serialize(rs) + seq!['\n'] + spec_record_line(r)
        },
    decreases rs.len(),
{
    if rs.len() == 0 {
        assert(rs.push(r)[0] == r);
    } else if rs.len() == 1 {
        assert(rs.push(r).subrange(1, 2) =~= seq![r]);
        assert(spec_serialize(seq![r]) == spec_record_line(r));
        assert(rs.push(r)[0] == rs[0]);
    } else {
        let tail = rs.subrange(1, rs.len() as int);
        lemma_serialize_push(tail, r);
        assert(rs.push(r).subrange(1, rs.push(r).len() as int) =~= tail.push(r));
        assert(rs.push(r)[0] == rs[0]);
        assert(spec_record_line(rs[0]) + seq!['\n'] + (spec_serialize(tail) + seq!['\n']
            + spec_record_line(r)) =~= (spec_record_line(rs[0]) + seq!['\n']
            + spec_serialize(tail)) + seq!['\n'] + spec_record_line(r));
    }
}

/// Serialize a journal.
pub fn serialize_journal(rs: &Vec<MoveRecord>) -> (t: String)
    ensures
        t@ == spec_serialize(records_model(rs@)),
{
    let ghost m = records_model(rs@);
    let mut t = String::new();
    let mut i: usize = 0;
    proof {
        assert(m.take(0) =~= Seq::empty());
    }
    while i < rs.len()
        invariant
            i <= rs.len(),
            m == records_model(rs@),
            m.len() == rs@.len(),
            t@ == spec_serialize(m.take(i as int)),
        decreases rs.len() - i,
    {
        proof {
            reveal_strlit("\n");
            reveal_strlit("|");
            assert("\n"@ =~= seq!['\n']);
            assert("|"@ =~= seq!['|']);
            lemma_serialize_push(m.take(i as int), m[i as int]);
            assert(m.take(i + 1) =~= m.take(i as int).push(m[i as int]));
        }
        if i > 0 {
            t.append("\n");
        }
        t.append(rs[i].destination.as_str());
        t.append("|");
        t.append(rs[i].origin.as_str());
        proof {
            if i == 0 {
                assert(t@ =~= spec_record_line(m[0]));
            } else {
                assert(t@ =~= spec_serialize(m.take(i as int)) + seq!['\n']
                    + spec_record_line(m[i as int]));
            }
        }
        i += 1;
    }
    proof {
        assert(m.take(rs@.len() as int) =~= m);
    }
    t
}

/// The segments of a text between line breaks.  A text without any line
/// break is a single segment, so the empty text is one empty segment (which
/// no record line can be, since every record line contains `|`).
pub open spec fn spec_lines(s: Seq<char>) -> Seq<Seq<char>>
    decreases s.len(),
{
    if exists|i: int| spec_first_at(s, '\n', i) {
        let i = choose|i: int| spec_first_at(s, '\n', i);
        seq![s.subrange(0, i)] + spec_lines(s.subrange(i + 1, s.len() as int))
    } else {
        seq![s]
    }
}

/// The record a line holds: the text around the first `|`, or nothing for a
/// line without `|`.
pub open spec fn spec_parse_line(line: Seq<char>) -> Option<(Seq<char>, Seq<char>)> {
    if exists|i: int| spec_first_at(line, '|', i) {
        let i = choose|i: int| spec_first_at(line, '|', i);
        Some((line.subrange(0, i), line.subrange(i + 1, line.len() as int)))
    } else {
        None
    }
}

/// The records of a sequence of lines, in order; lines without `|` are
/// passed over.
pub open spec fn spec_parse_lines(ls: Seq<Seq<char>>) -> Seq<(Seq<char>, Seq<char>)>
    decreases ls.len(),
{
    if ls.len() == 0 {
        Seq::empty()
    } else {
        let rest = spec_parse_lines(ls.subrange(1, ls.len() as int));
        match spec_parse_line(ls[0]) {
            Some(r) => seq![r] + rest,
            None => rest,
        }
    }
}

/// The records of the whole serialized text.
pub open spec fn spec_parse(text: Seq<char>) -> Seq<(Seq<char>, Seq<char>)> {
    spec_parse_lines(spec_lines(text))
}

/// The first occurrence of a character is at exactly one position.
proof fn lemma_first_at_unique(s: Seq<char>, c: char, i: int, j: int)
    requires
        spec_first_at(s, c, i),
        spec_first_at(s, c, j),
    ensures
        i == j,
{
    if i < j {
        assert(s[i] != c);
    }
    if j < i {
        assert(s[j] != c);
    }
}

/// Splitting off one clean leading segment.
proof fn lemma_lines_step(s1: Seq<char>, s2: Seq<char>)
    requires
        !spec_contains_char(s1, '\n'),
    ensures
        spec_lines(s1 + seq!['\n'] + s2) == seq![s1] + spec_lines(s2),
{
    let t = s1 + seq!['\n'] + s2;
    assert(t[s1.len() as int] == '\n');
    assert forall|j: int| 0 <= j < s1.len() implies t[j] != '\n' by {
        assert(t[j] == s1[j]);
        assert(!spec_contains_char(s1, '\n'));
    }
    assert(spec_first_at(t, '\n', s1.len() as int));
    let i = choose|i: int| spec_first_at(t, '\n', i);
    lemma_first_at_unique(t, '\n', i, s1.len() as int);
    assert(t.subrange(0, s1.len() as int) =~= s1);
    assert(t.subrange(s1.len() as int + 1, t.len() as int) =~= s2);
}

/// A record line parses back to its record when the record is clean.
proof fn lemma_parse_record_line(r: (Seq<char>, Seq<char>))
    requires
        spec_record_ok(r),
    ensures
        spec_parse_line(spec_record_line(r)) == Some(r),
        !spec_contains_char(spec_record_line(r), '\n'),
{
    let line = spec_record_line(r);
    assert(line[r.0.len() as int] == '|');
    assert forall|j: int| 0 <= j < r.0.len() implies line[j] != '|' by {
        assert(line[j] == r.0[j]);
        assert(!spec_contains_char(r.0, '|'));
    }
    assert(spec_first_at(line, '|', r.0.len() as int));
    let i = choose|i: int| spec_first_at(line, '|', i);
    lemma_first_at_unique(line, '|', i, r.0.len() as int);
    assert(line.subrange(0, r.0.len() as int) =~= r.0);
    assert(line.subrange(r.0.len() as int + 1, line.len() as int) =~= r.1);
    assert forall|j: int| 0 <= j < line.len() implies line[j] != '\n' by {
        if j < r.0.len() {
            assert(line[j] == r.0[j]);
            assert(!spec_contains_char(r.0, '\n'));
        } else if j == r.0.len() {
        } else {
            assert(line[j] == r.1[j - r.0.len() - 1]);
            assert(!spec_contains_char(r.1, '\n'));
        }
    }
}

/// Parsing inverts serialization: a journal whose records are all clean is
/// recovered exactly from its serialized text.
pub proof fn lemma_journal_round_trip(rs: Seq<(Seq<char>, Seq<char>)>)
    requires
        forall|i: int| 0 <= i < rs.len() ==> spec_record_ok(#[trigger] rs[i]),
    ensures
        spec_parse(spec_serialize(rs)) =~~= rs,
    decreases rs.len(),
{
    if rs.len() == 0 {
        let t = spec_serialize(rs);
        assert(t.len() == 0);
        assert forall|i: int| !spec_first_at(t, '\n', i) by {}
        assert(spec_lines(t) == seq![t]);
        let ls = seq![t];
        assert forall|i: int| !spec_first_at(t, '|', i) by {}
        assert(spec_parse_line(t) is None);
        assert(ls.subrange(1, 1).len() == 0);
        assert(spec_parse_lines(ls.subrange(1, 1)) == Seq::<(Seq<char>, Seq<char>)>::empty());
        assert(spec_parse_lines(ls) =~~= rs);
    } else if rs.len() == 1 {
        let line = spec_record_line(rs[0]);
        assert(spec_serialize(rs) == line);
        lemma_parse_record_line(rs[0]);
        assert forall|i: int| !spec_first_at(line, '\n', i) by {
            if spec_first_at(line, '\n', i) {
                assert(line[i] == '\n');
                assert(spec_contains_char(line, '\n'));
            }
        }
        assert(spec_lines(line) == seq![line]);
        let ls = seq![line];
        assert(ls[0] == line);
        assert(ls.subrange(1, 1).len() == 0);
        assert(spec_parse_lines(ls.subrange(1, 1)) == Seq::<(Seq<char>, Seq<char>)>::empty());
        assert(spec_parse_lines(ls) == seq![rs[0]] + Seq::<(Seq<char>, Seq<char>)>::empty());
        assert(seq![rs[0]] + Seq::<(Seq<char>, Seq<char>)>::empty() =~~= rs);
    } else {
        let tail = rs.subrange(1, rs.len() as int);
        let line = spec_record_line(rs[0]);
        assert(spec_serialize(rs) == line + seq!['\n'] + spec_serialize(tail));
        lemma_parse_record_line(rs[0]);
        lemma_lines_step(line, spec_serialize(tail));
        lemma_journal_round_trip(tail);
        let ls = spec_lines(spec_serialize(rs));
        assert(ls == seq![line] + spec_lines(spec_serialize(tail)));
        assert(ls[0] == line);
        assert(ls.subrange(1, ls.len() as int) =~~= spec_lines(spec_serialize(tail)));
        assert(spec_parse_lines(ls) == seq![rs[0]] + spec_parse_lines(
            spec_lines(spec_serialize(tail)),
        ));
        assert(seq![rs[0]] + spec_parse(spec_serialize(tail)) =~~= rs);
    }
}

/// Split a text at its line breaks.
fn split_lines(text: &str) -> (ls: Vec<String>)
    ensures
        ls.deep_view() == spec_lines(text@),
    decreases text@.len(),
{
    let len = text.unicode_len();
    match find_first(text, '\n') {
        Some(k) => {
            let head = text.substring_char(0, k).to_owned();
            let rest = text.substring_char(k + 1, len);
            let mut ls = split_lines(rest);
            ls.insert(0, head);
            proof {
                let i = choose|i: int| spec_first_at(text@, '\n', i);
                lemma_first_at_unique(text@, '\n', i, k as int);
                assert(ls.deep_view() =~= seq![text@.subrange(0, k as int)] + spec_lines(
                    text@.subrange(k + 1, text@.len() as int),
                ));
            }
            ls
        },
        None => {
            let mut ls: Vec<String> = Vec::new();
            ls.push(text.to_owned());
            proof {
                if exists|i: int| spec_first_at(text@, '\n', i) {
                    let i = choose|i: int| spec_first_at(text@, '\n', i);
                    assert(spec_contains_char(text@, '\n'));
                }
                assert(ls.deep_view() =~= seq![text@]);
            }
            ls
        },
    }
}

/// Parse one journal line.
fn parse_line(line: &str) -> (r: Option<MoveRecord>)
    ensures
        match r {
            Some(rec) => spec_parse_line(line@) == Some(rec.model()),
            None => spec_parse_line(line@) is None,
        },
{
    let len = line.unicode_len();
    match find_first(line, '|') {
        Some(k) => {
            let destination = line.substring_char(0, k).to_owned();
            let origin = line.substring_char(k + 1, len).to_owned();
            proof {
                let i = choose|i: int| spec_first_at(line@, '|', i);
                lemma_first_at_unique(line@, '|', i, k as int);
            }
            Some(MoveRecord { destination, origin })
        },
        None => {
            proof {
                if exists|i: int| spec_first_at(line@, '|', i) {
                    let i = choose|i: int| spec_first_at(line@, '|', i);
                    assert(spec_contains_char(line@, '|'));
                }
            }
            None
        },
    }
}

/// Appending one line appends its record, if it has one.
proof fn lemma_parse_lines_push(ls: Seq<Seq<char>>, l: Seq<char>)
    ensures
        spec_parse_lines(ls.push(l)) == spec_parse_lines(ls) + match spec_parse_line(l) {
            Some(r) => seq![r],
            None => Seq::empty(),
        },
    decreases ls.len(),
{
    let one = match spec_parse_line(l) {
        Some(r) => seq![r],
        None => Seq::<(Seq<char>, Seq<char>)>::empty(),
    };
    let p = ls.push(l);
    if ls.len() == 0 {
        assert(p[0] == l);
        assert(p.subrange(1, 1).len() == 0);
        assert(spec_parse_lines(p.subrange(1, 1)) == Seq::<(Seq<char>, Seq<char>)>::empty());
        match spec_parse_line(l) {
            Some(r) => {
                assert(spec_parse_lines(p) == seq![r] + Seq::<(Seq<char>, Seq<char>)>::empty());
                assert(seq![r] + Seq::<(Seq<char>, Seq<char>)>::empty() =~~= seq![r]);
                assert(spec_parse_lines(ls) + one =~~= one);
            },
            None => {
                assert(spec_parse_lines(p) == Seq::<(Seq<char>, Seq<char>)>::empty());
                assert(spec_parse_lines(ls) + one =~~= one);
            },
        }
        assert(spec_parse_lines(ls) + one =~~= spec_parse_lines(p));
    } else {
        let tail = ls.subrange(1, ls.len() as int);
        lemma_parse_lines_push(tail, l);
        assert(p.subrange(1, p.len() as int) =~~= tail.push(l));
        assert(p[0] == ls[0]);
        assert(spec_parse_lines(p) == match spec_parse_line(ls[0]) {
            Some(r) => seq![r] + spec_parse_lines(tail.push(l)),
            None => spec_parse_lines(tail.push(l)),
        });
        match spec_parse_line(ls[0]) {
            Some(r) => {
                assert(seq![r] + (spec_parse_lines(tail) + one) =~~= (seq![r]
                    + spec_parse_lines(tail)) + one);
            },
            None => {},
        }
    }
}

/// Parse a serialized journal back into its records, line by line; lines
/// without a `|` are passed over.
pub fn parse_journal(text: &str) -> (rs: Vec<MoveRecord>)
    ensures
        records_model(rs@) == spec_parse(text@),
{
    let ls = split_lines(text);
    let ghost lsm = ls.deep_view();
    let mut rs: Vec<MoveRecord> = Vec::new();
    let mut i: usize = 0;
    proof {
        assert(lsm.take(0) =~~= Seq::<Seq<char>>::empty());
        assert(records_model(rs@) =~~= spec_parse_lines(lsm.take(0)));
    }
    while i < ls.len()
        invariant
            i <= ls.len(),
            lsm == ls.deep_view(),
            lsm.len() == ls@.len(),
            forall|k: int| 0 <= k < ls@.len() ==> lsm[k] == ls@[k]@,
            records_model(rs@) == spec_parse_lines(lsm.take(i as int)),
        decreases ls.len() - i,
    {
        proof {
            lemma_parse_lines_push(lsm.take(i as int), lsm[i as int]);
            assert(lsm.take(i + 1) =~~= lsm.take(i as int).push(lsm[i as int]));
        }
        let ghost before = records_model(rs@);
        match parse_line(ls[i].as_str()) {
            Some(rec) => {
                rs.push(rec);
                proof {
                    assert(records_model(rs@) =~~= before + seq![rec.model()]);
                    assert(before + seq![rec.model()] =~~= spec_parse_lines(lsm.take(i + 1)));
                }
            },
            None => {
                proof {
                    assert(before + Seq::<(Seq<char>, Seq<char>)>::empty() =~~= before);
                }
            },
        }
        i += 1;
    }
    proof {
        assert(lsm.take(ls@.len() as int) =~~= lsm);
    }
    rs
}

} // verus!
