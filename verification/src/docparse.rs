//! Permissive parsing of the DEX's published address directory: a
//! loosely-formed key/value JSON document, scanned line by line for
//! `"key": "value"` pairs instead of through a strict document parser.
//!
//! Grammar, per line of the document (lines split on `\n`): a line whose
//! blank-trimmed form is empty or starts with `{` or `}` is skipped; a
//! line with exactly one `:` yields the pair (before-colon
//! blank-trimmed then `"`-trimmed, after-colon blank-trimmed then
//! `,`-trimmed then `"`-trimmed); any other line is skipped. A key
//! occurring on several lines keeps its last value.

use vstd::prelude::*;

use crate::normalize::PipelineError;
use crate::text::{
    char_pred, find_char, first_index_from, space_pred, trim_by, trim_with,
};

verus! {

/// The lines of `s`, split on `\n`.
pub open spec fn split_lines(s: Seq<char>) -> Seq<Seq<char>>
    decreases s.len(),
{
    let k = first_index_from(s, '\n', 0);
    if !(0 <= k < s.len()) {
        seq![s]
    } else {
        seq![s.take(k)] + split_lines(s.subrange(k + 1, s.len() as int))
    }
}

/// The key/value pair one line yields, if any.
pub open spec fn line_entry(line: Seq<char>) -> Option<(Seq<char>, Seq<char>)> {
    let t = trim_by(line, space_pred());
    if t.len() == 0 || t[0] == '{' || t[0] == '}' {
        None
    } else {
        let k = first_index_from(line, ':', 0);
        if !(0 <= k < line.len()) {
            None
        } else if 0 <= first_index_from(line, ':', k + 1) < line.len() {
            None
        } else {
            let key = trim_by(trim_by(line.take(k), space_pred()), char_pred('"'));
            let value = trim_by(
                trim_by(
                    trim_by(line.subrange(k + 1, line.len() as int), space_pred()),
                    char_pred(','),
                ),
                char_pred('"'),
            );
            Some((key, value))
        }
    }
}

/// The value the document's lines give `key`: of all lines yielding a
/// pair with that key, the last one wins.
pub open spec fn doc_lookup(lines: Seq<Seq<char>>, key: Seq<char>) -> Option<Seq<char>>
    decreases lines.len(),
{
    if lines.len() == 0 {
        None
    } else {
        match line_entry(lines.last()) {
            Some(kv) => if kv.0 == key {
                Some(kv.1)
            } else {
                doc_lookup(lines.drop_last(), key)
            },
            None => doc_lookup(lines.drop_last(), key),
        }
    }
}

/// Split a document into its lines.
fn split_lines_exec(s: &str) -> (r: Vec<String>)
    ensures
        r@.map_values(|l: String| l@) == split_lines(s@),
    decreases s@.len(),
{
    let n: usize = s.unicode_len();
    let k = find_char(s, '\n', 0);
    proof {
        crate::text::lemma_first_index_from_bounds(s@, '\n', 0);
    }
    if k == n {
        let mut v: Vec<String> = Vec::new();
        v.push(String::from_str(s));
        proof {
            assert(v@.map_values(|l: String| l@) =~= seq![s@]);
        }
        v
    } else {
        let head = s.substring_char(0, k);
        let tail = s.substring_char(k + 1, n);
        let mut v = split_lines_exec(tail);
        v.insert(0, String::from_str(head));
        proof {
            assert(head@ =~= s@.take(k as int));
            assert(v@.map_values(|l: String| l@) =~= seq![s@.take(k as int)] + split_lines(
                tail@,
            ));
        }
        v
    }
}

/// Parse one line into its key/value pair, if it yields one.
fn parse_line_entry(line: &str) -> (r: Option<(String, String)>)
    ensures
        match r {
            Some(kv) => line_entry(line@) == Some((kv.0@, kv.1@)),
            None => line_entry(line@) is None,
        },
{
    let n: usize = line.unicode_len();
    let t = trim_with(line, None);
    if t.unicode_len() == 0 {
        return None;
    }
    let first = t.get_char(0);
    if first == '{' || first == '}' {
        return None;
    }
    let k = find_char(line, ':', 0);
    proof {
        crate::text::lemma_first_index_from_bounds(line@, ':', 0);
    }
    if k == n {
        return None;
    }
    let k2 = find_char(line, ':', k + 1);
    proof {
        crate::text::lemma_first_index_from_bounds(line@, ':', k + 1);
    }
    if k2 < n {
        return None;
    }
    let raw_key = line.substring_char(0, k);
    let raw_value = line.substring_char(k + 1, n);
    let key = trim_with(trim_with(raw_key, None), Some('"'));
    let value = trim_with(trim_with(trim_with(raw_value, None), Some(',')), Some('"'));
    Some((String::from_str(key), String::from_str(value)))
}

/// Look `key` up in a loosely-formed key/value JSON document: scan every
/// line for `"key": "value"` pairs; the last line carrying the key wins;
/// `None` when no line does.
pub fn address_from_document(doc: &str, key: &str) -> (r: Option<String>)
    ensures
        match r {
            Some(v) => doc_lookup(split_lines(doc@), key@) == Some(v@),
            None => doc_lookup(split_lines(doc@), key@) is None,
        },
{
    let lines = split_lines_exec(doc);
    let ghost lv = lines@.map_values(|l: String| l@);
    let mut i: usize = lines.len();
    proof {
        assert(lv.take(i as int) =~= lv);
    }
    while i > 0
        invariant
            i <= lines.len(),
            lv == lines@.map_values(|l: String| l@),
            lv == split_lines(doc@),
            doc_lookup(split_lines(doc@), key@) == doc_lookup(lv.take(i as int), key@),
        decreases i,
    {
        i = i - 1;
        let line = &lines[i];
        proof {
            assert(lv[i as int] == line@);
            assert(lv.take(i + 1).last() == line@);
            assert(lv.take(i + 1).drop_last() =~= lv.take(i as int));
        }
        match parse_line_entry(line.as_str()) {
            Some(kv) => {
                if kv.0.eq(&String::from_str(key)) {
                    return Some(kv.1);
                }
            },
            None => {},
        }
    }
    proof {
        assert(lv.take(0) =~= Seq::<Seq<char>>::empty());
    }
    None
}

/// The factory contract's address from the published address directory:
/// the one contractually required key is `factory_address`; a document
/// without it means the target chain has no published address.
pub fn factory_address(doc: &str) -> (r: Result<String, PipelineError>)
    ensures
        match r {
            Ok(v) => doc_lookup(split_lines(doc@), "factory_address"@) == Some(v@),
            Err(e) => e is UnknownNetwork && doc_lookup(
                split_lines(doc@),
                "factory_address"@,
            ) is None,
        },
{
    match address_from_document(doc, "factory_address") {
        Some(v) => Ok(v),
        None => Err(PipelineError::UnknownNetwork),
    }
}

} // verus!
