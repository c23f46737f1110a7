//! Event fields rendered as text: ` {key=value, ...}` in key order.
use crate::base::value::Value;
use crate::base::value::value_text;
use crate::journal::fields::{clone_entry, Fields};
use crate::text::{bytes_le, push_str, string_le, utf8};
use vstd::prelude::*;

verus! {

/// The Rust debug form of a string: quoted, with escapes, as `{:?}` writes it.
pub uninterp spec fn spec_debug_str(s: Seq<char>) -> Seq<char>;

/// `format!("{:?}", s)` for a string slice: the std `Debug` text of a `str`.
///
/// The result is the named value `spec_debug_str(s@)`.
#[verifier::external_body]
fn debug_str(s: &str) -> (r: String)
    ensures
        r@ == spec_debug_str(s@),
{
    format!("{:?}", s)
}

/// Entry `a`'s key orders before or equal to entry `b`'s, by bytes.
pub open spec fn key_le(a: (String, Value), b: (String, Value)) -> bool {
    bytes_le(utf8(a.0@), utf8(b.0@))
}

/// The position at or after `i` where `e` is inserted into sorted `s`: before
/// the first entry whose key orders after `e`'s.
pub open spec fn insert_pos(s: Seq<(String, Value)>, e: (String, Value), i: int) -> int
    decreases s.len() - i,
{
    if i >= s.len() || i < 0 {
        s.len() as int
    } else if !key_le(s[i], e) {
        i
    } else {
        insert_pos(s, e, i + 1)
    }
}

/// `s` with `e` inserted after every entry whose key orders before or equal to it.
pub open spec fn insert_sorted(s: Seq<(String, Value)>, e: (String, Value)) -> Seq<(String, Value)> {
    s.insert(insert_pos(s, e, 0), e)
}

/// Entries stably sorted by key: each entry inserted in turn into the sorted
/// earlier ones, after those whose keys order before or equal to it.
pub open spec fn sort_by_key(s: Seq<(String, Value)>) -> Seq<(String, Value)>
    decreases s.len(),
{
    if s.len() == 0 {
        s
    } else {
        insert_sorted(sort_by_key(s.drop_last()), s.last())
    }
}

/// A field value as text: strings in debug form, others in display form.
pub open spec fn field_value_text(v: Value) -> Seq<char> {
    match v {
        Value::String(s) => spec_debug_str(s@),
        _ => value_text(v),
    }
}

/// `key=value`.
pub open spec fn pair_text(e: (String, Value)) -> Seq<char> {
    e.0@ + "="@ + field_value_text(e.1)
}

/// The pairs joined with `, `.
pub open spec fn join_pairs(s: Seq<(String, Value)>) -> Seq<char>
    decreases s.len(),
{
    if s.len() == 0 {
        Seq::empty()
    } else if s.len() == 1 {
        pair_text(s[0])
    } else {
        join_pairs(s.drop_last()) + ", "@ + pair_text(s.last())
    }
}

/// ` {key=value, ...}` in key order, or nothing when there are no fields.
pub open spec fn fields_text(entries: Seq<(String, Value)>) -> Seq<char> {
    if entries.len() == 0 {
        Seq::empty()
    } else {
        " {"@ + join_pairs(sort_by_key(entries)) + "}"@
    }
}

proof fn lemma_insert_pos_range(s: Seq<(String, Value)>, e: (String, Value), i: int)
    requires
        0 <= i <= s.len(),
    ensures
        i <= insert_pos(s, e, i) <= s.len(),
    decreases s.len() - i,
{
    if i < s.len() && key_le(s[i], e) {
        lemma_insert_pos_range(s, e, i + 1);
    }
}

fn insert_sorted_exec(v: &mut Vec<(String, Value)>, e: (String, Value))
    ensures
        final(v)@ == insert_sorted(old(v)@, e),
{
    let mut i: usize = 0;
    while i < v.len() && string_le(&v[i].0, &e.0)
        invariant
            i <= v@.len(),
            insert_pos(v@, e, 0) == insert_pos(v@, e, i as int),
        decreases v@.len() - i,
    {
        i = i + 1;
    }
    proof {
        lemma_insert_pos_range(v@, e, i as int);
    }
    v.insert(i, e);
}

/// The entries of `fields`, stably sorted by key.
pub fn sorted_entries(fields: &Fields) -> (r: Vec<(String, Value)>)
    ensures
        r@ == sort_by_key(fields@),
{
    let entries = fields.entries();
    let mut out: Vec<(String, Value)> = Vec::new();
    let mut i: usize = 0;
    while i < entries.len()
        invariant
            i <= entries@.len(),
            entries@ == fields@,
            out@ == sort_by_key(entries@.take(i as int)),
        decreases entries@.len() - i,
    {
        let e = clone_entry(&entries[i]);
        insert_sorted_exec(&mut out, e);
        proof {
            assert(entries@.take(i + 1).drop_last() =~= entries@.take(i as int));
        }
        i = i + 1;
    }
    assert(entries@.take(i as int) =~= entries@);
    out
}

/// Appends a field value as text.
pub fn push_field_value(out: &mut String, v: &Value)
    ensures
        final(out)@ == old(out)@ + field_value_text(*v),
{
    match v {
        Value::String(s) => {
            let d = debug_str(s.as_str());
            out.append(d.as_str());
        },
        _ => v.push_text(out),
    }
}

/// Appends ` {key=value, ...}` in key order, or nothing for no fields.
pub fn append_fields_text(out: &mut String, fields: &Fields)
    ensures
        final(out)@ == old(out)@ + fields_text(fields@),
{
    if fields.is_empty() {
        assert(out@ =~= old(out)@ + fields_text(fields@));
        return;
    }
    let pairs = sorted_entries(fields);
    let ghost start = out@;
    push_str(out, " {");
    let mut idx: usize = 0;
    while idx < pairs.len()
        invariant
            idx <= pairs@.len(),
            out@ == start + " {"@ + join_pairs(pairs@.take(idx as int)),
        decreases pairs@.len() - idx,
    {
        let ghost before = out@;
        if idx > 0 {
            push_str(out, ", ");
        }
        push_str(out, pairs[idx].0.as_str());
        push_str(out, "=");
        push_field_value(out, &pairs[idx].1);
        proof {
            let t = pairs@.take(idx + 1);
            assert(t.drop_last() =~= pairs@.take(idx as int));
            assert(t.last() == pairs@[idx as int]);
            if idx == 0 {
                assert(join_pairs(pairs@.take(0)) =~= Seq::<char>::empty());
                assert(out@ =~= start + " {"@ + join_pairs(t));
            } else {
                assert(out@ =~= start + " {"@ + join_pairs(t));
            }
        }
        idx = idx + 1;
    }
    push_str(out, "}");
    assert(pairs@.take(idx as int) =~= pairs@);
    assert(out@ =~= old(out)@ + fields_text(fields@));
}

} // verus!
