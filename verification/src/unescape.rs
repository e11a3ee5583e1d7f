//! Recovery of double-encoded string payloads: some upstream models escape
//! string values once more than the JSON layer itself.  The unescape pass
//! walks a value, leaves its structure alone, and rewrites every string
//! leaf, doubled escapes first, single escapes after.
use vstd::prelude::*;
use crate::json::{JsonValue, JsonV, json_view, views_of_arr, views_of_obj, lemma_json_arr_view,
    lemma_json_obj_view};
use crate::strings::{replace_seq, replace_chars, no_occurrence, lemma_replace_absent,
    str_to_chars, chars_to_string};

verus! {

broadcast use vstd::std_specs::vec::axiom_vec_index_decreases, vstd::seq::axiom_seq_index_decreases;

/// One pass of escape rewriting: doubled backslash sequences first, then
/// single ones, each replaced leftmost and non-overlapping.
pub open spec fn unescape_seq(s: Seq<char>) -> Seq<char> {
    let s1 = replace_seq(s, seq!['\\', '\\', 'n'], seq!['\n']);
    let s2 = replace_seq(s1, seq!['\\', '\\', 't'], seq!['\t']);
    let s3 = replace_seq(s2, seq!['\\', '\\', 'r'], seq!['\r']);
    let s4 = replace_seq(s3, seq!['\\', '\\', '"'], seq!['"']);
    let s5 = replace_seq(s4, seq!['\\', 'n'], seq!['\n']);
    let s6 = replace_seq(s5, seq!['\\', 't'], seq!['\t']);
    let s7 = replace_seq(s6, seq!['\\', 'r'], seq!['\r']);
    replace_seq(s7, seq!['\\', '"'], seq!['"'])
}

/// The escape rewriting applied to one string.
pub fn unescape_string(s: &str) -> (r: String)
    ensures
        r@ == unescape_seq(s@),
{
    let cs = str_to_chars(s);
    let bb_n: Vec<char> = vec!['\\', '\\', 'n'];
    let bb_t: Vec<char> = vec!['\\', '\\', 't'];
    let bb_r: Vec<char> = vec!['\\', '\\', 'r'];
    let bb_q: Vec<char> = vec!['\\', '\\', '"'];
    let b_n: Vec<char> = vec!['\\', 'n'];
    let b_t: Vec<char> = vec!['\\', 't'];
    let b_r: Vec<char> = vec!['\\', 'r'];
    let b_q: Vec<char> = vec!['\\', '"'];
    let nl: Vec<char> = vec!['\n'];
    let tab: Vec<char> = vec!['\t'];
    let cr: Vec<char> = vec!['\r'];
    let quote: Vec<char> = vec!['"'];
    proof {
        assert(bb_n@ =~= seq!['\\', '\\', 'n']);
        assert(bb_t@ =~= seq!['\\', '\\', 't']);
        assert(bb_r@ =~= seq!['\\', '\\', 'r']);
        assert(bb_q@ =~= seq!['\\', '\\', '"']);
        assert(b_n@ =~= seq!['\\', 'n']);
        assert(b_t@ =~= seq!['\\', 't']);
        assert(b_r@ =~= seq!['\\', 'r']);
        assert(b_q@ =~= seq!['\\', '"']);
        assert(nl@ =~= seq!['\n']);
        assert(tab@ =~= seq!['\t']);
        assert(cr@ =~= seq!['\r']);
        assert(quote@ =~= seq!['"']);
    }
    let c1 = replace_chars(&cs, &bb_n, &nl);
    let c2 = replace_chars(&c1, &bb_t, &tab);
    let c3 = replace_chars(&c2, &bb_r, &cr);
    let c4 = replace_chars(&c3, &bb_q, &quote);
    let c5 = replace_chars(&c4, &b_n, &nl);
    let c6 = replace_chars(&c5, &b_t, &tab);
    let c7 = replace_chars(&c6, &b_r, &cr);
    let c8 = replace_chars(&c7, &b_q, &quote);
    chars_to_string(&c8)
}

/// `s` holds none of the escape sequences the pass rewrites.
pub open spec fn escape_free(s: Seq<char>) -> bool {
    &&& no_occurrence(s, seq!['\\', 'n'])
    &&& no_occurrence(s, seq!['\\', 't'])
    &&& no_occurrence(s, seq!['\\', 'r'])
    &&& no_occurrence(s, seq!['\\', '"'])
}

/// A string free of some pattern is also free of every extension of it to
/// the left.
proof fn lemma_no_superstring(s: Seq<char>, p: Seq<char>, q: Seq<char>)
    requires
        no_occurrence(s, q),
        q.len() > 0,
    ensures
        no_occurrence(s, p + q),
{
    let pq = p + q;
    assert forall|i: int| 0 <= i && i + pq.len() <= s.len() implies #[trigger] s.subrange(
        i,
        i + pq.len(),
    ) != pq by {
        if s.subrange(i, i + pq.len()) == pq {
            let j = i + p.len();
            assert(s.subrange(j, j + q.len()) =~= q) by {
                assert forall|k: int| 0 <= k < q.len() implies s.subrange(j, j + q.len())[k]
                    == q[k] by {
                    assert(s.subrange(i, i + pq.len())[p.len() + k] == pq[p.len() + k]);
                }
            }
            assert(s.subrange(j, j + q.len()) != q);
        }
    }
}

/// On a string free of escape sequences the pass changes nothing.
pub proof fn lemma_unescape_escape_free(s: Seq<char>)
    requires
        escape_free(s),
    ensures
        unescape_seq(s) == s,
{
    lemma_no_superstring(s, seq!['\\'], seq!['\\', 'n']);
    lemma_no_superstring(s, seq!['\\'], seq!['\\', 't']);
    lemma_no_superstring(s, seq!['\\'], seq!['\\', 'r']);
    lemma_no_superstring(s, seq!['\\'], seq!['\\', '"']);
    assert(seq!['\\'] + seq!['\\', 'n'] =~= seq!['\\', '\\', 'n']);
    assert(seq!['\\'] + seq!['\\', 't'] =~= seq!['\\', '\\', 't']);
    assert(seq!['\\'] + seq!['\\', 'r'] =~= seq!['\\', '\\', 'r']);
    assert(seq!['\\'] + seq!['\\', '"'] =~= seq!['\\', '\\', '"']);
    lemma_replace_absent(s, seq!['\\', '\\', 'n'], seq!['\n']);
    lemma_replace_absent(s, seq!['\\', '\\', 't'], seq!['\t']);
    lemma_replace_absent(s, seq!['\\', '\\', 'r'], seq!['\r']);
    lemma_replace_absent(s, seq!['\\', '\\', '"'], seq!['"']);
    lemma_replace_absent(s, seq!['\\', 'n'], seq!['\n']);
    lemma_replace_absent(s, seq!['\\', 't'], seq!['\t']);
    lemma_replace_absent(s, seq!['\\', 'r'], seq!['\r']);
    lemma_replace_absent(s, seq!['\\', '"'], seq!['"']);
}

/// The pass is idempotent once its result is free of escape sequences:
/// running it a second time returns the same string.
pub proof fn lemma_unescape_idempotent(s: Seq<char>)
    requires
        escape_free(unescape_seq(s)),
    ensures
        unescape_seq(unescape_seq(s)) == unescape_seq(s),
{
    lemma_unescape_escape_free(unescape_seq(s));
}

/// The escape rewriting applied to every string leaf of a value, with the
/// structure kept.
pub open spec fn spec_unescape_json(v: JsonV) -> JsonV
    decreases v, 0int,
{
    match v {
        JsonV::Null => JsonV::Null,
        JsonV::Bool(b) => JsonV::Bool(b),
        JsonV::Int(i) => JsonV::Int(i),
        JsonV::Str(s) => JsonV::Str(unescape_seq(s)),
        JsonV::Arr(items) => JsonV::Arr(spec_unescape_items(items, 0)),
        JsonV::Obj(entries) => JsonV::Obj(spec_unescape_entries(entries, 0)),
    }
}

pub open spec fn spec_unescape_items(items: Seq<JsonV>, i: int) -> Seq<JsonV>
    decreases items, items.len() - i,
{
    if 0 <= i < items.len() {
        seq![spec_unescape_json(items[i])] + spec_unescape_items(items, i + 1)
    } else {
        Seq::empty()
    }
}

pub open spec fn spec_unescape_entries(entries: Seq<(Seq<char>, JsonV)>, i: int) -> Seq<
    (Seq<char>, JsonV),
>
    decreases entries, entries.len() - i,
{
    if 0 <= i < entries.len() {
        seq![(entries[i].0, spec_unescape_json(entries[i].1))] + spec_unescape_entries(
            entries,
            i + 1,
        )
    } else {
        Seq::empty()
    }
}

proof fn lemma_unescape_items_from(items: Seq<JsonV>, i: int)
    requires
        0 <= i <= items.len(),
    ensures
        spec_unescape_items(items, i) =~= Seq::new(
            (items.len() - i) as nat,
            |j: int| spec_unescape_json(items[i + j]),
        ),
    decreases items.len() - i,
{
    if i < items.len() {
        lemma_unescape_items_from(items, i + 1);
    }
}

proof fn lemma_unescape_entries_from(entries: Seq<(Seq<char>, JsonV)>, i: int)
    requires
        0 <= i <= entries.len(),
    ensures
        spec_unescape_entries(entries, i) =~= Seq::new(
            (entries.len() - i) as nat,
            |j: int| (entries[i + j].0, spec_unescape_json(entries[i + j].1)),
        ),
    decreases entries.len() - i,
{
    if i < entries.len() {
        lemma_unescape_entries_from(entries, i + 1);
    }
}

/// The escape rewriting applied to every string leaf of a value.
#[verifier::loop_isolation(false)]
pub fn unescape_json_values(value: &JsonValue) -> (r: JsonValue)
    ensures
        json_view(&r) == spec_unescape_json(json_view(value)),
    decreases value,
{
    match value {
        JsonValue::Null => JsonValue::Null,
        JsonValue::Bool(b) => JsonValue::Bool(*b),
        JsonValue::Int(i) => JsonValue::Int(*i),
        JsonValue::Str(s) => JsonValue::Str(unescape_string(s.as_str())),
        JsonValue::Arr(items) => {
            let mut out: Vec<JsonValue> = Vec::new();
            let n = items.len();
            let mut i: usize = 0;
            while i < n
                invariant
                    n == items@.len(),
                    i <= n,
                    out@.len() == i,
                    forall|j: int| 0 <= j < i ==> json_view(&out@[j]) == spec_unescape_json(
                        json_view(&items@[j]),
                    ),
                decreases n - i,
            {
                proof {
                    assert(decreases_to!(*value => *items));
                    assert(decreases_to!(*items => items@[i as int]));
                }
                let u = unescape_json_values(&items[i]);
                out.push(u);
                i = i + 1;
            }
            proof {
                lemma_json_arr_view(items);
                lemma_json_arr_view(&out);
                lemma_unescape_items_from(views_of_arr(items@), 0);
                assert(views_of_arr(out@) =~= spec_unescape_items(views_of_arr(items@), 0));
            }
            JsonValue::Arr(out)
        },
        JsonValue::Obj(entries) => {
            let mut out: Vec<(String, JsonValue)> = Vec::new();
            let n = entries.len();
            let mut i: usize = 0;
            while i < n
                invariant
                    n == entries@.len(),
                    i <= n,
                    out@.len() == i,
                    forall|j: int| 0 <= j < i ==> out@[j].0@ == entries@[j].0@
                        && json_view(&out@[j].1) == spec_unescape_json(json_view(&entries@[j].1)),
                decreases n - i,
            {
                let k = entries[i].0.clone();
                proof {
                    assert(decreases_to!(*value => *entries));
                    assert(decreases_to!(*entries => entries@[i as int]));
                }
                let u = unescape_json_values(&entries[i].1);
                out.push((k, u));
                i = i + 1;
            }
            proof {
                lemma_json_obj_view(entries);
                lemma_json_obj_view(&out);
                lemma_unescape_entries_from(views_of_obj(entries@), 0);
                assert(views_of_obj(out@) =~= spec_unescape_entries(views_of_obj(entries@), 0));
            }
            JsonValue::Obj(out)
        },
    }
}

} // verus!
