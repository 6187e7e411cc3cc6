//! The order of strings by their characters, and sorting by it.

use crate::json::strings_view;
use crate::text::chars_of;
use vstd::prelude::*;
use vstd::seq_lib::to_multiset_build;
use vstd::seq_lib::to_multiset_insert;
use vstd::string::StringExecFns;

verus! {

/// Whether `a` comes before `b` or equals it, character by character; a text
/// comes before every text that it begins.
pub open spec fn lex_le(a: Seq<char>, b: Seq<char>) -> bool
    decreases a.len(),
{
    if a.len() == 0 {
        true
    } else if b.len() == 0 {
        false
    } else if a[0] != b[0] {
        a[0] < b[0]
    } else {
        lex_le(a.drop_first(), b.drop_first())
    }
}

/// Of two texts one comes before the other or equals it.
pub proof fn lemma_lex_total(a: Seq<char>, b: Seq<char>)
    ensures
        lex_le(a, b) || lex_le(b, a),
    decreases a.len(),
{
    if a.len() > 0 && b.len() > 0 && a[0] == b[0] {
        lemma_lex_total(a.drop_first(), b.drop_first());
    }
}

/// What comes before something that comes before a third comes before the
/// third.
pub proof fn lemma_lex_transitive(a: Seq<char>, b: Seq<char>, c: Seq<char>)
    requires
        lex_le(a, b),
        lex_le(b, c),
    ensures
        lex_le(a, c),
    decreases a.len(),
{
    if a.len() > 0 && b.len() > 0 && c.len() > 0 && a[0] == b[0] && b[0] == c[0] {
        lemma_lex_transitive(a.drop_first(), b.drop_first(), c.drop_first());
    }
}

/// Whether the texts stand in ascending order.
pub open spec fn sorted(items: Seq<Seq<char>>) -> bool {
    forall|i: int, j: int| 0 <= i < j < items.len() ==> lex_le(items[i], items[j])
}

/// Whether `a` comes before `b` or equals it.
pub fn chars_le(a: &Vec<char>, b: &Vec<char>) -> (r: bool)
    ensures
        r == lex_le(a@, b@),
{
    let mut i: usize = 0;
    assert(a@.skip(0) =~= a@);
    assert(b@.skip(0) =~= b@);
    while i < a.len() && i < b.len()
        invariant
            i <= a.len(),
            i <= b.len(),
            lex_le(a@, b@) == lex_le(a@.skip(i as int), b@.skip(i as int)),
        decreases a.len() - i,
    {
        if a[i] != b[i] {
            return a[i] < b[i];
        }
        assert(a@.skip(i as int).drop_first() =~= a@.skip(i + 1));
        assert(b@.skip(i as int).drop_first() =~= b@.skip(i + 1));
        i += 1;
    }
    i >= a.len()
}

/// The strings in ascending order.
pub fn sort_strings(items: &Vec<String>) -> (out: Vec<String>)
    ensures
        sorted(strings_view(out@)),
        strings_view(out@).to_multiset() == strings_view(items@).to_multiset(),
        out@.len() == items@.len(),
{
    let ghost all = strings_view(items@);
    let mut out: Vec<String> = Vec::new();
    let mut i: usize = 0;
    assert(strings_view(out@) =~= all.take(0));
    while i < items.len()
        invariant
            i <= items.len(),
            all == strings_view(items@),
            sorted(strings_view(out@)),
            strings_view(out@).to_multiset() == all.take(i as int).to_multiset(),
            out@.len() == i,
        decreases items.len() - i,
    {
        let item = String::from_str(items[i].as_str());
        let key = chars_of(item.as_str());
        let ghost before = strings_view(out@);
        let mut j: usize = 0;
        while j < out.len() && chars_le(&chars_of(out[j].as_str()), &key)
            invariant
                j <= out.len(),
                before == strings_view(out@),
                key@ == item@,
                forall|k: int| 0 <= k < j ==> lex_le(before[k], item@),
            decreases out.len() - j,
        {
            j += 1;
        }
        proof {
            assert forall|k: int| j <= k < before.len() implies lex_le(item@, before[k]) by {
                lemma_lex_total(before[j as int], item@);
                if k > j {
                    lemma_lex_transitive(item@, before[j as int], before[k]);
                }
            }
            to_multiset_insert(before, j as int, item@);
            to_multiset_build(all.take(i as int), item@);
            assert(all.take(i + 1) =~= all.take(i as int).push(item@));
        }
        out.insert(j, item);
        proof {
            let after = strings_view(out@);
            assert(after =~= before.insert(j as int, item@));
            assert forall|a: int, b: int| 0 <= a < b < after.len() implies lex_le(
                after[a],
                after[b],
            ) by {
                if a < j && b > j {
                    assert(after[a] == before[a]);
                    assert(after[b] == before[b - 1]);
                } else if a < j && b == j {
                    assert(after[a] == before[a]);
                } else if a < j {
                    assert(after[a] == before[a] && after[b] == before[b]);
                } else if a == j {
                    assert(after[b] == before[b - 1]);
                } else {
                    assert(after[a] == before[a - 1] && after[b] == before[b - 1]);
                }
            }
        }
        i += 1;
    }
    assert(all.take(items.len() as int) =~= all);
    out
}

} // verus!
