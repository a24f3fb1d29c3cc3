//! The order in which the startup scripts run: by file name, smallest first.

use vstd::prelude::*;
use crate::text::{chars_of, join_text};

verus! {

/// `a` comes before `b` or is `b`, character by character; a name comes
/// before every name that it is a proper prefix of.
pub open spec fn lex_le(a: Seq<char>, b: Seq<char>) -> bool
    decreases a.len(),
{
    if a.len() == 0 {
        true
    } else if b.len() == 0 {
        false
    } else if a[0] < b[0] {
        true
    } else if a[0] > b[0] {
        false
    } else {
        lex_le(a.skip(1), b.skip(1))
    }
}

/// Each name of the list comes before or is each name after it.
pub open spec fn sorted(list: Seq<Seq<char>>) -> bool {
    forall|i: int, j: int| 0 <= i < j < list.len() ==> lex_le(#[trigger] list[i], #[trigger] list[j])
}

/// Each name of the list comes before each name after it, and is not it.
pub open spec fn strictly_sorted(list: Seq<Seq<char>>) -> bool {
    forall|i: int, j: int|
        0 <= i < j < list.len() ==> lex_le(#[trigger] list[i], #[trigger] list[j]) && list[i]
            != list[j]
}

/// The names of a list of strings.
pub open spec fn names(list: Seq<String>) -> Seq<Seq<char>> {
    list.map_values(|s: String| s@)
}

/// Of two names one comes before the other, or they are the same.
pub proof fn lemma_lex_total(a: Seq<char>, b: Seq<char>)
    ensures
        lex_le(a, b) || lex_le(b, a),
    decreases a.len(),
{
    if a.len() > 0 && b.len() > 0 && a[0] == b[0] {
        lemma_lex_total(a.skip(1), b.skip(1));
    }
}

/// The order of names is transitive.
pub proof fn lemma_lex_transitive(a: Seq<char>, b: Seq<char>, c: Seq<char>)
    requires
        lex_le(a, b),
        lex_le(b, c),
    ensures
        lex_le(a, c),
    decreases a.len(),
{
    if a.len() > 0 && b.len() > 0 && c.len() > 0 && a[0] == b[0] && b[0] == c[0] {
        lemma_lex_transitive(a.skip(1), b.skip(1), c.skip(1));
    }
}

/// Two names that each come before or are the other are the same name.
pub proof fn lemma_lex_antisymmetric(a: Seq<char>, b: Seq<char>)
    requires
        lex_le(a, b),
        lex_le(b, a),
    ensures
        a == b,
    decreases a.len(),
{
    if a.len() > 0 && b.len() > 0 {
        lemma_lex_antisymmetric(a.skip(1), b.skip(1));
        assert(a =~= seq![a[0]] + a.skip(1));
        assert(b =~= seq![b[0]] + b.skip(1));
    } else {
        assert(a =~= b);
    }
}

/// A sorted list of names that are all different is in strict order.
pub proof fn lemma_sorted_distinct_is_strict(list: Seq<Seq<char>>)
    requires
        sorted(list),
        list.no_duplicates(),
    ensures
        strictly_sorted(list),
{
}

/// Whether `a` comes before `b` or is `b`.
pub fn name_le(a: &str, b: &str) -> (le: bool)
    ensures
        le == lex_le(a@, b@),
{
    let x = chars_of(a);
    let y = chars_of(b);
    let mut i: usize = 0;
    proof {
        assert(x@.skip(0) =~= x@);
        assert(y@.skip(0) =~= y@);
    }
    while i < x.len() && i < y.len()
        invariant
            i <= x.len(),
            i <= y.len(),
            x@ == a@,
            y@ == b@,
            lex_le(a@, b@) == lex_le(x@.skip(i as int), y@.skip(i as int)),
        decreases x.len() - i,
    {
        if x[i] < y[i] {
            return true;
        }
        if x[i] > y[i] {
            return false;
        }
        proof {
            assert(x@.skip(i as int).skip(1) =~= x@.skip(i + 1));
            assert(y@.skip(i as int).skip(1) =~= y@.skip(i + 1));
        }
        i += 1;
    }
    i >= x.len()
}

/// The scripts in the order in which they run: sorted by name, and the same
/// scripts as `paths`, each as often as it stands there. Names that are all
/// different come out in strict order.
pub fn order_postscripts(paths: &Vec<String>) -> (ordered: Vec<String>)
    ensures
        sorted(names(ordered@)),
        names(ordered@).to_multiset() == names(paths@).to_multiset(),
        ordered.len() == paths.len(),
        names(paths@).no_duplicates() ==> strictly_sorted(names(ordered@)),
{
    let ghost all = names(paths@);
    let mut out: Vec<String> = Vec::new();
    let mut i: usize = 0;
    proof {
        assert(all.take(0) =~= Seq::<Seq<char>>::empty());
        assert(names(out@) =~= Seq::<Seq<char>>::empty());
    }
    while i < paths.len()
        invariant
            i <= paths.len(),
            all == names(paths@),
            out.len() == i,
            sorted(names(out@)),
            names(out@).to_multiset() == all.take(i as int).to_multiset(),
        decreases paths.len() - i,
    {
        let name = paths[i].clone();
        let ghost before = names(out@);
        let mut p: usize = 0;
        while p < out.len() && name_le(out[p].as_str(), name.as_str())
            invariant
                p <= out.len(),
                before == names(out@),
                forall|j: int| 0 <= j < p ==> lex_le(#[trigger] before[j], name@),
            decreases out.len() - p,
        {
            p += 1;
        }
        proof {
            assert forall|j: int| p <= j < before.len() implies lex_le(
                name@,
                #[trigger] before[j],
            ) by {
                lemma_lex_total(before[p as int], name@);
                if j > p {
                    lemma_lex_transitive(name@, before[p as int], before[j]);
                }
            }
        }
        out.insert(p, name);
        proof {
            let after = names(out@);
            assert(after =~= before.insert(p as int, name@));
            assert(all[i as int] == name@);
            assert(all.take(i + 1) =~= all.take(i as int).push(name@));
            vstd::seq_lib::to_multiset_insert(before, p as int, name@);
            vstd::seq_lib::to_multiset_build(all.take(i as int), name@);
            assert(after.to_multiset() =~= all.take(i + 1).to_multiset());
            assert forall|a: int, b: int| 0 <= a < b < after.len() implies lex_le(
                #[trigger] after[a],
                #[trigger] after[b],
            ) by {
                if a < p && b > p {
                    assert(after[a] == before[a]);
                    assert(after[b] == before[b - 1]);
                } else if a < p && b < p {
                    assert(after[a] == before[a]);
                    assert(after[b] == before[b]);
                } else if a < p && b == p {
                    assert(after[a] == before[a]);
                } else if a == p {
                    assert(after[b] == before[b - 1]);
                } else {
                    assert(after[a] == before[a - 1]);
                    assert(after[b] == before[b - 1]);
                }
            }
        }
        i += 1;
    }
    proof {
        assert(all.take(i as int) =~= all);
        if all.no_duplicates() {
            all.lemma_multiset_has_no_duplicates();
            names(out@).lemma_multiset_has_no_duplicates_conv();
            lemma_sorted_distinct_is_strict(names(out@));
        }
    }
    out
}

/// The name under which the engine runs the script at `path`.
pub open spec fn spec_script_name(path: Seq<char>) -> Seq<char> {
    "(tera:postscripts) "@ + path
}

/// The name under which the engine runs the script at `path`.
pub fn script_name(path: &str) -> (name: String)
    ensures
        name@ == spec_script_name(path@),
{
    join_text("(tera:postscripts) ", path)
}

} // verus!
