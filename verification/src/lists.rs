//! Comma-separated lists, as the web glue reads them.

use vstd::prelude::*;

use crate::host::comma_joined;

verus! {

/// Splits a text at every comma, as a reader of a comma-separated list does.
pub open spec fn split_commas(t: Seq<char>) -> Seq<Seq<char>>
    decreases t.len(),
{
    if t.len() == 0 {
        seq![seq![]]
    } else {
        let rest = split_commas(t.skip(1));
        if t[0] == ',' {
            seq![seq![]] + rest
        } else if rest.len() == 0 {
            rest
        } else {
            rest.update(0, seq![t[0]] + rest[0])
        }
    }
}

proof fn lemma_split_nonempty(t: Seq<char>)
    ensures
        split_commas(t).len() >= 1,
    decreases t.len(),
{
    if t.len() > 0 {
        lemma_split_nonempty(t.skip(1));
    }
}

proof fn lemma_split_no_comma(t: Seq<char>)
    requires
        !t.contains(','),
    ensures
        split_commas(t) == seq![t],
    decreases t.len(),
{
    if t.len() > 0 {
        assert(t[0] != ',');
        assert(!t.skip(1).contains(',')) by {
            if t.skip(1).contains(',') {
                let k = choose|k: int| 0 <= k < t.skip(1).len() && t.skip(1)[k] == ',';
                assert(t[k + 1] == ',');
            }
        }
        lemma_split_no_comma(t.skip(1));
        let rest = split_commas(t.skip(1));
        assert(rest == seq![t.skip(1)]);
        assert(seq![t[0]] + t.skip(1) =~= t);
        assert(rest.update(0, seq![t[0]] + rest[0]) =~= seq![t]);
        assert(split_commas(t) =~= seq![t]);
    } else {
        assert(t =~= Seq::<char>::empty());
    }
}

proof fn lemma_split_concat(a: Seq<char>, b: Seq<char>)
    ensures
        split_commas(a + seq![','] + b) == split_commas(a) + split_commas(b),
    decreases a.len(),
{
    let t = a + seq![','] + b;
    lemma_split_nonempty(b);
    if a.len() == 0 {
        assert(t.skip(1) =~= b);
        assert(t[0] == ',');
        assert(split_commas(a) + split_commas(b) =~= seq![seq![]] + split_commas(b));
    } else {
        assert(t.skip(1) =~= a.skip(1) + seq![','] + b);
        assert(t[0] == a[0]);
        lemma_split_concat(a.skip(1), b);
        lemma_split_nonempty(a.skip(1));
        let sa = split_commas(a.skip(1));
        let sb = split_commas(b);
        if a[0] == ',' {
            assert(split_commas(t) =~= seq![seq![]] + sa + sb);
            assert(split_commas(a) =~= seq![seq![]] + sa);
        } else {
            assert((sa + sb).update(0, seq![a[0]] + (sa + sb)[0]) =~= sa.update(
                0,
                seq![a[0]] + sa[0],
            ) + sb);
        }
    }
}

/// A list of texts without commas, joined by commas, splits back at its
/// commas into the same list: every origin reaches the reader whole and in
/// order.
pub proof fn lemma_comma_joined_splits(list: Seq<Seq<char>>)
    requires
        list.len() >= 1,
        forall|i: int| 0 <= i < list.len() ==> !(#[trigger] list[i]).contains(','),
    ensures
        split_commas(comma_joined(list)) == list,
    decreases list.len(),
{
    if list.len() == 1 {
        lemma_split_no_comma(list[0]);
        assert(seq![list[0]] =~= list);
    } else {
        let front = list.drop_last();
        assert forall|i: int| 0 <= i < front.len() implies !(#[trigger] front[i]).contains(',') by {
            assert(front[i] == list[i]);
        }
        lemma_comma_joined_splits(front);
        lemma_split_concat(comma_joined(front), list.last());
        assert(!list[list.len() - 1].contains(','));
        lemma_split_no_comma(list.last());
        assert(front + seq![list.last()] =~= list);
    }
}

} // verus!
