//! What `append_entry` and `remove_entry` promise of the entries of the text
//! they return.

use vstd::prelude::*;
use crate::text::{split_on, join_with, lemma_split_nonempty};
use crate::system::path_entry::{
    semicolon, normalized, non_empty, path_entries, path_has, entries_without, appended, removed,
};

verus! {

/// Whether no piece of `pieces` holds a `;`.
pub open spec fn free_of_semicolons(pieces: Seq<Seq<char>>) -> bool {
    forall|i: int| 0 <= i < pieces.len() ==> !(#[trigger] pieces[i]).contains(';')
}

/// Whether every piece of `pieces` is non-empty.
pub open spec fn all_non_empty(pieces: Seq<Seq<char>>) -> bool {
    forall|i: int| 0 <= i < pieces.len() ==> (#[trigger] pieces[i]).len() > 0
}

/// Splitting `a + b`, where `b` holds no separator, extends the last piece of `a` by `b`.
proof fn lemma_split_extend(a: Seq<char>, b: Seq<char>, seps: Seq<char>)
    requires
        forall|j: int| 0 <= j < b.len() ==> !seps.contains(#[trigger] b[j]),
    ensures
        split_on(a + b, seps).len() == split_on(a, seps).len(),
        split_on(a + b, seps) == split_on(a, seps).update(
            split_on(a, seps).len() - 1,
            split_on(a, seps).last() + b,
        ),
    decreases b.len(),
{
    lemma_split_nonempty(a, seps);
    let sa = split_on(a, seps);
    if b.len() == 0 {
        assert(a + b =~= a);
        assert(sa.last() + b =~= sa.last());
        assert(sa.update(sa.len() - 1, sa.last() + b) =~= sa);
    } else {
        let s = a + b;
        assert(s.drop_last() =~= a + b.drop_last());
        assert(s.last() == b.last());
        lemma_split_extend(a, b.drop_last(), seps);
        let prev = split_on(a + b.drop_last(), seps);
        assert(!seps.contains(b[b.len() - 1]));
        assert(prev.last() == sa.last() + b.drop_last());
        assert(prev.last().push(b.last()) =~= sa.last() + b);
        assert(split_on(s, seps) == prev.update(prev.len() - 1, prev.last().push(s.last())));
        assert(split_on(s, seps) =~= sa.update(sa.len() - 1, sa.last() + b));
    }
}

/// No piece of a split holds a separator.
proof fn lemma_split_pieces_free(s: Seq<char>, seps: Seq<char>)
    ensures
        forall|i: int, j: int|
            0 <= i < split_on(s, seps).len() && 0 <= j < split_on(s, seps)[i].len()
                ==> !seps.contains(#[trigger] split_on(s, seps)[i][j]),
    decreases s.len(),
{
    if s.len() > 0 {
        lemma_split_pieces_free(s.drop_last(), seps);
        lemma_split_nonempty(s.drop_last(), seps);
    }
}

/// Splitting a `;`-joined list of `;`-free pieces gives the pieces back (one
/// empty piece for the empty list).
proof fn lemma_split_join(pieces: Seq<Seq<char>>)
    requires
        free_of_semicolons(pieces),
    ensures
        pieces.len() == 0 ==> split_on(join_with(pieces, semicolon()), semicolon()) == seq![
            Seq::<char>::empty(),
        ],
        pieces.len() > 0 ==> split_on(join_with(pieces, semicolon()), semicolon()) == pieces,
    decreases pieces.len(),
{
    let e = Seq::<char>::empty();
    if pieces.len() == 0 {
    } else if pieces.len() == 1 {
        let p = pieces[0];
        assert(forall|j: int| 0 <= j < p.len() ==> !semicolon().contains(#[trigger] p[j])) by {
            assert forall|j: int| 0 <= j < p.len() implies !semicolon().contains(#[trigger] p[j]) by {
                if semicolon().contains(p[j]) {
                    assert(semicolon()[0] == ';');
                    assert(p.contains(';'));
                }
            }
        }
        lemma_split_extend(e, p, semicolon());
        assert(e + p =~= p);
        assert(split_on(e, semicolon()) == seq![e]);
        assert(e + p == p);
        assert(seq![e].update(0, e + p) =~= pieces);
    } else {
        let front = pieces.drop_last();
        let last = pieces.last();
        assert(free_of_semicolons(front)) by {
            assert forall|i: int| 0 <= i < front.len() implies !(#[trigger] front[i]).contains(';') by {
                assert(front[i] == pieces[i]);
            }
        }
        lemma_split_join(front);
        let j = join_with(front, semicolon());
        let js = j + semicolon();
        assert(js.drop_last() =~= j);
        assert(js.last() == ';');
        assert(semicolon().contains(';')) by {
            assert(semicolon()[0] == ';');
        }
        assert(split_on(js, semicolon()) == split_on(j, semicolon()).push(e));
        assert(forall|k: int| 0 <= k < last.len() ==> !semicolon().contains(#[trigger] last[k])) by {
            assert forall|k: int| 0 <= k < last.len() implies !semicolon().contains(#[trigger] last[k]) by {
                if semicolon().contains(last[k]) {
                    assert(semicolon()[0] == ';');
                    assert(last.contains(';'));
                }
            }
        }
        lemma_split_extend(js, last, semicolon());
        assert(join_with(pieces, semicolon()) == j + semicolon() + last);
        assert(split_on(join_with(pieces, semicolon()), semicolon()) =~= front.push(e).update(
            front.len() as int,
            e + last,
        ));
        assert(e + last =~= last);
        assert(front.push(e).update(front.len() as int, e + last) =~= pieces);
    }
}

/// The non-empty pieces of a list are pieces of it, and `non_empty` leaves a
/// list of non-empty pieces as it is.
pub proof fn lemma_non_empty(pieces: Seq<Seq<char>>)
    ensures
        all_non_empty(non_empty(pieces)),
        forall|i: int|
            0 <= i < non_empty(pieces).len() ==> pieces.contains(#[trigger] non_empty(pieces)[i]),
        all_non_empty(pieces) ==> non_empty(pieces) == pieces,
        non_empty(pieces).len() <= pieces.len(),
    decreases pieces.len(),
{
    if pieces.len() > 0 {
        let front = pieces.drop_last();
        lemma_non_empty(front);
        assert forall|i: int| 0 <= i < non_empty(pieces).len() implies pieces.contains(
            #[trigger] non_empty(pieces)[i],
        ) by {
            if i < non_empty(front).len() {
                let x = non_empty(front)[i];
                assert(front.contains(x));
                let k = choose|k: int| 0 <= k < front.len() && front[k] == x;
                assert(pieces[k] == x);
            } else {
                assert(non_empty(pieces)[i] == pieces[pieces.len() - 1]);
            }
        }
        if all_non_empty(pieces) {
            assert(all_non_empty(front)) by {
                assert forall|i: int| 0 <= i < front.len() implies (#[trigger] front[i]).len() > 0 by {
                    assert(front[i] == pieces[i]);
                }
            }
            assert(pieces.last().len() > 0);
            assert(front.push(pieces.last()) =~= pieces);
        }
    }
}

/// What `entries_without` keeps are pieces of its input that do not compare
/// equal to the given entry, and it keeps everything when nothing does.
pub proof fn lemma_entries_without(entries: Seq<Seq<char>>, n: Seq<char>)
    ensures
        forall|i: int|
            0 <= i < entries_without(entries, n).len() ==> entries.contains(
                #[trigger] entries_without(entries, n)[i],
            ) && normalized(entries_without(entries, n)[i]) != n,
        (forall|i: int| 0 <= i < entries.len() ==> normalized(#[trigger] entries[i]) != n)
            ==> entries_without(entries, n) == entries,
    decreases entries.len(),
{
    if entries.len() > 0 {
        let front = entries.drop_last();
        lemma_entries_without(front, n);
        let r = entries_without(entries, n);
        assert forall|i: int| 0 <= i < r.len() implies entries.contains(#[trigger] r[i])
            && normalized(r[i]) != n by {
            if i < entries_without(front, n).len() {
                let x = entries_without(front, n)[i];
                assert(r[i] == x);
                assert(front.contains(x));
                let k = choose|k: int| 0 <= k < front.len() && front[k] == x;
                assert(entries[k] == x);
            } else {
                assert(r[i] == entries[entries.len() - 1]);
            }
        }
        if forall|i: int| 0 <= i < entries.len() ==> normalized(#[trigger] entries[i]) != n {
            assert forall|i: int| 0 <= i < front.len() implies normalized(#[trigger] front[i]) != n by {
                assert(front[i] == entries[i]);
            }
            assert(normalized(entries[entries.len() - 1]) != n);
            assert(front.push(entries.last()) =~= entries);
        }
    }
}

/// The entries of a `PATH` text hold no `;` and are not empty.
proof fn lemma_entries_shape(path: Seq<char>)
    ensures
        free_of_semicolons(path_entries(path)),
        all_non_empty(path_entries(path)),
{
    let pieces = split_on(path, semicolon());
    lemma_split_pieces_free(path, semicolon());
    lemma_non_empty(pieces);
    assert(semicolon().contains(';')) by {
        assert(semicolon()[0] == ';');
    }
    assert forall|i: int| 0 <= i < path_entries(path).len() implies !(
    #[trigger] path_entries(path)[i]).contains(';') by {
        let x = path_entries(path)[i];
        assert(pieces.contains(x));
        let k = choose|k: int| 0 <= k < pieces.len() && pieces[k] == x;
        if x.contains(';') {
            let j = choose|j: int| 0 <= j < x.len() && x[j] == ';';
            assert(!semicolon().contains(pieces[k][j]));
        }
    }
}

/// Appending a non-empty, `;`-free entry to any `PATH` text gives a text that
/// contains that entry (in normal form).
pub proof fn lemma_append_then_contains(current: Seq<char>, new_entry: Seq<char>)
    requires
        new_entry.len() > 0,
        !new_entry.contains(';'),
    ensures
        path_has(appended(current, new_entry), normalized(new_entry)),
{
    let e = Seq::<char>::empty();
    let head = if current.len() == 0 || current.last() == ';' {
        current
    } else {
        current + semicolon()
    };
    assert(appended(current, new_entry) =~= head + new_entry);
    assert(semicolon().contains(';')) by {
        assert(semicolon()[0] == ';');
    }
    lemma_split_nonempty(head, semicolon());
    if head.len() == 0 {
        assert(split_on(head, semicolon()) == seq![e]);
    } else {
        assert(head.last() == ';');
        assert(split_on(head, semicolon()) == split_on(head.drop_last(), semicolon()).push(e));
    }
    let sh = split_on(head, semicolon());
    assert(sh.last() == e);
    assert(forall|j: int| 0 <= j < new_entry.len() ==> !semicolon().contains(#[trigger] new_entry[j]))
        by {
        assert forall|j: int| 0 <= j < new_entry.len() implies !semicolon().contains(
            #[trigger] new_entry[j],
        ) by {
            if semicolon().contains(new_entry[j]) {
                assert(semicolon()[0] == ';');
                assert(new_entry.contains(';'));
            }
        }
    }
    lemma_split_extend(head, new_entry, semicolon());
    let pieces = split_on(head + new_entry, semicolon());
    assert(e + new_entry =~= new_entry);
    assert(pieces.last() == new_entry);
    assert(pieces.drop_last().push(pieces.last()) =~= pieces);
    let entries = non_empty(pieces);
    assert(entries == non_empty(pieces.drop_last()).push(new_entry));
    assert(entries[entries.len() - 1] == new_entry);
    assert(path_entries(appended(current, new_entry)) == entries);
}

/// The entries of `remove_entry`'s result are exactly the entries of the input
/// that do not compare equal to the removed entry, in their order; so none of
/// them does.
pub proof fn lemma_remove_entries(path: Seq<char>, normalized_entry: Seq<char>)
    ensures
        path_entries(removed(path, normalized_entry)) == entries_without(
            path_entries(path),
            normalized_entry,
        ),
        !path_has(removed(path, normalized_entry), normalized_entry),
{
    let entries = path_entries(path);
    let kept = entries_without(entries, normalized_entry);
    lemma_entries_shape(path);
    lemma_entries_without(entries, normalized_entry);
    assert(free_of_semicolons(kept)) by {
        assert forall|i: int| 0 <= i < kept.len() implies !(#[trigger] kept[i]).contains(';') by {
            assert(entries.contains(kept[i]));
            let k = choose|k: int| 0 <= k < entries.len() && entries[k] == kept[i];
        }
    }
    assert(all_non_empty(kept)) by {
        assert forall|i: int| 0 <= i < kept.len() implies (#[trigger] kept[i]).len() > 0 by {
            assert(entries.contains(kept[i]));
            let k = choose|k: int| 0 <= k < entries.len() && entries[k] == kept[i];
        }
    }
    lemma_split_join(kept);
    lemma_non_empty(kept);
    if kept.len() == 0 {
        let e = Seq::<char>::empty();
        assert(non_empty(seq![e]) == non_empty(seq![e].drop_last()));
        assert(seq![e].drop_last() =~= Seq::<Seq<char>>::empty());
        assert(path_entries(removed(path, normalized_entry)) =~= kept);
    } else {
        assert(path_entries(removed(path, normalized_entry)) == kept);
    }
}

/// Removing an entry twice gives the same text as removing it once.
pub proof fn lemma_remove_idempotent(path: Seq<char>, normalized_entry: Seq<char>)
    ensures
        removed(removed(path, normalized_entry), normalized_entry) == removed(
            path,
            normalized_entry,
        ),
{
    lemma_remove_entries(path, normalized_entry);
    let kept = entries_without(path_entries(path), normalized_entry);
    lemma_entries_without(path_entries(path), normalized_entry);
    lemma_entries_without(kept, normalized_entry);
    assert(entries_without(kept, normalized_entry) == kept);
}

/// The entries of `current` with a non-empty, `;`-free entry appended are the
/// entries of `current` followed by that entry.
pub proof fn lemma_appended_entries(current: Seq<char>, new_entry: Seq<char>)
    requires
        new_entry.len() > 0,
        !new_entry.contains(';'),
    ensures
        path_entries(appended(current, new_entry)) == path_entries(current).push(new_entry),
{
    let e = Seq::<char>::empty();
    let sc = semicolon();
    assert(sc.contains(';')) by {
        assert(sc[0] == ';');
    }
    assert(forall|j: int| 0 <= j < new_entry.len() ==> !sc.contains(#[trigger] new_entry[j])) by {
        assert forall|j: int| 0 <= j < new_entry.len() implies !sc.contains(#[trigger] new_entry[j]) by {
            if sc.contains(new_entry[j]) {
                assert(sc[0] == ';');
                assert(new_entry.contains(';'));
            }
        }
    }
    lemma_split_nonempty(current, sc);
    let base = split_on(current, sc);
    if current.len() == 0 || current.last() == ';' {
        assert(appended(current, new_entry) == current + new_entry);
        lemma_split_extend(current, new_entry, sc);
        let front = if current.len() == 0 {
            assert(base == seq![e]);
            Seq::<Seq<char>>::empty()
        } else {
            assert(base == split_on(current.drop_last(), sc).push(e));
            split_on(current.drop_last(), sc)
        };
        assert(base == front.push(e));
        assert(base.last() + new_entry =~= new_entry);
        assert(split_on(current + new_entry, sc) =~= front.push(new_entry));
        assert(front.push(e).drop_last() =~= front);
        assert(front.push(new_entry).drop_last() =~= front);
        assert(non_empty(base) == non_empty(front));
        assert(non_empty(front.push(new_entry)) == non_empty(front).push(new_entry));
    } else {
        let head = current + sc;
        assert(appended(current, new_entry) =~= head + new_entry);
        assert(head.drop_last() =~= current);
        assert(head.last() == ';');
        assert(split_on(head, sc) == base.push(e));
        lemma_split_extend(head, new_entry, sc);
        assert(e + new_entry =~= new_entry);
        assert(split_on(head + new_entry, sc) =~= base.push(new_entry));
        assert(base.push(new_entry).drop_last() =~= base);
        assert(non_empty(base.push(new_entry)) == non_empty(base).push(new_entry));
    }
}

/// Appending an entry and then removing it gives the same text as removing it
/// from the original: the appended entry leaves no trace.
pub proof fn lemma_append_then_remove(current: Seq<char>, new_entry: Seq<char>)
    requires
        new_entry.len() > 0,
        !new_entry.contains(';'),
    ensures
        removed(appended(current, new_entry), normalized(new_entry)) == removed(
            current,
            normalized(new_entry),
        ),
{
    lemma_appended_entries(current, new_entry);
    let entries = path_entries(current);
    let longer = entries.push(new_entry);
    assert(longer.drop_last() =~= entries);
    assert(entries_without(longer, normalized(new_entry)) == entries_without(
        entries,
        normalized(new_entry),
    ));
}

} // verus!
