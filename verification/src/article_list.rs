//! The article listing served by the content server: the directory's
//! non-directory entries, sorted ascending by file name.

use vstd::prelude::*;
use vstd::relations::sorted_by;
use crate::strings::lex_le;
use crate::strings::lemma_lex_le_total;
use crate::strings::lemma_lex_le_trans;
use crate::strings::str_le;

verus! {

broadcast use {
    vstd::seq_lib::to_multiset_build,
    vstd::seq_lib::to_multiset_insert,
    vstd::seq_lib::to_multiset_contains,
};

/// The listing payload: article file names, in the order they are served.
#[derive(Debug)]
pub struct Articles {
    pub articles: Vec<String>,
}

/// One directory entry as the filesystem reports it: its bare name and
/// whether it is a subdirectory.
#[derive(Debug)]
pub struct FsEntry {
    pub name: String,
    pub is_dir: bool,
}

/// The character sequences of a sequence of strings.
pub open spec fn views_of(ss: Seq<String>) -> Seq<Seq<char>> {
    ss.map_values(|s: String| s@)
}

/// The names of the non-directory entries, in directory order.
pub open spec fn file_names(es: Seq<FsEntry>) -> Seq<Seq<char>> {
    es.filter(|e: FsEntry| !e.is_dir).map_values(|e: FsEntry| e.name@)
}

/// The [`lex_le`] order as a relation value, for `sorted_by`.
pub open spec fn lex_le_fn() -> spec_fn(Seq<char>, Seq<char>) -> bool {
    |a: Seq<char>, b: Seq<char>| lex_le(a, b)
}

/// Sorts names ascending in the order of [`lex_le`], keeping every
/// occurrence.
pub fn sort_names(names: Vec<String>) -> (r: Vec<String>)
    ensures
        sorted_by(views_of(r@), lex_le_fn()),
        views_of(r@).to_multiset() == views_of(names@).to_multiset(),
{
    let mut out: Vec<String> = Vec::new();
    let mut i: usize = 0;
    proof {
        assert(views_of(out@) =~= Seq::<Seq<char>>::empty());
        assert(views_of(names@.take(0)) =~= Seq::<Seq<char>>::empty());
        assert(views_of(out@).to_multiset() =~= views_of(names@.take(0)).to_multiset());
    }
    while i < names.len()
        invariant
            i <= names@.len(),
            sorted_by(views_of(out@), lex_le_fn()),
            views_of(out@).to_multiset() == views_of(names@.take(i as int)).to_multiset(),
        decreases names@.len() - i,
    {
        let x = names[i].clone();
        let mut k: usize = 0;
        while k < out.len() && !str_le(x.as_str(), out[k].as_str())
            invariant
                k <= out@.len(),
                forall|j: int| 0 <= j < k ==> lex_le(#[trigger] views_of(out@)[j], x@),
            decreases out@.len() - k,
        {
            proof {
                lemma_lex_le_total(x@, out@[k as int]@);
            }
            k = k + 1;
        }
        let ghost old_views = views_of(out@);
        let ghost xv = x@;
        proof {
            if k < out@.len() {
                assert(lex_le(xv, old_views[k as int]));
            }
        }
        out.insert(k, x);
        proof {
            assert(views_of(out@) =~= old_views.insert(k as int, xv));
            let nv = views_of(out@);
            assert forall|p: int, q: int| 0 <= p < q < nv.len() implies #[trigger] lex_le_fn()(
                nv[p],
                nv[q],
            ) by {
                if q < k {
                    assert(lex_le_fn()(old_views[p], old_views[q]));
                } else if p > k {
                    assert(lex_le_fn()(old_views[p - 1], old_views[q - 1]));
                } else if p < k && q == k {
                    assert(lex_le(old_views[p], xv));
                } else if p == k {
                    assert(lex_le(xv, old_views[k as int]));
                    if q > k + 1 {
                        assert(lex_le_fn()(old_views[k as int], old_views[q - 1]));
                        lemma_lex_le_trans(xv, old_views[k as int], old_views[q - 1]);
                    }
                } else {
                    assert(p < k && q > k);
                    assert(lex_le_fn()(old_views[p], old_views[q - 1]));
                }
            }
            assert(views_of(names@.take(i + 1)) =~= views_of(names@.take(i as int)).push(xv));
        }
        i = i + 1;
    }
    proof {
        assert(names@.take(names@.len() as int) =~= names@);
    }
    out
}

/// Builds the listing from a directory's entries: subdirectories are
/// dropped, file names are kept — each occurrence — and sorted ascending
/// by [`lex_le`].
pub fn list_articles(entries: Vec<FsEntry>) -> (r: Articles)
    ensures
        sorted_by(views_of(r.articles@), lex_le_fn()),
        views_of(r.articles@).to_multiset() == file_names(entries@).to_multiset(),
{
    let mut names: Vec<String> = Vec::new();
    let mut i: usize = 0;
    proof {
        assert(names@ =~= Seq::<String>::empty());
        assert(entries@.take(0) =~= Seq::<FsEntry>::empty());
        assert(views_of(names@) =~= file_names(entries@.take(0)));
    }
    while i < entries.len()
        invariant
            i <= entries@.len(),
            views_of(names@) == file_names(entries@.take(i as int)),
        decreases entries@.len() - i,
    {
        let ghost pre = names@;
        let keep = !entries[i].is_dir;
        if keep {
            names.push(entries[i].name.clone());
        }
        proof {
            lemma_file_names_step(entries@, i as int);
            if keep {
                assert(views_of(names@) =~= views_of(pre).push(entries@[i as int].name@));
            }
        }
        i = i + 1;
    }
    proof {
        assert(entries@.take(entries@.len() as int) =~= entries@);
    }
    Articles { articles: sort_names(names) }
}

/// Extending the scanned prefix by one entry extends the kept names by
/// that entry's name exactly when it is not a directory.
proof fn lemma_file_names_step(es: Seq<FsEntry>, i: int)
    requires
        0 <= i < es.len(),
    ensures
        !es[i].is_dir ==> file_names(es.take(i + 1)) =~= file_names(es.take(i)).push(es[i].name@),
        es[i].is_dir ==> file_names(es.take(i + 1)) =~= file_names(es.take(i)),
{
    reveal(Seq::<_>::filter);
    let pred = |e: FsEntry| !e.is_dir;
    assert(es.take(i + 1).drop_last() =~= es.take(i));
    assert(es.take(i + 1).last() == es[i]);
    if pred(es[i]) {
        assert(es.take(i + 1).filter(pred) == es.take(i).filter(pred).push(es[i]));
        assert(file_names(es.take(i + 1)) =~= file_names(es.take(i)).push(es[i].name@));
    } else {
        assert(es.take(i + 1).filter(pred) == es.take(i).filter(pred));
    }
}

/// Every kept name comes from a non-directory entry of the directory.
proof fn lemma_file_names_source(es: Seq<FsEntry>, n: Seq<char>)
    requires
        file_names(es).contains(n),
    ensures
        exists|j: int| 0 <= j < es.len() && !es[j].is_dir && es[j].name@ == n,
    decreases es.len(),
{
    reveal(Seq::<_>::filter);
    let pred = |e: FsEntry| !e.is_dir;
    if es.len() == 0 {
        assert(es.filter(pred) =~= Seq::<FsEntry>::empty());
    } else {
        assert(es.drop_last().push(es.last()) =~= es);
        if pred(es.last()) {
            assert(es.filter(pred) == es.drop_last().filter(pred).push(es.last()));
        } else {
            assert(es.filter(pred) == es.drop_last().filter(pred));
        }
        if es.last().name@ == n && pred(es.last()) {
            assert(0 <= es.len() - 1 < es.len() && !es[es.len() - 1].is_dir && es[es.len()
                - 1].name@ == n);
        } else {
            let fv = file_names(es);
            let fv0 = file_names(es.drop_last());
            assert(fv0.contains(n)) by {
                let j = choose|j: int| 0 <= j < fv.len() && fv[j] == n;
                if pred(es.last()) {
                    assert(fv =~= fv0.push(es.last().name@));
                    assert(j < fv0.len());
                    assert(fv0[j] == n);
                } else {
                    assert(fv =~= fv0);
                    assert(fv0[j] == n);
                }
            }
            lemma_file_names_source(es.drop_last(), n);
            let j = choose|j: int|
                0 <= j < es.drop_last().len() && !es.drop_last()[j].is_dir && es.drop_last()[
                    j
                ].name@ == n;
            assert(0 <= j < es.len() && !es[j].is_dir && es[j].name@ == n);
        }
    }
}

/// For a directory holding only files, the listing keeps exactly the
/// entries' names, each occurrence of each name.
pub proof fn lemma_listing_keeps_all_files(es: Seq<FsEntry>)
    requires
        forall|j: int| 0 <= j < es.len() ==> !(#[trigger] es[j]).is_dir,
    ensures
        file_names(es).to_multiset() == es.map_values(|e: FsEntry| e.name@).to_multiset(),
    decreases es.len(),
{
    reveal(Seq::<_>::filter);
    let pred = |e: FsEntry| !e.is_dir;
    if es.len() == 0 {
        assert(es.filter(pred) =~= es);
    } else {
        assert(es.drop_last().push(es.last()) =~= es);
        assert(es.filter(pred) == es.drop_last().filter(pred).push(es.last()));
        assert(forall|j: int|
            0 <= j < es.drop_last().len() ==> !(#[trigger] es.drop_last()[j]).is_dir);
        lemma_listing_keeps_all_files(es.drop_last());
        assert(file_names(es) =~= file_names(es.drop_last()).push(es.last().name@));
        assert(es.map_values(|e: FsEntry| e.name@) =~= es.drop_last().map_values(
            |e: FsEntry| e.name@,
        ).push(es.last().name@));
    }
}

/// A subdirectory's name is absent from the listing unless some file
/// happens to carry the same name.
pub proof fn lemma_listing_excludes_directories(es: Seq<FsEntry>, i: int)
    requires
        0 <= i < es.len(),
        es[i].is_dir,
        forall|j: int|
            0 <= j < es.len() && !(#[trigger] es[j]).is_dir ==> es[j].name@ != es[i].name@,
    ensures
        !file_names(es).contains(es[i].name@),
        file_names(es).to_multiset().count(es[i].name@) == 0,
{
    if file_names(es).contains(es[i].name@) {
        lemma_file_names_source(es, es[i].name@);
    }
    assert(file_names(es).to_multiset().count(es[i].name@) == 0) by {
        if file_names(es).to_multiset().count(es[i].name@) > 0 {
            assert(file_names(es).contains(es[i].name@));
        }
    }
}

/// Distinct file names give a listing in which each name occurs exactly
/// once.
pub proof fn lemma_listing_unique(es: Seq<FsEntry>)
    requires
        forall|p: int, q: int|
            0 <= p < q < es.len() ==> (#[trigger] es[p]).name@ != (#[trigger] es[q]).name@,
    ensures
        forall|n: Seq<char>|
            file_names(es).to_multiset().contains(n) ==> file_names(es).to_multiset().count(n)
                == 1,
{
    let fv = file_names(es);
    assert forall|p: int, q: int| 0 <= p < q < fv.len() implies fv[p] != fv[q] by {
        lemma_file_names_indexes(es, p, q);
    }
    assert(fv.no_duplicates());
    fv.lemma_multiset_has_no_duplicates();
}

/// Two positions of the kept names come from two distinct entries, in order.
proof fn lemma_file_names_indexes(es: Seq<FsEntry>, p: int, q: int)
    requires
        0 <= p < q < file_names(es).len(),
        forall|a: int, b: int|
            0 <= a < b < es.len() ==> (#[trigger] es[a]).name@ != (#[trigger] es[b]).name@,
    ensures
        file_names(es)[p] != file_names(es)[q],
    decreases es.len(),
{
    reveal(Seq::<_>::filter);
    let pred = |e: FsEntry| !e.is_dir;
    assert(es.len() != 0) by {
        if es.len() == 0 {
            assert(es.filter(pred) =~= Seq::<FsEntry>::empty());
        }
    }
    assert(es.drop_last().push(es.last()) =~= es);
    if pred(es.last()) {
        assert(es.filter(pred) == es.drop_last().filter(pred).push(es.last()));
    } else {
        assert(es.filter(pred) == es.drop_last().filter(pred));
    }
    let fv = file_names(es);
    let fv0 = file_names(es.drop_last());
    assert(forall|a: int, b: int|
        0 <= a < b < es.drop_last().len() ==> (#[trigger] es.drop_last()[a]).name@ != (
        #[trigger] es.drop_last()[b]).name@);
    if q < fv0.len() {
        lemma_file_names_indexes(es.drop_last(), p, q);
        assert(fv[p] == fv0[p] && fv[q] == fv0[q]);
    } else {
        assert(pred(es.last()));
        assert(fv =~= fv0.push(es.last().name@));
        assert(fv[q] == es.last().name@);
        assert(fv0.contains(fv0[p]));
        lemma_file_names_source(es.drop_last(), fv0[p]);
        let j = choose|j: int|
            0 <= j < es.drop_last().len() && !es.drop_last()[j].is_dir && es.drop_last()[j].name@
                == fv0[p];
        assert(es[j].name@ == fv0[p]);
        assert(es[j].name@ != es[es.len() - 1].name@);
        assert(fv[p] == fv0[p]);
    }
}

} // verus!
