//! The `<index>` listing of getIndexes/getArtists read run by run: each
//! maximal run of artists under one letter is one `<index>` element.
use vstd::prelude::*;
use crate::catalog::{artist_element_spec, index_letter_spec, index_open, indexes_from, indexes_spec, ArtistGroup};
use crate::xml::escape_spec;

verus! {

/// How many leading groups of `gs` sort under the letter `l`.
pub open spec fn run_len(gs: Seq<ArtistGroup>, l: Seq<char>) -> nat
    decreases gs.len(),
{
    if gs.len() > 0 && index_letter_spec(gs[0].name@) == l {
        1 + run_len(gs.skip(1), l)
    } else {
        0
    }
}

/// The artist elements of `gs`, one after the other.
pub open spec fn artists_xml(gs: Seq<ArtistGroup>, wc: bool) -> Seq<char>
    decreases gs.len(),
{
    if gs.len() == 0 {
        Seq::empty()
    } else {
        artist_element_spec(gs[0], wc) + artists_xml(gs.skip(1), wc)
    }
}

/// The listing run by run: each maximal run of consecutive artists that
/// sort under one letter becomes one `<index name="L">` element holding
/// their artist elements.
pub open spec fn index_runs(gs: Seq<ArtistGroup>, wc: bool) -> Seq<char>
    decreases gs.len(),
{
    if gs.len() == 0 {
        Seq::empty()
    } else {
        let l = index_letter_spec(gs[0].name@);
        let n = run_len(gs, l);
        proof {
            lemma_run_len_bound(gs, l);
        }
        if n == 0 {
            Seq::empty()
        } else {
            "<index name=\""@ + escape_spec(l) + "\">"@ + artists_xml(gs.take(n as int), wc) + "</index>"@
                + index_runs(gs.skip(n as int), wc)
        }
    }
}

/// A run is never longer than the list.
pub proof fn lemma_run_len_bound(gs: Seq<ArtistGroup>, l: Seq<char>)
    ensures
        run_len(gs, l) <= gs.len(),
    decreases gs.len(),
{
    if gs.len() > 0 && index_letter_spec(gs[0].name@) == l {
        lemma_run_len_bound(gs.skip(1), l);
    }
}

/// Splitting off the first group of a run of `1 + m` groups.
proof fn lemma_run_step(gs: Seq<ArtistGroup>, m: int, wc: bool)
    requires
        0 <= m,
        m + 1 <= gs.len(),
    ensures
        artists_xml(gs.take(m + 1), wc) == artist_element_spec(gs[0], wc) + artists_xml(
            gs.skip(1).take(m),
            wc,
        ),
        gs.skip(m + 1) == gs.skip(1).skip(m),
{
    let t = gs.take(m + 1);
    assert(t.len() > 0);
    assert(t[0] == gs[0]);
    assert(t.skip(1) =~= gs.skip(1).take(m));
    assert(gs.skip(m + 1) =~= gs.skip(1).skip(m));
}

/// With the element of letter `current` open, the rest of the listing is
/// the rest of that run, its closing tag, and the remaining runs.
proof fn lemma_indexes_from_runs(gs: Seq<ArtistGroup>, current: Seq<char>, wc: bool)
    requires
        current.len() > 0,
    ensures
        indexes_from(gs, current, wc) == artists_xml(gs.take(run_len(gs, current) as int), wc)
            + "</index>"@ + index_runs(gs.skip(run_len(gs, current) as int), wc),
    decreases gs.len(),
{
    if gs.len() == 0 {
        assert(gs.take(0) =~= gs);
        assert(gs.skip(0) =~= gs);
        assert(artists_xml(gs, wc) =~= Seq::<char>::empty());
        assert(index_runs(gs, wc) =~= Seq::<char>::empty());
        assert(Seq::<char>::empty() + "</index>"@ + Seq::<char>::empty() =~= "</index>"@);
    } else {
        let l = index_letter_spec(gs[0].name@);
        let r = gs.skip(1);
        lemma_indexes_from_runs(r, l, wc);
        lemma_run_len_bound(r, l);
        let m = run_len(r, l) as int;
        lemma_run_step(gs, m, wc);
        assert(run_len(gs, l) == 1 + m);
        let a = artist_element_spec(gs[0], wc);
        let aa = artists_xml(r.take(m), wc);
        let t = index_runs(r.skip(m), wc);
        let e = "</index>"@;
        let o = "<index name=\""@ + escape_spec(l) + "\">"@;
        let rest = indexes_from(r, l, wc);
        assert(rest == aa + e + t);
        assert(indexes_from(gs, current, wc) == index_open(l, current) + a + rest);
        if l == current {
            assert(index_open(l, current) =~= Seq::<char>::empty());
            assert(indexes_from(gs, current, wc) =~= (a + aa) + e + t);
        } else {
            assert(run_len(gs, current) == 0);
            assert(gs.take(0) =~= Seq::<ArtistGroup>::empty());
            assert(gs.skip(0) =~= gs);
            assert(artists_xml(Seq::<ArtistGroup>::empty(), wc) =~= Seq::<char>::empty());
            assert(index_runs(gs, wc) == o + artists_xml(gs.take(m + 1), wc) + e + index_runs(
                gs.skip(m + 1),
                wc,
            ));
            assert(index_runs(gs, wc) == o + (a + aa) + e + t);
            assert(index_open(l, current) =~= e + o);
            assert(indexes_from(gs, current, wc) =~= Seq::<char>::empty() + e + index_runs(gs, wc));
        }
    }
}

/// The listing is built run by run: every maximal run of consecutive
/// artists under one letter is one `<index>` element, in order, and an
/// empty library lists nothing.
pub proof fn lemma_indexes_are_runs(gs: Seq<ArtistGroup>, wc: bool)
    ensures
        indexes_spec(gs, wc) == index_runs(gs, wc),
{
    if gs.len() > 0 {
        let l = index_letter_spec(gs[0].name@);
        let r = gs.skip(1);
        assert(l.len() > 0);
        lemma_indexes_from_runs(r, l, wc);
        lemma_run_len_bound(r, l);
        let m = run_len(r, l) as int;
        lemma_run_step(gs, m, wc);
        assert(run_len(gs, l) == 1 + m);
        assert(index_open(l, Seq::empty()) =~= "<index name=\""@ + escape_spec(l) + "\">"@);
        assert(indexes_spec(gs, wc) =~= ("<index name=\""@ + escape_spec(l) + "\">"@)
            + artist_element_spec(gs[0], wc) + indexes_from(r, l, wc));
    }
}

} // verus!
