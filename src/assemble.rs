//! Turning what was read from disk into source units: the source files of a
//! module tree, and the files of an included directory, each in path order.

use vstd::prelude::*;
use vstd::multiset::{group_multiset_axioms, lemma_multiset_empty_len};
use vstd::seq_lib::{to_multiset_build, to_multiset_contains, to_multiset_len};
use crate::order::{lemma_sorted_unique, paths_distinct, sort_by_path, sorted_by_path};
use crate::text::{ends_with, has_suffix};

verus! {

/// Suffix of the files that hold source.
pub const SOURCE_EXTENSION: &'static str = ".scorch";

/// `SOURCE_EXTENSION` as a sequence of characters.
pub open spec fn source_suffix() -> Seq<char> {
    seq!['.', 's', 'c', 'o', 'r', 'c', 'h']
}

/// The file at `path` holds source.
pub open spec fn is_source(f: (String, String)) -> bool {
    has_suffix(f.0@, source_suffix())
}

/// Whether `path` names a source file.
pub fn is_source_path(path: &str) -> (r: bool)
    ensures
        r == has_suffix(path@, source_suffix()),
{
    proof {
        reveal_strlit(".scorch");
    }
    assert(SOURCE_EXTENSION@ == source_suffix());
    ends_with(path, SOURCE_EXTENSION)
}

/// The texts of `files`, in their order.
pub open spec fn texts_of(files: Seq<(String, String)>) -> Seq<Seq<char>> {
    files.map_values(|f: (String, String)| f.1@)
}

/// The `(path, text)` pairs of `files` whose path names a source file.
fn source_files(files: Vec<(String, String)>) -> (r: Vec<(String, String)>)
    ensures
        r@ == files@.filter(|f: (String, String)| is_source(f)),
{
    let ghost all = files@;
    let mut kept: Vec<(String, String)> = Vec::new();
    let mut rest = files;
    let ghost mut done: Seq<(String, String)> = Seq::empty();
    while rest.len() > 0
        invariant
            all == done + rest@,
            kept@ == done.filter(|f: (String, String)| is_source(f)),
        decreases rest@.len(),
    {
        let f = rest.remove(0);
        proof {
            assert(done.push(f).drop_last() =~= done);
            assert(all =~= done.push(f) + rest@);
            done = done.push(f);
        }
        let keep = is_source_path(f.0.as_str());
        proof {
            let p = |g: (String, String)| is_source(g);
            done.drop_last().lemma_filter_push(f, p);
            assert(done.drop_last().push(f) =~= done);
        }
        if keep {
            kept.push(f);
        }
    }
    proof {
        assert(done =~= all);
    }
    kept
}

/// The texts of `files`, in order.
fn texts(files: Vec<(String, String)>) -> (r: Vec<String>)
    ensures
        r.deep_view() == texts_of(files@),
{
    let ghost all = files@;
    let mut out: Vec<String> = Vec::new();
    let mut rest = files;
    let ghost mut done: Seq<(String, String)> = Seq::empty();
    while rest.len() > 0
        invariant
            all == done + rest@,
            out.deep_view() == texts_of(done),
        decreases rest@.len(),
    {
        let f = rest.remove(0);
        proof {
            assert(all =~= done.push(f) + rest@);
        }
        let ghost prev = out.deep_view();
        let (_, text) = f;
        out.push(text);
        proof {
            assert forall|i: int| 0 <= i < out@.len() implies out.deep_view()[i] == texts_of(
                done.push(f),
            )[i] by {
                if i < prev.len() {
                    assert(out.deep_view()[i] == prev[i]);
                }
            }
            assert(prev.len() == done.len());
            assert(out.deep_view().len() == texts_of(done.push(f)).len());
            assert(out.deep_view() =~= texts_of(done.push(f)));
            done = done.push(f);
        }
    }
    proof {
        assert(done =~= all);
    }
    out
}

/// `s` holds the source files of `files`, in path order.
pub open spec fn arranges_sources(files: Seq<(String, String)>, s: Seq<(String, String)>) -> bool {
    sorted_by_path(s) && s.to_multiset() == files.filter(|f: (String, String)| is_source(f)).to_multiset()
}

/// The texts of the source files of a module tree, given as `(relative path,
/// text)` pairs: files that do not hold source are left out, and the others
/// come in path order, whatever order they were listed in.
pub fn module_sources(files: Vec<(String, String)>) -> (r: Vec<String>)
    ensures
        exists|s: Seq<(String, String)>| arranges_sources(files@, s) && r.deep_view() == texts_of(s),
{
    let kept = source_files(files);
    let sorted = sort_by_path(kept);
    let ghost s = sorted@;
    let r = texts(sorted);
    assert(arranges_sources(files@, s) && r.deep_view() == texts_of(s));
    r
}

/// The unit of each file of `s`: its name, and its text alone.
pub open spec fn file_units_of(s: Seq<(String, String)>) -> Seq<(Seq<char>, Seq<Seq<char>>)> {
    s.map_values(|f: (String, String)| (f.0@, seq![f.1@]))
}

/// The units of an included directory, given its files as `(file name,
/// text)` pairs: one unit per file, named by the file, in name order.
pub fn directory_units(children: Vec<(String, String)>) -> (r: Vec<(String, Vec<String>)>)
    ensures
        exists|s: Seq<(String, String)>|
            sorted_by_path(s) && s.to_multiset() == children@.to_multiset()
                && crate::bundle::units_view(r@) == file_units_of(s),
{
    let sorted = sort_by_path(children);
    let ghost all = sorted@;
    let mut out: Vec<(String, Vec<String>)> = Vec::new();
    let mut rest = sorted;
    let ghost mut done: Seq<(String, String)> = Seq::empty();
    while rest.len() > 0
        invariant
            all == done + rest@,
            crate::bundle::units_view(out@) == file_units_of(done),
        decreases rest@.len(),
    {
        let f = rest.remove(0);
        proof {
            assert(all =~= done.push(f) + rest@);
        }
        let (name, text) = f;
        let mut one: Vec<String> = Vec::new();
        one.push(text);
        proof {
            assert(one.deep_view() =~= seq![f.1@]);
        }
        let ghost prev = crate::bundle::units_view(out@);
        out.push((name, one));
        proof {
            assert forall|i: int| 0 <= i < out@.len() implies crate::bundle::units_view(out@)[i]
                == file_units_of(done.push(f))[i] by {
                if i < prev.len() {
                    assert(crate::bundle::units_view(out@)[i] == prev[i]);
                }
            }
            assert(prev.len() == done.len());
            assert(crate::bundle::units_view(out@).len() == file_units_of(done.push(f)).len());
            assert(crate::bundle::units_view(out@) =~= file_units_of(done.push(f)));
            done = done.push(f);
        }
    }
    proof {
        assert(done =~= all);
    }
    out
}

/// How often `x` stands among the source files of `l`.
proof fn lemma_source_count(l: Seq<(String, String)>, x: (String, String))
    ensures
        l.filter(|f: (String, String)| is_source(f)).to_multiset().count(x) == if is_source(x) {
            l.to_multiset().count(x)
        } else {
            0
        },
    decreases l.len(),
{
    broadcast use {to_multiset_len, group_multiset_axioms, lemma_multiset_empty_len};

    let p = |f: (String, String)| is_source(f);
    if l.len() == 0 {
        assert(l.filter(p).len() == 0);
        to_multiset_len(l.filter(p));
        to_multiset_len(l);
    } else {
        let init = l.drop_last();
        let last = l.last();
        lemma_source_count(init, x);
        init.lemma_filter_push(last, p);
        assert(init.push(last) =~= l);
        to_multiset_build(init, last);
        to_multiset_build(init.filter(p), last);
    }
}

/// The texts of a module do not depend on the order in which its files were
/// listed: two listings of the same files, whose source files have distinct
/// paths, give the same texts in the same order.
pub proof fn lemma_module_sources_deterministic(
    l1: Seq<(String, String)>,
    l2: Seq<(String, String)>,
    s1: Seq<(String, String)>,
    s2: Seq<(String, String)>,
)
    requires
        l1.to_multiset() == l2.to_multiset(),
        paths_distinct(l1.filter(|f: (String, String)| is_source(f))),
        arranges_sources(l1, s1),
        arranges_sources(l2, s2),
    ensures
        texts_of(s1) == texts_of(s2),
{
    broadcast use group_multiset_axioms;

    let p = |f: (String, String)| is_source(f);
    assert(l1.filter(p).to_multiset() =~= l2.filter(p).to_multiset()) by {
        assert forall|x: (String, String)| #[trigger] l1.filter(p).to_multiset().count(x)
            == l2.filter(p).to_multiset().count(x) by {
            lemma_source_count(l1, x);
            lemma_source_count(l2, x);
        }
    }
    lemma_paths_distinct_permuted(l1.filter(p), s1);
    lemma_sorted_unique(s1, s2);
}

/// The units of an included directory do not depend on the order in which
/// its files were listed: two listings of the same files with distinct names
/// give the same units in the same order.
pub proof fn lemma_directory_units_deterministic(
    l1: Seq<(String, String)>,
    l2: Seq<(String, String)>,
    s1: Seq<(String, String)>,
    s2: Seq<(String, String)>,
)
    requires
        l1.to_multiset() == l2.to_multiset(),
        paths_distinct(l1),
        sorted_by_path(s1) && s1.to_multiset() == l1.to_multiset(),
        sorted_by_path(s2) && s2.to_multiset() == l2.to_multiset(),
    ensures
        file_units_of(s1) == file_units_of(s2),
{
    lemma_paths_distinct_permuted(l1, s1);
    lemma_sorted_unique(s1, s2);
}

/// A rearrangement of files with distinct paths has distinct paths.
pub proof fn lemma_paths_distinct_permuted(l: Seq<(String, String)>, s: Seq<(String, String)>)
    requires
        paths_distinct(l),
        s.to_multiset() == l.to_multiset(),
    ensures
        paths_distinct(s),
{
    broadcast use group_multiset_axioms;

    assert(l.no_duplicates()) by {
        assert forall|i: int, j: int| 0 <= i < l.len() && 0 <= j < l.len() && i != j implies l[i]
            != l[j] by {
            if i < j {
                assert(l[i].0@ != l[j].0@);
            } else {
                assert(l[j].0@ != l[i].0@);
            }
        }
    }
    l.lemma_multiset_has_no_duplicates();
    s.lemma_multiset_has_no_duplicates_conv();
    assert forall|i: int, j: int| 0 <= i < j < s.len() implies #[trigger] s[i].0@
        != #[trigger] s[j].0@ by {
        to_multiset_contains(s, s[i]);
        to_multiset_contains(s, s[j]);
        to_multiset_contains(l, s[i]);
        to_multiset_contains(l, s[j]);
        let a = choose|a: int| 0 <= a < l.len() && l[a] == s[i];
        let b = choose|b: int| 0 <= b < l.len() && l[b] == s[j];
        if a < b {
            assert(l[a].0@ != l[b].0@);
        } else if b < a {
            assert(l[b].0@ != l[a].0@);
        }
    }
}

} // verus!
