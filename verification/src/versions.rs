//! Choosing among listed directories: the version directories of a plugin cache,
//! newest first, and the newest installed Codex package.
use vstd::prelude::*;
use crate::order::{descending, insert_descending, text_less, chars_less, is_greatest, lemma_less_total};
use crate::text::{chars_of, has_prefix, starts_with_chars, same_chars};

verus! {

/// One entry of a directory listing: its file name and whether it is a directory
/// itself (a link to one is not).
pub struct ListedEntry {
    pub name: String,
    pub is_dir: bool,
}

/// The names of the listed directories other than `latest`, in listing order.
pub open spec fn version_candidates(entries: Seq<ListedEntry>) -> Seq<Seq<char>>
    decreases entries.len(),
{
    if entries.len() == 0 {
        Seq::empty()
    } else {
        let prev = version_candidates(entries.drop_last());
        let e = entries.last();
        if e.is_dir && e.name@ != "latest"@ {
            prev.push(e.name@)
        } else {
            prev
        }
    }
}

/// The version directories of a plugin cache, from the greatest name down: every
/// listed directory except `latest`.
pub fn sorted_version_dirs(entries: &Vec<ListedEntry>) -> (r: Vec<String>)
    ensures
        descending(r.deep_view()),
        r.deep_view().to_multiset() == version_candidates(entries@).to_multiset(),
{
    let latest = chars_of("latest");
    let mut r: Vec<String> = Vec::new();
    let mut i: usize = 0;
    assert(entries@.take(0) =~= Seq::<ListedEntry>::empty());
    assert(r.deep_view() =~= version_candidates(entries@.take(0)));
    while i < entries.len()
        invariant
            latest@ == "latest"@,
            i <= entries@.len(),
            descending(r.deep_view()),
            r.deep_view().to_multiset() == version_candidates(entries@.take(i as int)).to_multiset(),
        decreases entries@.len() - i,
    {
        let e = &entries[i];
        assert(entries@.take(i + 1).drop_last() =~= entries@.take(i as int));
        assert(entries@.take(i + 1).last() == entries@[i as int]);
        let name = chars_of(e.name.as_str());
        if e.is_dir && !same_chars(name.as_slice(), latest.as_slice()) {
            let ghost before = version_candidates(entries@.take(i as int));
            insert_descending(&mut r, e.name.clone());
            proof {
                vstd::seq_lib::to_multiset_build(before, e.name@);
            }
        }
        i = i + 1;
    }
    assert(entries@.take(entries@.len() as int) =~= entries@);
    r
}

/// The paths of the listed Codex package directories, in listing order.
pub open spec fn codex_listing(entries: Seq<(Seq<char>, Seq<char>)>) -> Seq<Seq<char>>
    decreases entries.len(),
{
    if entries.len() == 0 {
        Seq::empty()
    } else {
        let prev = codex_listing(entries.drop_last());
        if has_prefix(entries.last().0, "OpenAI.Codex_"@) {
            prev.push(entries.last().1)
        } else {
            prev
        }
    }
}

/// The greatest path among the listed directories whose name marks an installed
/// Codex package, each entry given as its name and its path; `None` when there
/// is no such directory.
pub fn newest_codex_dir(entries: &Vec<(String, String)>) -> (r: Option<String>)
    ensures
        match r {
            Some(p) => is_greatest(codex_listing(entries.deep_view()), p@),
            None => codex_listing(entries.deep_view()).len() == 0,
        },
{
    let prefix = chars_of("OpenAI.Codex_");
    let mut best: Option<String> = None;
    let mut i: usize = 0;
    let ghost ev = entries.deep_view();
    assert(ev.take(0) =~= Seq::<(Seq<char>, Seq<char>)>::empty());
    while i < entries.len()
        invariant
            prefix@ == "OpenAI.Codex_"@,
            ev == entries.deep_view(),
            i <= entries@.len(),
            match best {
                Some(p) => is_greatest(codex_listing(ev.take(i as int)), p@),
                None => codex_listing(ev.take(i as int)).len() == 0,
            },
        decreases entries@.len() - i,
    {
        let ghost prev = codex_listing(ev.take(i as int));
        assert(ev.take(i + 1).drop_last() =~= ev.take(i as int));
        assert(ev.take(i + 1).last() == ev[i as int]);
        assert(ev[i as int] == (entries@[i as int].0@, entries@[i as int].1@));
        let name = chars_of(entries[i].0.as_str());
        if starts_with_chars(name.as_slice(), prefix.as_slice()) {
            let path = entries[i].1.clone();
            let ghost now = prev.push(path@);
            let pc = chars_of(path.as_str());
            match best {
                Some(b) => {
                    let bc = chars_of(b.as_str());
                    if chars_less(bc.as_slice(), pc.as_slice()) {
                        proof {
                            assert forall|k: int| 0 <= k < now.len() implies !text_less(path@, #[trigger] now[k]) by {
                                if k < prev.len() {
                                    assert(now[k] == prev[k]);
                                    if text_less(path@, prev[k]) {
                                        crate::order::lemma_less_transitive(b@, path@, prev[k]);
                                    }
                                } else {
                                    crate::order::lemma_less_irreflexive(path@);
                                }
                            }
                            assert(now[now.len() - 1] == path@);
                        }
                        best = Some(path);
                    } else {
                        proof {
                            lemma_less_total(b@, path@);
                            assert forall|k: int| 0 <= k < now.len() implies !text_less(b@, #[trigger] now[k]) by {
                                if k < prev.len() {
                                    assert(now[k] == prev[k]);
                                } else {
                                    if b@ == path@ {
                                        crate::order::lemma_less_irreflexive(b@);
                                    } else {
                                        if text_less(b@, path@) {
                                            crate::order::lemma_less_irreflexive(b@);
                                        }
                                    }
                                }
                            }
                            let j = choose|j: int| 0 <= j < prev.len() && prev[j] == b@;
                            assert(now[j] == b@);
                        }
                        best = Some(b);
                    }
                },
                None => {
                    proof {
                        crate::order::lemma_less_irreflexive(path@);
                        assert(now.len() == 1 && now[0] == path@);
                    }
                    best = Some(path);
                },
            }
        }
        i = i + 1;
    }
    assert(ev.take(entries@.len() as int) =~= ev);
    best
}

} // verus!
